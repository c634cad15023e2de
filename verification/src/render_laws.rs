//! Properties of the thread layout: the ordering of comments is a stable
//! sort by text, and the depth bound used for rendering never cuts a thread.

use vstd::prelude::*;
use crate::model::Comment;
use crate::input_order::{lemma_replies_complete, lemma_top_level_complete};
use crate::text::{
    text_lt, lemma_text_lt_irreflexive, lemma_text_lt_transitive, lemma_text_lt_total,
};
use crate::render::{
    RenderFn, RenderResultFn, shown_text, node_result, replies_failure, ok_texts, replies_to, distinct_ids, replies_among, replies, top_level_among, top_level, key,
    insert_by_contents, sort_by_contents, render_node, render_list, concat_all, render_forest,
    lemma_sort_members,
};

verus! {

/// `a` comes before `b`: by text, and by position where the texts are equal.
pub open spec fn before_in_order(cs: Seq<Comment>, a: usize, b: usize) -> bool {
    text_lt(key(cs, a), key(cs, b)) || (key(cs, a) == key(cs, b) && a < b)
}

/// Every element comes before every later one.
pub open spec fn in_order(cs: Seq<Comment>, s: Seq<usize>) -> bool {
    forall|i: int, j: int| 0 <= i < j < s.len() ==> #[trigger] before_in_order(cs, s[i], s[j])
}

/// Strictly increasing positions.
pub open spec fn increasing(s: Seq<usize>) -> bool {
    forall|i: int, j: int| 0 <= i < j < s.len() ==> s[i] < s[j]
}

proof fn lemma_insert_in_order(cs: Seq<Comment>, x: usize, t: Seq<usize>)
    requires
        in_order(cs, t),
        forall|k: int| 0 <= k < t.len() ==> t[k] < x,
    ensures
        in_order(cs, insert_by_contents(cs, x, t)),
    decreases t.len(),
{
    let r = insert_by_contents(cs, x, t);
    if t.len() == 0 {
    } else if text_lt(key(cs, x), key(cs, t[0])) {
        assert forall|i: int, j: int| 0 <= i < j < r.len() implies #[trigger] before_in_order(
            cs,
            r[i],
            r[j],
        ) by {
            if i == 0 {
                assert(r[j] == t[j - 1]);
                if j - 1 > 0 {
                    assert(before_in_order(cs, t[0], t[j - 1]));
                    if text_lt(key(cs, t[0]), key(cs, t[j - 1])) {
                        lemma_text_lt_transitive(key(cs, x), key(cs, t[0]), key(cs, t[j - 1]));
                    }
                }
            } else {
                assert(r[i] == t[i - 1]);
                assert(r[j] == t[j - 1]);
            }
        }
    } else {
        let t2 = t.drop_first();
        assert forall|i: int, j: int| 0 <= i < j < t2.len() implies #[trigger] before_in_order(
            cs,
            t2[i],
            t2[j],
        ) by {
            assert(before_in_order(cs, t[i + 1], t[j + 1]));
        }
        lemma_insert_in_order(cs, x, t2);
        let r2 = insert_by_contents(cs, x, t2);
        crate::render::lemma_insert_members(cs, x, t2);
        lemma_text_lt_total(key(cs, x), key(cs, t[0]));
        assert forall|i: int, j: int| 0 <= i < j < r.len() implies #[trigger] before_in_order(
            cs,
            r[i],
            r[j],
        ) by {
            if i == 0 {
                assert(r[j] == r2[j - 1]);
                if r2[j - 1] == x {
                } else {
                    let w = choose|w: int| 0 <= w < t2.len() && t2[w] == r2[j - 1];
                    assert(before_in_order(cs, t[0], t[w + 1]));
                }
            } else {
                assert(r[i] == r2[i - 1]);
                assert(r[j] == r2[j - 1]);
            }
        }
    }
}

/// The sort puts positions in order: by text, and equal texts keep their
/// input order.
pub proof fn lemma_sort_in_order(cs: Seq<Comment>, s: Seq<usize>)
    requires
        increasing(s),
    ensures
        in_order(cs, sort_by_contents(cs, s)),
    decreases s.len(),
{
    if s.len() > 0 {
        let prefix = s.drop_last();
        assert(increasing(prefix));
        lemma_sort_in_order(cs, prefix);
        lemma_sort_members(cs, prefix);
        let sorted = sort_by_contents(cs, prefix);
        assert forall|k: int| 0 <= k < sorted.len() implies sorted[k] < s.last() by {
            let w = choose|w: int| 0 <= w < prefix.len() && prefix[w] == sorted[k];
            assert(s[w] < s[s.len() - 1]);
        }
        lemma_insert_in_order(cs, s.last(), sorted);
    }
}

proof fn lemma_insert_multiset(cs: Seq<Comment>, x: usize, t: Seq<usize>)
    ensures
        insert_by_contents(cs, x, t).to_multiset() == t.to_multiset().insert(x),
    decreases t.len(),
{
    broadcast use vstd::seq_lib::group_to_multiset_ensures;

    if t.len() == 0 {
        assert(seq![x] =~= Seq::<usize>::empty().push(x));
    } else if text_lt(key(cs, x), key(cs, t[0])) {
        assert(seq![x] + t =~= t.insert(0, x));
        vstd::seq_lib::to_multiset_insert(t, 0, x);
    } else {
        let t2 = t.drop_first();
        lemma_insert_multiset(cs, x, t2);
        let r2 = insert_by_contents(cs, x, t2);
        assert(seq![t[0]] + r2 =~= r2.insert(0, t[0]));
        vstd::seq_lib::to_multiset_insert(r2, 0, t[0]);
        assert(t =~= t2.insert(0, t[0]));
        vstd::seq_lib::to_multiset_insert(t2, 0, t[0]);
        assert(t2.to_multiset().insert(x).insert(t[0]) =~= t2.to_multiset().insert(t[0]).insert(x));
    }
}

/// The sort rearranges its input: every position occurs as often in the
/// output as in the input.
pub proof fn lemma_sort_permutes(cs: Seq<Comment>, s: Seq<usize>)
    ensures
        sort_by_contents(cs, s).to_multiset() == s.to_multiset(),
    decreases s.len(),
{
    broadcast use vstd::seq_lib::group_to_multiset_ensures;

    if s.len() > 0 {
        let prefix = s.drop_last();
        lemma_sort_permutes(cs, prefix);
        lemma_insert_multiset(cs, s.last(), sort_by_contents(cs, prefix));
        assert(s =~= prefix.push(s.last()));
    }
}

/// The positions of the replies to a comment, and of the top-level comments,
/// are increasing.
pub proof fn lemma_replies_increasing(cs: Seq<Comment>, parent_id: Seq<char>, m: nat)
    requires
        m <= cs.len(),
        cs.len() <= usize::MAX,
    ensures
        increasing(replies_among(cs, parent_id, m)),
        forall|k: int|
            0 <= k < replies_among(cs, parent_id, m).len() ==> {
                let x = #[trigger] replies_among(cs, parent_id, m)[k];
                &&& (x as int) < m
                &&& replies_to(cs[x as int], parent_id)
            },
    decreases m,
{
    if m > 0 {
        lemma_replies_increasing(cs, parent_id, (m - 1) as nat);
        let rest = replies_among(cs, parent_id, (m - 1) as nat);
        let r = replies_among(cs, parent_id, m);
        if replies_to(cs[m - 1], parent_id) {
            assert(r == rest.push((m - 1) as usize));
            assert forall|k: int| 0 <= k < rest.len() implies r[k] == rest[k] by {}
            assert(r[r.len() - 1] == (m - 1) as usize);
        } else {
            assert(r == rest);
        }
    }
}

/// The positions of the top-level comments are increasing, and each answers
/// nothing.
pub proof fn lemma_top_level_increasing(cs: Seq<Comment>, m: nat)
    requires
        m <= cs.len(),
        cs.len() <= usize::MAX,
    ensures
        increasing(top_level_among(cs, m)),
        forall|k: int|
            0 <= k < top_level_among(cs, m).len() ==> {
                let x = #[trigger] top_level_among(cs, m)[k];
                &&& (x as int) < m
                &&& cs[x as int].reply_to_id is None
            },
    decreases m,
{
    if m > 0 {
        lemma_top_level_increasing(cs, (m - 1) as nat);
        let rest = top_level_among(cs, (m - 1) as nat);
        let r = top_level_among(cs, m);
        if cs[m - 1].reply_to_id is None {
            assert(r == rest.push((m - 1) as usize));
            assert forall|k: int| 0 <= k < rest.len() implies r[k] == rest[k] by {}
            assert(r[r.len() - 1] == (m - 1) as usize);
        } else {
            assert(r == rest);
        }
    }
}

/// The replies below a comment, and the top-level comments, are laid out in
/// order of their text, equal texts in input order, each exactly once.
pub proof fn lemma_thread_order(cs: Seq<Comment>, i: int)
    requires
        0 <= i < cs.len(),
        cs.len() <= usize::MAX,
    ensures
        in_order(cs, sort_by_contents(cs, replies(cs, i))),
        sort_by_contents(cs, replies(cs, i)).to_multiset() == replies(cs, i).to_multiset(),
        in_order(cs, sort_by_contents(cs, top_level(cs))),
        sort_by_contents(cs, top_level(cs)).to_multiset() == top_level(cs).to_multiset(),
{
    lemma_replies_increasing(cs, cs[i].id@, cs.len());
    lemma_top_level_increasing(cs, cs.len());
    lemma_sort_in_order(cs, replies(cs, i));
    lemma_sort_permutes(cs, replies(cs, i));
    lemma_sort_in_order(cs, top_level(cs));
    lemma_sort_permutes(cs, top_level(cs));
}

/// A chain of comments from a top-level comment down through replies, no
/// comment twice.
pub open spec fn is_thread_path(cs: Seq<Comment>, p: Seq<usize>) -> bool {
    &&& p.len() >= 1
    &&& p.no_duplicates()
    &&& forall|t: int| 0 <= t < p.len() ==> (#[trigger] p[t] as int) < cs.len()
    &&& cs[p[0] as int].reply_to_id is None
    &&& forall|t: int|
        0 <= t < p.len() - 1 ==> replies_to(#[trigger] cs[p[t + 1] as int], cs[p[t] as int].id@)
}

/// The positions below `n`.
spec fn below(n: nat) -> Set<usize> {
    Set::new(|x: usize| (x as int) < n)
}

proof fn lemma_below_len(n: nat)
    requires
        n <= usize::MAX + 1,
    ensures
        below(n).finite(),
        below(n).len() == n,
    decreases n,
{
    if n == 0 {
        assert(below(n) =~= Set::empty());
    } else {
        lemma_below_len((n - 1) as nat);
        assert(below((n - 1) as nat).insert((n - 1) as usize) =~= below(n));
    }
}

/// A sequence of distinct positions below `n` has at most `n` elements.
proof fn lemma_distinct_positions_bounded(p: Seq<usize>, n: nat)
    requires
        p.no_duplicates(),
        forall|t: int| 0 <= t < p.len() ==> (#[trigger] p[t] as int) < n,
        n <= usize::MAX + 1,
    ensures
        p.len() <= n,
{
    p.unique_seq_to_set();
    lemma_below_len(n);
    assert(p.to_set().subset_of(below(n))) by {
        assert forall|x: usize| p.to_set().contains(x) implies below(n).contains(x) by {
            let t = choose|t: int| 0 <= t < p.len() && p[t] == x;
        }
    }
    vstd::set_lib::lemma_len_subset(p.to_set(), below(n));
}

/// A reply to the last comment of a thread path extends the path.
proof fn lemma_extend_path(cs: Seq<Comment>, p: Seq<usize>, k: usize)
    requires
        distinct_ids(cs),
        is_thread_path(cs, p),
        (k as int) < cs.len(),
        replies_to(cs[k as int], cs[p.last() as int].id@),
    ensures
        is_thread_path(cs, p.push(k)),
{
    let q = p.push(k);
    assert forall|a: int, b: int| 0 <= a < q.len() && 0 <= b < q.len() && a != b implies q[a] != q[b] by {
        if a < p.len() && b < p.len() {
            assert(q[a] == p[a] && q[b] == p[b]);
        } else {
            let t = if a < p.len() {
                a
            } else {
                b
            };
            assert(q[t] == p[t]);
            if p[t] == k {
                if t == 0 {
                } else {
                    assert(replies_to(cs[p[(t - 1) + 1] as int], cs[p[t - 1] as int].id@));
                    assert(cs[p[t - 1] as int].id@ == cs[p.last() as int].id@);
                    assert(p[t - 1] == p[p.len() - 1]);
                }
            }
        }
    }
    assert forall|t: int| 0 <= t < q.len() - 1 implies replies_to(
        #[trigger] cs[q[t + 1] as int],
        cs[q[t] as int].id@,
    ) by {
        if t < p.len() - 1 {
            assert(q[t + 1] == p[t + 1]);
        }
    }
}

/// Below the last comment of a thread path, renderings at any two depth
/// bounds that leave room for the longest possible path agree.
proof fn lemma_depth_enough(
    cs: Seq<Comment>,
    f: RenderFn,
    p: Seq<usize>,
    ks: Seq<usize>,
    a: nat,
    b: nat,
)
    requires
        distinct_ids(cs),
        cs.len() <= usize::MAX,
        is_thread_path(cs, p),
        forall|t: int|
            0 <= t < ks.len() ==> (#[trigger] ks[t] as int) < cs.len() && replies_to(
                cs[ks[t] as int],
                cs[p.last() as int].id@,
            ),
        a + p.len() >= cs.len(),
        b + p.len() >= cs.len(),
    ensures
        render_list(cs, f, ks, a) == render_list(cs, f, ks, b),
    decreases cs.len() - p.len(), ks.len(),
{
    lemma_distinct_positions_bounded(p, cs.len());
    if ks.len() > 0 {
        lemma_depth_enough(cs, f, p, ks.drop_last(), a, b);
        let k = ks.last();
        lemma_extend_path(cs, p, k);
        let q = p.push(k);
        lemma_distinct_positions_bounded(q, cs.len());
        assert(a >= 1 && b >= 1);
        let kids = sort_by_contents(cs, replies(cs, k as int));
        lemma_sort_members(cs, replies(cs, k as int));
        lemma_replies_increasing(cs, cs[k as int].id@, cs.len());
        assert forall|t: int| 0 <= t < kids.len() implies (#[trigger] kids[t] as int) < cs.len()
            && replies_to(cs[kids[t] as int], cs[q.last() as int].id@) by {
            let w = choose|w: int|
                0 <= w < replies(cs, k as int).len() && replies(cs, k as int)[w] == kids[t];
            assert(replies(cs, k as int)[w] == kids[t]);
        }
        lemma_depth_enough(cs, f, q, kids, (a - 1) as nat, (b - 1) as nat);
        assert(render_node(cs, f, k, a) == render_node(cs, f, k, b));
        assert(ks =~= ks.drop_last().push(k));
    }
}

/// Rendering with depth bound `cs.len()` reaches every reply: with any larger
/// bound the rendered thread is the same. So `render_forest` is the full
/// rendering of each top-level comment with all the replies below it.
pub proof fn lemma_render_forest_complete(cs: Seq<Comment>, f: RenderFn, extra: nat)
    requires
        distinct_ids(cs),
        cs.len() <= usize::MAX,
    ensures
        concat_all(
            render_list(cs, f, sort_by_contents(cs, top_level(cs)), cs.len() + extra),
        ) == render_forest(cs, f),
{
    let roots = sort_by_contents(cs, top_level(cs));
    lemma_sort_members(cs, top_level(cs));
    lemma_top_level_increasing(cs, cs.len());
    lemma_roots_depth(cs, f, roots, extra);
}

proof fn lemma_roots_depth(cs: Seq<Comment>, f: RenderFn, roots: Seq<usize>, extra: nat)
    requires
        distinct_ids(cs),
        cs.len() <= usize::MAX,
        forall|t: int|
            0 <= t < roots.len() ==> (#[trigger] roots[t] as int) < cs.len()
                && cs[roots[t] as int].reply_to_id is None,
    ensures
        render_list(cs, f, roots, cs.len() + extra) == render_list(cs, f, roots, cs.len()),
    decreases roots.len(),
{
    if roots.len() > 0 {
        lemma_roots_depth(cs, f, roots.drop_last(), extra);
        let r = roots.last();
        let p = seq![r];
        assert(p.no_duplicates());
        assert(is_thread_path(cs, p));
        let kids = sort_by_contents(cs, replies(cs, r as int));
        lemma_sort_members(cs, replies(cs, r as int));
        lemma_replies_increasing(cs, cs[r as int].id@, cs.len());
        assert forall|t: int| 0 <= t < kids.len() implies (#[trigger] kids[t] as int) < cs.len()
            && replies_to(cs[kids[t] as int], cs[p.last() as int].id@) by {
            let w = choose|w: int|
                0 <= w < replies(cs, r as int).len() && replies(cs, r as int)[w] == kids[t];
            assert(replies(cs, r as int)[w] == kids[t]);
        }
        if cs.len() > 0 {
            lemma_depth_enough(
                cs,
                f,
                p,
                kids,
                (cs.len() + extra - 1) as nat,
                (cs.len() - 1) as nat,
            );
        }
        assert(render_node(cs, f, r, cs.len() + extra) == render_node(cs, f, r, cs.len() as nat));
    }
}

/// The text a comment is shown with: `<deleted>` for a deleted comment,
/// whatever it answers, and its own text otherwise.
pub proof fn lemma_shown_text(c: Comment)
    ensures
        c.is_deleted ==> shown_text(c) == "<deleted>"@,
        !c.is_deleted ==> shown_text(c) == c.contents@,
{
}

/// Each comment, at any depth bound that reaches it, is rendered by the
/// renderer from the placeholder author and date lines, the text `<deleted>`
/// if it is deleted (its own text otherwise), and the renderings of its
/// replies in their laid-out order; a renderer that may fail is called the
/// same way once every reply was rendered.
pub proof fn lemma_node_rendering<E>(cs: Seq<Comment>, f: RenderFn, g: RenderResultFn<E>, i: usize, fuel: nat)
    requires
        (i as int) < cs.len(),
        fuel > 0,
    ensures
        render_node(cs, f, i, fuel) == f(
            "TODO"@,
            "TODO"@,
            if cs[i as int].is_deleted {
                "<deleted>"@
            } else {
                cs[i as int].contents@
            },
            render_list(cs, f, sort_by_contents(cs, replies(cs, i as int)), (fuel - 1) as nat),
        ),
        replies_failure(cs, g, replies(cs, i as int), (fuel - 1) as nat) is None ==> node_result(
            cs,
            g,
            i,
            fuel,
        ) == g(
            "TODO"@,
            "TODO"@,
            if cs[i as int].is_deleted {
                "<deleted>"@
            } else {
                cs[i as int].contents@
            },
            ok_texts(cs, g, sort_by_contents(cs, replies(cs, i as int)), (fuel - 1) as nat),
        ),
{
}

/// The replies of comment `i` are exactly the comments whose `reply_to_id`
/// is that comment's id; they are laid out by text, equal texts in table
/// order, each once. The top-level comments are exactly those that answer
/// nothing, laid out the same way.
pub proof fn lemma_thread_layout(cs: Seq<Comment>, i: int)
    requires
        0 <= i < cs.len(),
        cs.len() <= usize::MAX,
    ensures
        forall|k: usize|
            replies(cs, i).contains(k) <==> ((k as int) < cs.len() && (cs[k as int].reply_to_id matches Some(
                r,
            ) && r@ == cs[i].id@)),
        forall|k: usize|
            top_level(cs).contains(k) <==> ((k as int) < cs.len() && cs[k as int].reply_to_id is None),
        ({
            let s = sort_by_contents(cs, replies(cs, i));
            &&& s.to_multiset() == replies(cs, i).to_multiset()
            &&& forall|a: int, b: int|
                0 <= a < b < s.len() ==> text_lt(
                    cs[s[a] as int].contents@,
                    cs[s[b] as int].contents@,
                ) || (cs[s[a] as int].contents@ == cs[s[b] as int].contents@ && s[a] < s[b])
        }),
        ({
            let s = sort_by_contents(cs, top_level(cs));
            &&& s.to_multiset() == top_level(cs).to_multiset()
            &&& forall|a: int, b: int|
                0 <= a < b < s.len() ==> text_lt(
                    cs[s[a] as int].contents@,
                    cs[s[b] as int].contents@,
                ) || (cs[s[a] as int].contents@ == cs[s[b] as int].contents@ && s[a] < s[b])
        }),
{
    lemma_thread_order(cs, i);
    lemma_replies_increasing(cs, cs[i].id@, cs.len());
    lemma_top_level_increasing(cs, cs.len());
    assert forall|k: usize|
        replies(cs, i).contains(k) <==> ((k as int) < cs.len() && (cs[k as int].reply_to_id matches Some(
            r,
        ) && r@ == cs[i].id@)) by {
        if replies(cs, i).contains(k) {
            let w = choose|w: int| 0 <= w < replies(cs, i).len() && replies(cs, i)[w] == k;
            assert(replies_among(cs, cs[i].id@, cs.len())[w] == k);
        }
        if (k as int) < cs.len() && replies_to(cs[k as int], cs[i].id@) {
            lemma_replies_complete(cs, cs[i].id@, cs.len(), k as int);
        }
    }
    assert forall|k: usize|
        top_level(cs).contains(k) <==> ((k as int) < cs.len() && cs[k as int].reply_to_id is None) by {
        if top_level(cs).contains(k) {
            let w = choose|w: int| 0 <= w < top_level(cs).len() && top_level(cs)[w] == k;
            assert(top_level_among(cs, cs.len())[w] == k);
        }
        if (k as int) < cs.len() && cs[k as int].reply_to_id is None {
            lemma_top_level_complete(cs, cs.len(), k as int);
        }
    }
    let s = sort_by_contents(cs, replies(cs, i));
    assert forall|a: int, b: int| 0 <= a < b < s.len() implies text_lt(
        cs[s[a] as int].contents@,
        cs[s[b] as int].contents@,
    ) || (cs[s[a] as int].contents@ == cs[s[b] as int].contents@ && s[a] < s[b]) by {
        assert(before_in_order(cs, s[a], s[b]));
    }
    let t = sort_by_contents(cs, top_level(cs));
    assert forall|a: int, b: int| 0 <= a < b < t.len() implies text_lt(
        cs[t[a] as int].contents@,
        cs[t[b] as int].contents@,
    ) || (cs[t[a] as int].contents@ == cs[t[b] as int].contents@ && t[a] < t[b]) by {
        assert(before_in_order(cs, t[a], t[b]));
    }
}

} // verus!
