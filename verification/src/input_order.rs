//! The rendered thread does not depend on the order in which the comments
//! are handed over, when no two comments have the same text.

use vstd::prelude::*;
use crate::model::Comment;
use crate::text::{text_lt, lemma_text_lt_irreflexive, lemma_text_lt_asymmetric};
use crate::render::{
    RenderFn, replies_to, replies_among, replies, top_level_among, top_level, sort_by_contents,
    render_node, render_list, render_forest, lemma_sort_members,
};
use crate::render_laws::{
    before_in_order, lemma_thread_order, lemma_replies_increasing, lemma_top_level_increasing,
    lemma_sort_in_order, lemma_sort_permutes,
};

verus! {

/// No two comments have the same text.
pub open spec fn distinct_texts(cs: Seq<Comment>) -> bool {
    forall|i: int, j: int|
        0 <= i < cs.len() && 0 <= j < cs.len() && i != j ==> cs[i].contents@ != cs[j].contents@
}

/// Each comment's text comes strictly before the texts of the later ones.
spec fn text_sorted(s: Seq<Comment>) -> bool {
    forall|i: int, j: int| 0 <= i < j < s.len() ==> text_lt(s[i].contents@, s[j].contents@)
}

/// The comments at the positions `ks`.
spec fn at(cs: Seq<Comment>, ks: Seq<usize>) -> Seq<Comment> {
    ks.map_values(|k: usize| cs[k as int])
}

/// Two text-sorted sequences with the same elements are the same.
proof fn lemma_sorted_unique(a: Seq<Comment>, b: Seq<Comment>)
    requires
        text_sorted(a),
        text_sorted(b),
        forall|x: Comment| a.contains(x) <==> b.contains(x),
    ensures
        a == b,
    decreases a.len(),
{
    if a.len() == 0 {
        if b.len() > 0 {
            assert(b.contains(b[0]));
        }
        assert(a =~= b);
    } else {
        assert(a.contains(a[0]));
        let j = choose|j: int| 0 <= j < b.len() && b[j] == a[0];
        assert(b.contains(b[0]));
        let i = choose|i: int| 0 <= i < a.len() && a[i] == b[0];
        if j > 0 {
            if i > 0 {
                assert(text_lt(a[0].contents@, a[i].contents@));
                assert(text_lt(b[0].contents@, b[j].contents@));
                lemma_text_lt_asymmetric(a[0].contents@, a[i].contents@);
            } else {
                assert(text_lt(b[0].contents@, b[j].contents@));
                lemma_text_lt_irreflexive(b[0].contents@);
            }
        }
        assert(a[0] == b[0]);
        let ta = a.drop_first();
        let tb = b.drop_first();
        assert forall|x: Comment| ta.contains(x) <==> tb.contains(x) by {
            if ta.contains(x) {
                let k = choose|k: int| 0 <= k < ta.len() && ta[k] == x;
                assert(a[k + 1] == x);
                assert(a.contains(x));
                let m = choose|m: int| 0 <= m < b.len() && b[m] == x;
                if m == 0 {
                    assert(text_lt(a[0].contents@, a[k + 1].contents@));
                    lemma_text_lt_irreflexive(x.contents@);
                }
                assert(tb[m - 1] == x);
            }
            if tb.contains(x) {
                let k = choose|k: int| 0 <= k < tb.len() && tb[k] == x;
                assert(b[k + 1] == x);
                assert(b.contains(x));
                let m = choose|m: int| 0 <= m < a.len() && a[m] == x;
                if m == 0 {
                    assert(text_lt(b[0].contents@, b[k + 1].contents@));
                    lemma_text_lt_irreflexive(x.contents@);
                }
                assert(ta[m - 1] == x);
            }
        }
        lemma_sorted_unique(ta, tb);
        assert(a =~= seq![a[0]] + ta);
        assert(b =~= seq![b[0]] + tb);
    }
}

/// Every comment among the first `m` that answers `parent_id` is listed.
pub(crate) proof fn lemma_replies_complete(cs: Seq<Comment>, parent_id: Seq<char>, m: nat, x: int)
    requires
        m <= cs.len(),
        cs.len() <= usize::MAX,
        0 <= x < m,
        replies_to(cs[x], parent_id),
    ensures
        replies_among(cs, parent_id, m).contains(x as usize),
    decreases m,
{
    let r = replies_among(cs, parent_id, m);
    if x == m - 1 {
        assert(r[r.len() - 1] == (m - 1) as usize);
    } else {
        lemma_replies_complete(cs, parent_id, (m - 1) as nat, x);
        let rest = replies_among(cs, parent_id, (m - 1) as nat);
        let k = choose|k: int| 0 <= k < rest.len() && rest[k] == x as usize;
        if replies_to(cs[m - 1], parent_id) {
            assert(r[k] == rest[k]);
        }
    }
}

/// Every comment among the first `m` that answers nothing is listed.
pub(crate) proof fn lemma_top_level_complete(cs: Seq<Comment>, m: nat, x: int)
    requires
        m <= cs.len(),
        cs.len() <= usize::MAX,
        0 <= x < m,
        cs[x].reply_to_id is None,
    ensures
        top_level_among(cs, m).contains(x as usize),
    decreases m,
{
    let r = top_level_among(cs, m);
    if x == m - 1 {
        assert(r[r.len() - 1] == (m - 1) as usize);
    } else {
        lemma_top_level_complete(cs, (m - 1) as nat, x);
        let rest = top_level_among(cs, (m - 1) as nat);
        let k = choose|k: int| 0 <= k < rest.len() && rest[k] == x as usize;
        if cs[m - 1].reply_to_id is None {
            assert(r[k] == rest[k]);
        }
    }
}

/// The replies to comment `i` as they are laid out: in strict order of
/// their text, and exactly the comments that answer comment `i`.
proof fn lemma_replies_view(cs: Seq<Comment>, i: int)
    requires
        0 <= i < cs.len(),
        cs.len() <= usize::MAX,
        distinct_texts(cs),
    ensures
        text_sorted(at(cs, sort_by_contents(cs, replies(cs, i)))),
        forall|x: Comment|
            at(cs, sort_by_contents(cs, replies(cs, i))).contains(x) <==> (cs.contains(x)
                && replies_to(x, cs[i].id@)),
        forall|t: int|
            0 <= t < sort_by_contents(cs, replies(cs, i)).len() ==> (#[trigger] sort_by_contents(
                cs,
                replies(cs, i),
            )[t] as int) < cs.len(),
{
    broadcast use vstd::seq_lib::group_to_multiset_ensures;

    let r = replies(cs, i);
    let s = sort_by_contents(cs, r);
    let v = at(cs, s);
    lemma_thread_order(cs, i);
    lemma_sort_members(cs, r);
    lemma_replies_increasing(cs, cs[i].id@, cs.len());
    assert forall|t: int| 0 <= t < s.len() implies (#[trigger] s[t] as int) < cs.len() && replies_to(
        cs[s[t] as int],
        cs[i].id@,
    ) by {
        assert(r.contains(s[t]));
        let w = choose|w: int| 0 <= w < r.len() && r[w] == s[t];
        assert(r[w] == s[t]);
    }
    assert forall|a: int, b: int| 0 <= a < b < v.len() implies text_lt(
        v[a].contents@,
        v[b].contents@,
    ) by {
        assert(before_in_order(cs, s[a], s[b]));
        assert(s[a] < cs.len() && s[b] < cs.len());
    }
    assert forall|x: Comment| v.contains(x) <==> (cs.contains(x) && replies_to(x, cs[i].id@)) by {
        if v.contains(x) {
            let t = choose|t: int| 0 <= t < v.len() && v[t] == x;
            assert(s[t] < cs.len());
            assert(cs[s[t] as int] == x);
        }
        if cs.contains(x) && replies_to(x, cs[i].id@) {
            let k = choose|k: int| 0 <= k < cs.len() && cs[k] == x;
            lemma_replies_complete(cs, cs[i].id@, cs.len(), k);
            assert(r.to_multiset().count(k as usize) > 0);
            assert(s.contains(k as usize));
            let t = choose|t: int| 0 <= t < s.len() && s[t] == k as usize;
            assert(v[t] == x);
        }
    }
}

/// The top-level comments as they are laid out: in strict order of their
/// text, and exactly the comments that answer nothing.
proof fn lemma_roots_view(cs: Seq<Comment>)
    requires
        cs.len() <= usize::MAX,
        distinct_texts(cs),
    ensures
        text_sorted(at(cs, sort_by_contents(cs, top_level(cs)))),
        forall|x: Comment|
            at(cs, sort_by_contents(cs, top_level(cs))).contains(x) <==> (cs.contains(x)
                && x.reply_to_id is None),
        forall|t: int|
            0 <= t < sort_by_contents(cs, top_level(cs)).len() ==> (#[trigger] sort_by_contents(
                cs,
                top_level(cs),
            )[t] as int) < cs.len(),
{
    broadcast use vstd::seq_lib::group_to_multiset_ensures;

    let r = top_level(cs);
    let s = sort_by_contents(cs, r);
    let v = at(cs, s);
    lemma_sort_members(cs, r);
    lemma_top_level_increasing(cs, cs.len());
    lemma_sort_in_order(cs, r);
    lemma_sort_permutes(cs, r);
    assert forall|t: int| 0 <= t < s.len() implies (#[trigger] s[t] as int) < cs.len()
        && cs[s[t] as int].reply_to_id is None by {
        assert(r.contains(s[t]));
        let w = choose|w: int| 0 <= w < r.len() && r[w] == s[t];
        assert(r[w] == s[t]);
    }
    assert forall|a: int, b: int| 0 <= a < b < v.len() implies text_lt(
        v[a].contents@,
        v[b].contents@,
    ) by {
        assert(before_in_order(cs, s[a], s[b]));
        assert(s[a] < cs.len() && s[b] < cs.len());
    }
    assert forall|x: Comment| v.contains(x) <==> (cs.contains(x) && x.reply_to_id is None) by {
        if v.contains(x) {
            let t = choose|t: int| 0 <= t < v.len() && v[t] == x;
            assert(s[t] < cs.len());
            assert(cs[s[t] as int] == x);
        }
        if cs.contains(x) && x.reply_to_id is None {
            let k = choose|k: int| 0 <= k < cs.len() && cs[k] == x;
            lemma_top_level_complete(cs, cs.len(), k);
            assert(r.to_multiset().count(k as usize) > 0);
            assert(s.contains(k as usize));
            let t = choose|t: int| 0 <= t < s.len() && s[t] == k as usize;
            assert(v[t] == x);
        }
    }
}

/// Two listings of the same comments, no two with the same text.
spec fn same_comments(cs: Seq<Comment>, ps: Seq<Comment>) -> bool {
    &&& forall|x: Comment| cs.contains(x) <==> ps.contains(x)
    &&& distinct_texts(cs)
    &&& distinct_texts(ps)
    &&& cs.len() <= usize::MAX
    &&& ps.len() <= usize::MAX
}

/// A comment renders the same, at any depth bound, in either listing.
spec fn same_nodes(cs: Seq<Comment>, ps: Seq<Comment>, f: RenderFn, fuel: nat) -> bool {
    forall|i: usize, j: usize|
        #![trigger render_node(cs, f, i, fuel), render_node(ps, f, j, fuel)]
        (i as int) < cs.len() && (j as int) < ps.len() && cs[i as int] == ps[j as int]
            ==> render_node(cs, f, i, fuel) == render_node(ps, f, j, fuel)
}

/// Lists of positions that pick the same comments render the same.
proof fn lemma_same_list(
    cs: Seq<Comment>,
    ps: Seq<Comment>,
    f: RenderFn,
    a: Seq<usize>,
    b: Seq<usize>,
    fuel: nat,
)
    requires
        same_nodes(cs, ps, f, fuel),
        forall|t: int| 0 <= t < a.len() ==> (#[trigger] a[t] as int) < cs.len(),
        forall|t: int| 0 <= t < b.len() ==> (#[trigger] b[t] as int) < ps.len(),
        at(cs, a) == at(ps, b),
    ensures
        render_list(cs, f, a, fuel) == render_list(ps, f, b, fuel),
    decreases a.len(),
{
    assert(at(cs, a).len() == a.len() && at(ps, b).len() == b.len());
    if a.len() > 0 {
        let a1 = a.drop_last();
        let b1 = b.drop_last();
        assert(at(cs, a1) =~= at(cs, a).drop_last());
        assert(at(ps, b1) =~= at(ps, b).drop_last());
        lemma_same_list(cs, ps, f, a1, b1, fuel);
        assert(at(cs, a)[a.len() - 1] == at(ps, b)[b.len() - 1]);
        assert(cs[a.last() as int] == ps[b.last() as int]);
        assert(render_node(cs, f, a.last(), fuel) == render_node(ps, f, b.last(), fuel));
    }
}

/// In two listings of the same comments, a comment renders the same at
/// every depth bound.
proof fn lemma_same_node(cs: Seq<Comment>, ps: Seq<Comment>, f: RenderFn, fuel: nat)
    requires
        same_comments(cs, ps),
    ensures
        same_nodes(cs, ps, f, fuel),
    decreases fuel,
{
    if fuel > 0 {
        lemma_same_node(cs, ps, f, (fuel - 1) as nat);
        assert forall|i: usize, j: usize|
            (i as int) < cs.len() && (j as int) < ps.len() && cs[i as int] == ps[j as int] implies
            #[trigger] render_node(cs, f, i, fuel) == #[trigger] render_node(ps, f, j, fuel) by {
            lemma_replies_view(cs, i as int);
            lemma_replies_view(ps, j as int);
            let a = sort_by_contents(cs, replies(cs, i as int));
            let b = sort_by_contents(ps, replies(ps, j as int));
            assert forall|x: Comment| at(cs, a).contains(x) <==> at(ps, b).contains(x) by {
                assert(at(cs, a).contains(x) <==> (cs.contains(x) && replies_to(x, cs[i as int].id@)));
                assert(at(ps, b).contains(x) <==> (ps.contains(x) && replies_to(x, ps[j as int].id@)));
            }
            lemma_sorted_unique(at(cs, a), at(ps, b));
            lemma_same_list(cs, ps, f, a, b, (fuel - 1) as nat);
        }
    }
}

/// When no two comments have the same text, the rendered thread does not
/// depend on the order in which the comments are handed over: any
/// rearrangement of them renders the same.
pub proof fn lemma_thread_ignores_input_order(cs: Seq<Comment>, ps: Seq<Comment>, f: RenderFn)
    requires
        distinct_texts(cs),
        cs.len() <= usize::MAX,
        ps.to_multiset() == cs.to_multiset(),
    ensures
        render_forest(ps, f) == render_forest(cs, f),
{
    broadcast use vstd::seq_lib::group_to_multiset_ensures;

    assert(cs.len() == cs.to_multiset().len());
    assert(ps.len() == ps.to_multiset().len());
    assert forall|x: Comment| cs.contains(x) <==> ps.contains(x) by {
        assert(cs.contains(x) <==> cs.to_multiset().count(x) > 0);
        assert(ps.contains(x) <==> ps.to_multiset().count(x) > 0);
    }
    assert(cs.no_duplicates());
    cs.lemma_multiset_has_no_duplicates();
    ps.lemma_multiset_has_no_duplicates_conv();
    assert forall|i: int, j: int|
        0 <= i < ps.len() && 0 <= j < ps.len() && i != j implies ps[i].contents@
        != ps[j].contents@ by {
        assert(ps[i] != ps[j]);
        assert(ps.contains(ps[i]) && ps.contains(ps[j]));
        let a = choose|a: int| 0 <= a < cs.len() && cs[a] == ps[i];
        let b = choose|b: int| 0 <= b < cs.len() && cs[b] == ps[j];
        assert(a != b);
    }
    assert(same_comments(cs, ps));
    lemma_same_node(cs, ps, f, cs.len());
    lemma_roots_view(cs);
    lemma_roots_view(ps);
    let a = sort_by_contents(cs, top_level(cs));
    let b = sort_by_contents(ps, top_level(ps));
    assert forall|x: Comment| at(cs, a).contains(x) <==> at(ps, b).contains(x) by {
        assert(at(cs, a).contains(x) <==> (cs.contains(x) && x.reply_to_id is None));
        assert(at(ps, b).contains(x) <==> (ps.contains(x) && x.reply_to_id is None));
    }
    lemma_sorted_unique(at(cs, a), at(ps, b));
    lemma_same_list(cs, ps, f, a, b, cs.len());
}

} // verus!
