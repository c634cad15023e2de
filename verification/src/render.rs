//! Layout of a comment thread: top-level comments in order of their text,
//! each one rendered around its replies, which are ordered the same way.

use vstd::prelude::*;
use crate::model::Comment;
use crate::text::{text_lt, str_lt};

verus! {

/// What a renderer of a single comment computes, as a function of the author
/// line, the date line, the text shown and the already rendered replies.
pub type RenderFn = spec_fn(Seq<char>, Seq<char>, Seq<char>, Seq<Seq<char>>) -> Seq<char>;

/// The text shown in place of a deleted comment.
pub open spec fn deleted_text() -> Seq<char> {
    "<deleted>"@
}

/// The author and date lines handed to the renderer (not filled in yet).
pub open spec fn placeholder_text() -> Seq<char> {
    "TODO"@
}

/// The text shown for a comment.
pub open spec fn shown_text(c: Comment) -> Seq<char> {
    if c.is_deleted {
        deleted_text()
    } else {
        c.contents@
    }
}

/// `c` answers the comment whose id is `parent_id`.
pub open spec fn replies_to(c: Comment, parent_id: Seq<char>) -> bool {
    c.reply_to_id matches Some(r) && r@ == parent_id
}

/// No two comments share an id.
pub open spec fn distinct_ids(cs: Seq<Comment>) -> bool {
    forall|i: int, j: int| 0 <= i < cs.len() && 0 <= j < cs.len() && i != j ==> cs[i].id@ != cs[j].id@
}

/// Positions, among the first `m` comments and in their order, of the
/// comments that answer `parent_id`.
pub open spec fn replies_among(cs: Seq<Comment>, parent_id: Seq<char>, m: nat) -> Seq<usize>
    decreases m,
{
    if m == 0 {
        Seq::empty()
    } else {
        let rest = replies_among(cs, parent_id, (m - 1) as nat);
        if replies_to(cs[m - 1], parent_id) {
            rest.push((m - 1) as usize)
        } else {
            rest
        }
    }
}

/// Positions of the replies to comment `i`, in input order.
pub open spec fn replies(cs: Seq<Comment>, i: int) -> Seq<usize> {
    replies_among(cs, cs[i].id@, cs.len())
}

/// Positions, among the first `m` comments, of those that answer nothing.
pub open spec fn top_level_among(cs: Seq<Comment>, m: nat) -> Seq<usize>
    decreases m,
{
    if m == 0 {
        Seq::empty()
    } else {
        let rest = top_level_among(cs, (m - 1) as nat);
        if cs[m - 1].reply_to_id is None {
            rest.push((m - 1) as usize)
        } else {
            rest
        }
    }
}

/// Positions of the top-level comments, in input order.
pub open spec fn top_level(cs: Seq<Comment>) -> Seq<usize> {
    top_level_among(cs, cs.len())
}

/// The text by which comment positions are ordered.
pub open spec fn key(cs: Seq<Comment>, x: usize) -> Seq<char> {
    cs[x as int].contents@
}

/// Inserts `x` into `s` just before the first element whose text comes
/// strictly after the text of `x`.
pub open spec fn insert_by_contents(cs: Seq<Comment>, x: usize, s: Seq<usize>) -> Seq<usize>
    decreases s.len(),
{
    if s.len() == 0 {
        seq![x]
    } else if text_lt(key(cs, x), key(cs, s[0])) {
        seq![x] + s
    } else {
        seq![s[0]] + insert_by_contents(cs, x, s.drop_first())
    }
}

/// Stable sort of comment positions by the comments' texts.
pub open spec fn sort_by_contents(cs: Seq<Comment>, s: Seq<usize>) -> Seq<usize>
    decreases s.len(),
{
    if s.len() == 0 {
        s
    } else {
        insert_by_contents(cs, s.last(), sort_by_contents(cs, s.drop_last()))
    }
}

/// Comment `i` rendered around its replies, which are ordered by text;
/// `fuel` bounds the depth.
pub open spec fn render_node(cs: Seq<Comment>, f: RenderFn, i: usize, fuel: nat) -> Seq<char>
    decreases fuel, 0nat,
{
    if fuel == 0 {
        Seq::empty()
    } else {
        f(
            placeholder_text(),
            placeholder_text(),
            shown_text(cs[i as int]),
            render_list(cs, f, sort_by_contents(cs, replies(cs, i as int)), (fuel - 1) as nat),
        )
    }
}

/// The renderings of the comments at positions `ks`, in that order.
pub open spec fn render_list(cs: Seq<Comment>, f: RenderFn, ks: Seq<usize>, fuel: nat) -> Seq<
    Seq<char>,
>
    decreases fuel, ks.len(),
{
    if ks.len() == 0 {
        Seq::empty()
    } else {
        render_list(cs, f, ks.drop_last(), fuel).push(render_node(cs, f, ks.last(), fuel))
    }
}

/// The texts one after another.
pub open spec fn concat_all(parts: Seq<Seq<char>>) -> Seq<char>
    decreases parts.len(),
{
    if parts.len() == 0 {
        Seq::empty()
    } else {
        concat_all(parts.drop_last()) + parts.last()
    }
}

/// The whole thread: the top-level comments, ordered by text, each rendered
/// around its replies, one after another.
pub open spec fn render_forest(cs: Seq<Comment>, f: RenderFn) -> Seq<char> {
    concat_all(render_list(cs, f, sort_by_contents(cs, top_level(cs)), cs.len()))
}

/// What a renderer that may fail computes, as a function of its arguments.
pub type RenderResultFn<E> = spec_fn(Seq<char>, Seq<char>, Seq<char>, Seq<Seq<char>>) -> Result<
    Seq<char>,
    E,
>;

/// The text of a successful rendering (empty for a failed one).
pub open spec fn ok_text<E>(r: Result<Seq<char>, E>) -> Seq<char> {
    match r {
        Ok(s) => s,
        Err(_) => Seq::empty(),
    }
}

/// Comment `i` rendered around its replies by a renderer that may fail,
/// `fuel` bounding the depth. The replies are rendered first, last reply
/// first, each with everything below it; the first failure met is the
/// result. Otherwise the comment itself is rendered around the replies'
/// renderings, ordered by text.
pub open spec fn node_result<E>(cs: Seq<Comment>, g: RenderResultFn<E>, i: usize, fuel: nat) -> Result<
    Seq<char>,
    E,
>
    decreases fuel, 0nat,
{
    if fuel == 0 {
        Ok(Seq::empty())
    } else {
        match replies_failure(cs, g, replies(cs, i as int), (fuel - 1) as nat) {
            Some(e) => Err(e),
            None => g(
                placeholder_text(),
                placeholder_text(),
                shown_text(cs[i as int]),
                ok_texts(cs, g, sort_by_contents(cs, replies(cs, i as int)), (fuel - 1) as nat),
            ),
        }
    }
}

/// The first failure met when the comments at positions `ks` are rendered
/// from the last to the first, if there is one.
pub open spec fn replies_failure<E>(cs: Seq<Comment>, g: RenderResultFn<E>, ks: Seq<usize>, fuel: nat) -> Option<
    E,
>
    decreases fuel, ks.len(),
{
    if ks.len() == 0 {
        None
    } else {
        match node_result(cs, g, ks.last(), fuel) {
            Err(e) => Some(e),
            Ok(_) => replies_failure(cs, g, ks.drop_last(), fuel),
        }
    }
}

/// The texts of the successful renderings of the comments at positions `ks`.
pub open spec fn ok_texts<E>(cs: Seq<Comment>, g: RenderResultFn<E>, ks: Seq<usize>, fuel: nat) -> Seq<
    Seq<char>,
>
    decreases fuel, ks.len(),
{
    if ks.len() == 0 {
        Seq::empty()
    } else {
        ok_texts(cs, g, ks.drop_last(), fuel).push(ok_text(node_result(cs, g, ks.last(), fuel)))
    }
}

/// The comments at positions `ks` rendered one after another, in that
/// order; the first failure met is the result.
pub open spec fn list_result<E>(cs: Seq<Comment>, g: RenderResultFn<E>, ks: Seq<usize>, fuel: nat) -> Result<
    Seq<char>,
    E,
>
    decreases ks.len(),
{
    if ks.len() == 0 {
        Ok(Seq::empty())
    } else {
        match list_result(cs, g, ks.drop_last(), fuel) {
            Err(e) => Err(e),
            Ok(s) => match node_result(cs, g, ks.last(), fuel) {
                Err(e) => Err(e),
                Ok(p) => Ok(s + p),
            },
        }
    }
}

/// The whole thread as rendered by a renderer that may fail: the top-level
/// comments ordered by text, each with everything below it, the first
/// failure met being the result.
pub open spec fn render_forest_result<E>(cs: Seq<Comment>, g: RenderResultFn<E>) -> Result<Seq<char>, E> {
    list_result(cs, g, sort_by_contents(cs, top_level(cs)), cs.len())
}

/// A rendering as text.
pub open spec fn result_view<E>(r: Result<String, E>) -> Result<Seq<char>, E> {
    match r {
        Ok(s) => Ok(s@),
        Err(e) => Err(e),
    }
}

/// Every call of the renderer gives what `g` gives on its arguments.
pub open spec fn renders_result_as<F, E>(renderer: F, g: RenderResultFn<E>) -> bool where
    F: Fn(&str, &str, &str, Vec<String>) -> Result<String, E>,
 {
    forall|a: &str, b: &str, c: &str, d: Vec<String>, r: Result<String, E>|
        #[trigger] renderer.ensures((a, b, c, d), r) ==> result_view(r) == g(
            a@,
            b@,
            c@,
            d@.map_values(|x: String| x@),
        )
}

/// The renderer returns `Ok` on every call, with the text that `f` gives.
pub open spec fn renders_as<F, E>(renderer: F, f: RenderFn) -> bool where
    F: Fn(&str, &str, &str, Vec<String>) -> Result<String, E>,
 {
    forall|a: &str, b: &str, c: &str, d: Vec<String>, r: Result<String, E>|
        #[trigger] renderer.ensures((a, b, c, d), r) ==> (r matches Ok(s) && s@ == f(
            a@,
            b@,
            c@,
            d@.map_values(|x: String| x@),
        ))
}

/// The renderer can fail with `e`.
pub open spec fn can_fail_with<F, E>(renderer: F, e: E) -> bool where
    F: Fn(&str, &str, &str, Vec<String>) -> Result<String, E>,
 {
    exists|a: &str, b: &str, c: &str, d: Vec<String>| #[trigger] renderer.ensures((a, b, c, d), Err(e))
}

/// The renderer may be called with any arguments.
pub open spec fn accepts_all<F, E>(renderer: F) -> bool where
    F: Fn(&str, &str, &str, Vec<String>) -> Result<String, E>,
 {
    forall|a: &str, b: &str, c: &str, d: Vec<String>| #[trigger] renderer.requires((a, b, c, d))
}

/// Whether no two comments share an id (as the table's key guarantees for
/// comments read from storage).
pub fn ids_are_distinct(cs: &Vec<Comment>) -> (r: bool)
    ensures
        r == distinct_ids(cs@),
{
    let mut i: usize = 0;
    while i < cs.len()
        invariant
            i <= cs.len(),
            forall|a: int, b: int| 0 <= a < i && 0 <= b < cs.len() && a != b ==> cs@[a].id@ != cs@[b].id@,
        decreases cs.len() - i,
    {
        let mut j: usize = 0;
        while j < cs.len()
            invariant
                i < cs.len(),
                j <= cs.len(),
                forall|a: int, b: int|
                    0 <= a < i && 0 <= b < cs.len() && a != b ==> cs@[a].id@ != cs@[b].id@,
                forall|b: int| 0 <= b < j && b != i ==> cs@[i as int].id@ != cs@[b].id@,
            decreases cs.len() - j,
        {
            if j != i && cs[i].id == cs[j].id {
                return false;
            }
            j += 1;
        }
        i += 1;
    }
    true
}

/// Positions of the replies to comment `i`, in input order.
fn replies_of(cs: &Vec<Comment>, i: usize) -> (r: Vec<usize>)
    requires
        i < cs.len(),
    ensures
        r@ == replies(cs@, i as int),
        forall|k: int| 0 <= k < r.len() ==> r@[k] < cs.len(),
{
    let mut r: Vec<usize> = Vec::new();
    let mut m: usize = 0;
    while m < cs.len()
        invariant
            m <= cs.len(),
            i < cs.len(),
            r@ == replies_among(cs@, cs@[i as int].id@, m as nat),
            forall|k: int| 0 <= k < r.len() ==> r@[k] < m,
        decreases cs.len() - m,
    {
        let is_reply = match &cs[m].reply_to_id {
            Some(p) => *p == cs[i].id,
            None => false,
        };
        if is_reply {
            r.push(m);
        }
        m += 1;
    }
    r
}

/// Positions of the top-level comments, in input order.
fn top_level_of(cs: &Vec<Comment>) -> (r: Vec<usize>)
    ensures
        r@ == top_level(cs@),
        forall|k: int| 0 <= k < r.len() ==> r@[k] < cs.len(),
{
    let mut r: Vec<usize> = Vec::new();
    let mut m: usize = 0;
    while m < cs.len()
        invariant
            m <= cs.len(),
            r@ == top_level_among(cs@, m as nat),
            forall|k: int| 0 <= k < r.len() ==> r@[k] < m,
        decreases cs.len() - m,
    {
        if cs[m].reply_to_id.is_none() {
            r.push(m);
        }
        m += 1;
    }
    r
}

/// Inserting `x` at the first position whose text comes after that of `x`
/// is what `insert_by_contents` describes.
proof fn lemma_insert_at(cs: Seq<Comment>, x: usize, s: Seq<usize>, p: int)
    requires
        0 <= p <= s.len(),
        forall|q: int| 0 <= q < p ==> !text_lt(key(cs, x), #[trigger] key(cs, s[q])),
        p < s.len() ==> text_lt(key(cs, x), key(cs, s[p])),
    ensures
        insert_by_contents(cs, x, s) == s.take(p) + seq![x] + s.skip(p),
    decreases s.len(),
{
    if s.len() == 0 {
        assert(s.take(p) + seq![x] + s.skip(p) =~= seq![x]);
    } else if p == 0 {
        assert(s.take(p) + seq![x] + s.skip(p) =~= seq![x] + s);
    } else {
        let t = s.drop_first();
        assert forall|q: int| 0 <= q < p - 1 implies !text_lt(key(cs, x), #[trigger] key(cs, t[q])) by {
            assert(t[q] == s[q + 1]);
        }
        assert(!text_lt(key(cs, x), key(cs, s[0])));
        lemma_insert_at(cs, x, t, p - 1);
        assert(s.take(p) + seq![x] + s.skip(p) =~= seq![s[0]] + (t.take(p - 1) + seq![x] + t.skip(p - 1)));
    }
}

/// Every element of `insert_by_contents(cs, x, s)` is `x` or an element of `s`.
pub proof fn lemma_insert_members(cs: Seq<Comment>, x: usize, s: Seq<usize>)
    ensures
        forall|k: int| 0 <= k < insert_by_contents(cs, x, s).len() ==>
            #[trigger] insert_by_contents(cs, x, s)[k] == x || s.contains(insert_by_contents(cs, x, s)[k]),
        insert_by_contents(cs, x, s).len() == s.len() + 1,
    decreases s.len(),
{
    if s.len() > 0 && !text_lt(key(cs, x), key(cs, s[0])) {
        let t = s.drop_first();
        lemma_insert_members(cs, x, t);
        let r = insert_by_contents(cs, x, s);
        assert forall|k: int| 0 <= k < r.len() implies #[trigger] r[k] == x || s.contains(r[k]) by {
            if k > 0 {
                let rt = insert_by_contents(cs, x, t);
                assert(r[k] == rt[k - 1]);
                if rt[k - 1] != x {
                    let w = choose|w: int| 0 <= w < t.len() && t[w] == rt[k - 1];
                    assert(s[w + 1] == t[w]);
                }
            } else {
                assert(s[0] == r[0]);
            }
        }
    } else if s.len() > 0 {
        let r = insert_by_contents(cs, x, s);
        assert forall|k: int| 0 <= k < r.len() implies #[trigger] r[k] == x || s.contains(r[k]) by {
            if k > 0 {
                assert(r[k] == s[k - 1]);
            }
        }
    }
}

/// Every element of the sorted sequence comes from the input, and the length
/// is kept.
pub proof fn lemma_sort_members(cs: Seq<Comment>, s: Seq<usize>)
    ensures
        sort_by_contents(cs, s).len() == s.len(),
        forall|k: int| 0 <= k < s.len() ==> s.contains(#[trigger] sort_by_contents(cs, s)[k]),
    decreases s.len(),
{
    if s.len() > 0 {
        let prefix = s.drop_last();
        lemma_sort_members(cs, prefix);
        let sorted = sort_by_contents(cs, prefix);
        lemma_insert_members(cs, s.last(), sorted);
        let r = sort_by_contents(cs, s);
        assert forall|k: int| 0 <= k < s.len() implies s.contains(#[trigger] r[k]) by {
            if r[k] == s.last() {
                assert(s[s.len() - 1] == r[k]);
            } else {
                let w = choose|w: int| 0 <= w < sorted.len() && sorted[w] == r[k];
                assert(prefix.contains(sorted[w]));
                let v = choose|v: int| 0 <= v < prefix.len() && prefix[v] == sorted[w];
                assert(s[v] == prefix[v]);
            }
        }
    }
}

/// Stable sort of comment positions by the comments' texts.
fn sort_by_contents_exec(cs: &Vec<Comment>, s: &Vec<usize>) -> (r: Vec<usize>)
    requires
        forall|k: int| 0 <= k < s.len() ==> s@[k] < cs.len(),
    ensures
        r@ == sort_by_contents(cs@, s@),
        forall|k: int| 0 <= k < r.len() ==> r@[k] < cs.len(),
{
    let mut r: Vec<usize> = Vec::new();
    let mut i: usize = 0;
    assert(s@.take(0) =~= Seq::<usize>::empty());
    while i < s.len()
        invariant
            i <= s.len(),
            forall|k: int| 0 <= k < s.len() ==> s@[k] < cs.len(),
            r@ == sort_by_contents(cs@, s@.take(i as int)),
            forall|k: int| 0 <= k < r.len() ==> r@[k] < cs.len(),
        decreases s.len() - i,
    {
        let x = s[i];
        let mut p: usize = 0;
        let mut found = false;
        while p < r.len() && !found
            invariant
                p <= r.len(),
                x < cs.len(),
                forall|k: int| 0 <= k < r.len() ==> r@[k] < cs.len(),
                forall|q: int| 0 <= q < p ==> !text_lt(key(cs@, x), #[trigger] key(cs@, r@[q])),
                found ==> p < r.len() && text_lt(key(cs@, x), key(cs@, r@[p as int])),
            decreases r.len() - p + (if found { 0int } else { 1int }),
        {
            if str_lt(cs[x].contents.as_str(), cs[r[p]].contents.as_str()) {
                found = true;
            } else {
                p += 1;
            }
        }
        let ghost before = r@;
        proof {
            lemma_insert_at(cs@, x, before, p as int);
        }
        r.insert(p, x);
        proof {
            assert(r@ =~= before.take(p as int) + seq![x] + before.skip(p as int));
            assert(s@.take(i + 1).drop_last() =~= s@.take(i as int));
            assert(s@.take(i + 1).last() == x);
            assert forall|k: int| 0 <= k < r.len() implies r@[k] < cs.len() by {
                if k < p {
                    assert(r@[k] == before[k]);
                } else if k > p {
                    assert(r@[k] == before[k - 1]);
                }
            }
        }
        i += 1;
    }
    assert(s@.take(s.len() as int) =~= s@);
    r
}

/// A failure of the reply at `j`, when all replies after it succeed, is the
/// first failure met.
proof fn lemma_replies_failure_at<E>(
    cs: Seq<Comment>,
    g: RenderResultFn<E>,
    ks: Seq<usize>,
    fuel: nat,
    j: int,
    e: E,
)
    requires
        0 <= j < ks.len(),
        node_result(cs, g, ks[j], fuel) == Err::<Seq<char>, E>(e),
        forall|p: int| j < p < ks.len() ==> (#[trigger] node_result(cs, g, ks[p], fuel)) is Ok,
    ensures
        replies_failure(cs, g, ks, fuel) == Some(e),
    decreases ks.len(),
{
    if j < ks.len() - 1 {
        let t = ks.drop_last();
        assert(node_result(cs, g, ks[ks.len() - 1], fuel) is Ok);
        assert forall|p: int| j < p < t.len() implies (#[trigger] node_result(cs, g, t[p], fuel)) is Ok by {
            assert(t[p] == ks[p]);
            assert(node_result(cs, g, ks[p], fuel) is Ok);
        }
        assert(t[j] == ks[j]);
        lemma_replies_failure_at(cs, g, t, fuel, j, e);
    }
}

/// When every reply succeeds, no failure is met.
proof fn lemma_replies_no_failure<E>(cs: Seq<Comment>, g: RenderResultFn<E>, ks: Seq<usize>, fuel: nat)
    requires
        forall|p: int| 0 <= p < ks.len() ==> (#[trigger] node_result(cs, g, ks[p], fuel)) is Ok,
    ensures
        replies_failure(cs, g, ks, fuel) is None,
    decreases ks.len(),
{
    if ks.len() > 0 {
        let t = ks.drop_last();
        assert(node_result(cs, g, ks[ks.len() - 1], fuel) is Ok);
        assert forall|p: int| 0 <= p < t.len() implies (#[trigger] node_result(cs, g, t[p], fuel)) is Ok by {
            assert(t[p] == ks[p]);
            assert(node_result(cs, g, ks[p], fuel) is Ok);
        }
        lemma_replies_no_failure(cs, g, t, fuel);
    }
}

/// A failure met among the first `j` comments of a list is the list's
/// result.
proof fn lemma_list_failure_persists<E>(
    cs: Seq<Comment>,
    g: RenderResultFn<E>,
    ks: Seq<usize>,
    fuel: nat,
    j: int,
    e: E,
)
    requires
        0 <= j <= ks.len(),
        list_result(cs, g, ks.take(j), fuel) == Err::<Seq<char>, E>(e),
    ensures
        list_result(cs, g, ks, fuel) == Err::<Seq<char>, E>(e),
    decreases ks.len() - j,
{
    if j < ks.len() {
        assert(ks.take(j + 1).drop_last() =~= ks.take(j));
        lemma_list_failure_persists(cs, g, ks, fuel, j + 1, e);
    } else {
        assert(ks.take(j) =~= ks);
    }
}

/// Index of `k` in `v`.
fn position_of(v: &Vec<usize>, k: usize) -> (j: usize)
    requires
        v@.contains(k),
    ensures
        j < v.len(),
        v@[j as int] == k,
{
    let mut j: usize = 0;
    while j < v.len()
        invariant
            j <= v.len(),
            v@.contains(k),
            forall|q: int| 0 <= q < j ==> v@[q] != k,
        decreases v.len() - j,
    {
        if v[j] == k {
            return j;
        }
        j += 1;
    }
    proof {
        let w = choose|w: int| 0 <= w < v.len() && v@[w] == k;
        assert(v@[w] != k);
    }
    0
}

/// Renders comment `i` and, before it, its replies (last reply first, as a
/// stack-driven walk does).
fn render_subtree<F, E>(
    cs: &Vec<Comment>,
    kid_lists: &Vec<Vec<usize>>,
    i: usize,
    fuel: usize,
    renderer: &F,
) -> (r: Result<String, E>) where F: Fn(&str, &str, &str, Vec<String>) -> Result<String, E>
    requires
        i < cs.len(),
        kid_lists.len() == cs.len(),
        forall|k: int| 0 <= k < cs.len() ==> (#[trigger] kid_lists@[k])@ == replies(cs@, k),
        forall|k: int, q: int|
            0 <= k < cs.len() && 0 <= q < kid_lists@[k].len() ==> (#[trigger] kid_lists@[k]@[q]) < cs.len(),
        accepts_all(*renderer),
    ensures
        forall|f: RenderFn|
            #[trigger] renders_as(*renderer, f) ==> (r matches Ok(s) && s@ == render_node(
                cs@,
                f,
                i,
                fuel as nat,
            )),
        r matches Err(e) ==> can_fail_with(*renderer, e),
        forall|g: RenderResultFn<E>|
            #[trigger] renders_result_as(*renderer, g) ==> result_view(r) == node_result(
                cs@,
                g,
                i,
                fuel as nat,
            ),
    decreases fuel,
{
    if fuel == 0 {
        return Ok(String::new());
    }
    let kids = &kid_lists[i];
    let m = kids.len();
    let mut outs: Vec<String> = Vec::new();
    let mut t: usize = 0;
    while t < m
        invariant
            t <= m,
            m == kids.len(),
            fuel > 0,
            i < cs.len(),
            kids == kid_lists@[i as int],
            kid_lists.len() == cs.len(),
            forall|k: int| 0 <= k < cs.len() ==> (#[trigger] kid_lists@[k])@ == replies(cs@, k),
            forall|k: int, q: int|
                0 <= k < cs.len() && 0 <= q < kid_lists@[k].len() ==> (#[trigger] kid_lists@[k]@[q])
                    < cs.len(),
            accepts_all(*renderer),
            outs.len() == t,
            forall|f: RenderFn|
                #[trigger] renders_as(*renderer, f) ==> forall|q: int|
                    0 <= q < t ==> (#[trigger] outs@[q])@ == render_node(
                        cs@,
                        f,
                        kids@[m - 1 - q],
                        (fuel - 1) as nat,
                    ),
            forall|g: RenderResultFn<E>|
                #[trigger] renders_result_as(*renderer, g) ==> forall|q: int|
                    0 <= q < t ==> node_result(cs@, g, kids@[m - 1 - q], (fuel - 1) as nat)
                        == Ok::<Seq<char>, E>((#[trigger] outs@[q])@),
        decreases m - t,
    {
        let kid = kids[m - 1 - t];
        let s = match render_subtree(cs, kid_lists, kid, fuel - 1, renderer) {
            Ok(s) => s,
            Err(e) => {
                proof {
                    assert forall|g: RenderResultFn<E>| #[trigger]
                        renders_result_as(*renderer, g) implies result_view(
                        Err::<String, E>(e),
                    ) == node_result(cs@, g, i, fuel as nat) by {
                        let j = m - 1 - t;
                        assert forall|p: int| j < p < kids@.len() implies (#[trigger] node_result(
                            cs@,
                            g,
                            kids@[p],
                            (fuel - 1) as nat,
                        )) is Ok by {
                            let q = m - 1 - p;
                            assert(node_result(cs@, g, kids@[m - 1 - q], (fuel - 1) as nat)
                                == Ok::<Seq<char>, E>(outs@[q]@));
                        }
                        lemma_replies_failure_at(cs@, g, kids@, (fuel - 1) as nat, j, e);
                    }
                }
                return Err(e);
            },
        };
        let ghost before = outs@;
        outs.push(s);
        proof {
            assert forall|g: RenderResultFn<E>| #[trigger] renders_result_as(*renderer, g) implies forall|
                q: int,
            |
                0 <= q < t + 1 ==> node_result(cs@, g, kids@[m - 1 - q], (fuel - 1) as nat)
                    == Ok::<Seq<char>, E>((#[trigger] outs@[q])@) by {
                assert forall|q: int| 0 <= q < t + 1 implies node_result(
                    cs@,
                    g,
                    kids@[m - 1 - q],
                    (fuel - 1) as nat,
                ) == Ok::<Seq<char>, E>((#[trigger] outs@[q])@) by {
                    if q < t {
                        assert(outs@[q] == before[q]);
                    }
                }
            }
        }
        t += 1;
    }
    proof {
        assert forall|g: RenderResultFn<E>| #[trigger] renders_result_as(*renderer, g) implies replies_failure(
            cs@,
            g,
            kids@,
            (fuel - 1) as nat,
        ) is None by {
            assert forall|p: int| 0 <= p < kids@.len() implies (#[trigger] node_result(
                cs@,
                g,
                kids@[p],
                (fuel - 1) as nat,
            )) is Ok by {
                let q = m - 1 - p;
                assert(node_result(cs@, g, kids@[m - 1 - q], (fuel - 1) as nat)
                    == Ok::<Seq<char>, E>(outs@[q]@));
            }
            lemma_replies_no_failure(cs@, g, kids@, (fuel - 1) as nat);
        }
    }
    let sorted = sort_by_contents_exec(cs, kids);
    proof {
        lemma_sort_members(cs@, kids@);
    }
    let mut children: Vec<String> = Vec::new();
    let mut u: usize = 0;
    assert(sorted@.take(0) =~= Seq::<usize>::empty());
    while u < sorted.len()
        invariant
            u <= sorted.len(),
            m == kids.len(),
            fuel > 0,
            outs.len() == m,
            sorted@ == sort_by_contents(cs@, kids@),
            sorted.len() == m,
            forall|k: int| 0 <= k < m ==> kids@.contains(#[trigger] sorted@[k]),
            forall|f: RenderFn|
                #[trigger] renders_as(*renderer, f) ==> forall|q: int|
                    0 <= q < m ==> (#[trigger] outs@[q])@ == render_node(
                        cs@,
                        f,
                        kids@[m - 1 - q],
                        (fuel - 1) as nat,
                    ),
            forall|f: RenderFn|
                #[trigger] renders_as(*renderer, f) ==> children@.map_values(|x: String| x@)
                    == render_list(cs@, f, sorted@.take(u as int), (fuel - 1) as nat),
            forall|g: RenderResultFn<E>|
                #[trigger] renders_result_as(*renderer, g) ==> forall|q: int|
                    0 <= q < m ==> node_result(cs@, g, kids@[m - 1 - q], (fuel - 1) as nat)
                        == Ok::<Seq<char>, E>((#[trigger] outs@[q])@),
            forall|g: RenderResultFn<E>|
                #[trigger] renders_result_as(*renderer, g) ==> children@.map_values(|x: String| x@)
                    == ok_texts(cs@, g, sorted@.take(u as int), (fuel - 1) as nat),
        decreases sorted.len() - u,
    {
        let k = sorted[u];
        assert(kids@.contains(sorted@[u as int]));
        let j = position_of(kids, k);
        let piece = outs[m - 1 - j].clone();
        let ghost before = children@;
        children.push(piece);
        proof {
            assert forall|f: RenderFn| #[trigger] renders_as(*renderer, f) implies children@.map_values(
                |x: String| x@,
            ) == render_list(cs@, f, sorted@.take(u + 1), (fuel - 1) as nat) by {
                let q = m - 1 - j;
                assert(kids@[m - 1 - q] == k);
                assert(outs@[q]@ == render_node(cs@, f, k, (fuel - 1) as nat));
                assert(sorted@.take(u + 1).drop_last() =~= sorted@.take(u as int));
                assert(sorted@.take(u + 1).last() == k);
                assert(children@.map_values(|x: String| x@) =~= before.map_values(|x: String| x@).push(
                    piece@,
                ));
            }
            assert forall|g: RenderResultFn<E>| #[trigger] renders_result_as(*renderer, g) implies children@.map_values(
                |x: String| x@,
            ) == ok_texts(cs@, g, sorted@.take(u + 1), (fuel - 1) as nat) by {
                let q = m - 1 - j;
                assert(kids@[m - 1 - q] == k);
                assert(node_result(cs@, g, k, (fuel - 1) as nat) == Ok::<Seq<char>, E>(outs@[q]@));
                assert(sorted@.take(u + 1).drop_last() =~= sorted@.take(u as int));
                assert(sorted@.take(u + 1).last() == k);
                assert(children@.map_values(|x: String| x@) =~= before.map_values(|x: String| x@).push(
                    piece@,
                ));
            }
        }
        u += 1;
    }
    assert(sorted@.take(sorted.len() as int) =~= sorted@);
    let text: &str = if cs[i].is_deleted {
        "<deleted>"
    } else {
        cs[i].contents.as_str()
    };
    let ghost child_views = children;
    let result = renderer("TODO", "TODO", text, children);
    proof {
        if result is Err {
            let e = result->Err_0;
            assert(renderer.ensures(("TODO", "TODO", text, child_views), Err(e)));
        }
        assert forall|g: RenderResultFn<E>| #[trigger] renders_result_as(*renderer, g) implies result_view(
            result,
        ) == node_result(cs@, g, i, fuel as nat) by {
            assert(renderer.ensures(("TODO", "TODO", text, child_views), result));
            assert(sorted@.take(sorted.len() as int) =~= sorted@);
        }
    }
    result
}

/// Renders a comment thread.
///
/// The top-level comments (those that answer no comment), ordered by their
/// text, are rendered one after another. Each comment is rendered by
/// `renderer` from the author and date lines, the text shown (`<deleted>`
/// for a deleted comment) and the renderings of its replies, ordered by text;
/// equal texts keep their input order. Comments that answer a comment that
/// is not in the thread are left out, with everything below them.
///
/// The top-level comments are rendered in that order, and below each comment
/// its replies are rendered before it, last reply first. The first error of
/// `renderer` in that walk is returned, and nothing is rendered after it.
pub fn render_regular_comments<F, E>(comments: Vec<Comment>, renderer: F) -> (r: Result<String, E>) where
    F: Fn(&str, &str, &str, Vec<String>) -> Result<String, E>,

    requires
        distinct_ids(comments@),
        accepts_all(renderer),
    ensures
        forall|f: RenderFn|
            #[trigger] renders_as(renderer, f) ==> (r matches Ok(s) && s@ == render_forest(comments@, f)),
        r matches Err(e) ==> can_fail_with(renderer, e),
        forall|g: RenderResultFn<E>|
            #[trigger] renders_result_as(renderer, g) ==> result_view(r) == render_forest_result(
                comments@,
                g,
            ),
{
    let cs = &comments;
    let n = cs.len();
    let mut kid_lists: Vec<Vec<usize>> = Vec::new();
    let mut i: usize = 0;
    while i < n
        invariant
            i <= n,
            n == cs.len(),
            kid_lists.len() == i,
            forall|k: int| 0 <= k < i ==> (#[trigger] kid_lists@[k])@ == replies(cs@, k),
            forall|k: int, q: int|
                0 <= k < i && 0 <= q < kid_lists@[k].len() ==> (#[trigger] kid_lists@[k]@[q]) < cs.len(),
        decreases n - i,
    {
        let kids = replies_of(cs, i);
        kid_lists.push(kids);
        i += 1;
    }
    let tops = top_level_of(cs);
    let order = sort_by_contents_exec(cs, &tops);
    proof {
        lemma_sort_members(cs@, tops@);
    }
    let mut out = String::new();
    let mut u: usize = 0;
    assert(order@.take(0) =~= Seq::<usize>::empty());
    while u < order.len()
        invariant
            u <= order.len(),
            n == cs.len(),
            kid_lists.len() == cs.len(),
            forall|k: int| 0 <= k < cs.len() ==> (#[trigger] kid_lists@[k])@ == replies(cs@, k),
            forall|k: int, q: int|
                0 <= k < cs.len() && 0 <= q < kid_lists@[k].len() ==> (#[trigger] kid_lists@[k]@[q])
                    < cs.len(),
            accepts_all(renderer),
            cs@ == comments@,
            order@ == sort_by_contents(cs@, top_level(cs@)),
            forall|k: int| 0 <= k < order.len() ==> order@[k] < cs.len(),
            forall|f: RenderFn|
                #[trigger] renders_as(renderer, f) ==> out@ == concat_all(
                    render_list(cs@, f, order@.take(u as int), n as nat),
                ),
            forall|g: RenderResultFn<E>|
                #[trigger] renders_result_as(renderer, g) ==> list_result(
                    cs@,
                    g,
                    order@.take(u as int),
                    n as nat,
                ) == Ok::<Seq<char>, E>(out@),
        decreases order.len() - u,
    {
        let root = order[u];
        let piece = match render_subtree(cs, &kid_lists, root, n, &renderer) {
            Ok(s) => s,
            Err(e) => {
                proof {
                    assert forall|g: RenderResultFn<E>| #[trigger]
                        renders_result_as(renderer, g) implies result_view(Err::<String, E>(e))
                        == render_forest_result(comments@, g) by {
                        assert(order@.take(u + 1).drop_last() =~= order@.take(u as int));
                        assert(order@.take(u + 1).last() == root);
                        assert(node_result(cs@, g, root, n as nat) == Err::<Seq<char>, E>(e));
                        assert(list_result(cs@, g, order@.take(u + 1), n as nat) == Err::<
                            Seq<char>,
                            E,
                        >(e));
                        lemma_list_failure_persists(cs@, g, order@, n as nat, u + 1, e);
                    }
                }
                return Err(e);
            },
        };
        let ghost before = out@;
        out.append(piece.as_str());
        proof {
            assert forall|f: RenderFn| #[trigger] renders_as(renderer, f) implies out@ == concat_all(
                render_list(cs@, f, order@.take(u + 1), n as nat),
            ) by {
                assert(order@.take(u + 1).drop_last() =~= order@.take(u as int));
                assert(order@.take(u + 1).last() == root);
                assert(piece@ == render_node(cs@, f, root, n as nat));
                let prev = render_list(cs@, f, order@.take(u as int), n as nat);
                let next = render_list(cs@, f, order@.take(u + 1), n as nat);
                assert(next == prev.push(piece@));
                assert(next.drop_last() =~= prev);
            }
            assert forall|g: RenderResultFn<E>| #[trigger] renders_result_as(renderer, g) implies list_result(
                cs@,
                g,
                order@.take(u + 1),
                n as nat,
            ) == Ok::<Seq<char>, E>(out@) by {
                assert(order@.take(u + 1).drop_last() =~= order@.take(u as int));
                assert(order@.take(u + 1).last() == root);
            }
        }
        u += 1;
    }
    assert(order@.take(order.len() as int) =~= order@);
    Ok(out)
}

} // verus!
