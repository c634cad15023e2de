use vstd::prelude::*;

verus! {

/// Lexicographic order on texts, character by character (by code point).
/// A proper prefix comes before the longer text.
pub open spec fn text_lt(a: Seq<char>, b: Seq<char>) -> bool
    decreases a.len(),
{
    if a.len() == 0 {
        b.len() > 0
    } else if b.len() == 0 {
        false
    } else if a[0] != b[0] {
        (a[0] as int) < (b[0] as int)
    } else {
        text_lt(a.drop_first(), b.drop_first())
    }
}

/// `<` on string slices (std's `PartialOrd for str`). The standard library
/// documents that strings are ordered lexicographically by their bytes, which
/// orders Unicode code points by their position in the code charts; the
/// contract states that order over the characters.
#[verifier::external_body]
pub(crate) fn str_lt(a: &str, b: &str) -> (r: bool)
    ensures
        r == text_lt(a@, b@),
{
    a < b
}

/// `needle` occurs in `hay` as a run of consecutive characters.
pub open spec fn contains_text(hay: Seq<char>, needle: Seq<char>) -> bool {
    exists|i: int| 0 <= i && i + needle.len() <= hay.len() && #[trigger] hay.subrange(i, i + needle.len()) == needle
}

/// `str::contains` with a string pattern: whether `needle` occurs in `hay`
/// as a substring (std documents that it returns true if the pattern matches
/// a sub-slice of the string).
#[verifier::external_body]
pub(crate) fn str_contains(hay: &str, needle: &str) -> (r: bool)
    ensures
        r == contains_text(hay@, needle@),
{
    hay.contains(needle)
}

/// No text comes before itself.
pub proof fn lemma_text_lt_irreflexive(a: Seq<char>)
    ensures
        !text_lt(a, a),
    decreases a.len(),
{
    if a.len() > 0 {
        lemma_text_lt_irreflexive(a.drop_first());
    }
}

/// The order is transitive.
pub proof fn lemma_text_lt_transitive(a: Seq<char>, b: Seq<char>, c: Seq<char>)
    requires
        text_lt(a, b),
        text_lt(b, c),
    ensures
        text_lt(a, c),
    decreases a.len(),
{
    if a.len() > 0 && b.len() > 0 && c.len() > 0 && a[0] == b[0] && b[0] == c[0] {
        lemma_text_lt_transitive(a.drop_first(), b.drop_first(), c.drop_first());
    }
}

/// Any two different texts are ordered one way or the other.
pub proof fn lemma_text_lt_total(a: Seq<char>, b: Seq<char>)
    ensures
        text_lt(a, b) || text_lt(b, a) || a == b,
    decreases a.len(),
{
    if a.len() > 0 && b.len() > 0 {
        if a[0] == b[0] {
            lemma_text_lt_total(a.drop_first(), b.drop_first());
            if a.drop_first() == b.drop_first() {
                assert(a =~= seq![a[0]] + a.drop_first());
                assert(b =~= seq![b[0]] + b.drop_first());
            }
        } else {
            assert((a[0] as int) != (b[0] as int));
        }
    } else if a.len() == 0 && b.len() == 0 {
        assert(a =~= b);
    }
}

/// Two texts are never each before the other.
pub proof fn lemma_text_lt_asymmetric(a: Seq<char>, b: Seq<char>)
    requires
        text_lt(a, b),
    ensures
        !text_lt(b, a),
{
    if text_lt(b, a) {
        lemma_text_lt_transitive(a, b, a);
        lemma_text_lt_irreflexive(a);
    }
}

} // verus!

verus! {

/// The character of decimal digit `d`.
pub open spec fn digit_char(d: nat) -> char {
    ((48 + d) as u32) as char
}

/// The decimal notation of `n`, without leading zeros.
pub open spec fn decimal(n: nat) -> Seq<char>
    decreases n,
{
    if n < 10 {
        seq![digit_char(n)]
    } else {
        decimal(n / 10).push(digit_char(n % 10))
    }
}

/// The one-character text of a decimal digit.
fn digit_text(d: u8) -> (r: &'static str)
    requires
        d < 10,
    ensures
        r@ == seq![digit_char(d as nat)],
{
    proof {
        reveal_strlit("0");
        reveal_strlit("1");
        reveal_strlit("2");
        reveal_strlit("3");
        reveal_strlit("4");
        reveal_strlit("5");
        reveal_strlit("6");
        reveal_strlit("7");
        reveal_strlit("8");
        reveal_strlit("9");
    }
    match d {
        0 => "0",
        1 => "1",
        2 => "2",
        3 => "3",
        4 => "4",
        5 => "5",
        6 => "6",
        7 => "7",
        8 => "8",
        _ => "9",
    }
}

/// The decimal notation of `n`.
pub fn decimal_string(n: u128) -> (r: String)
    ensures
        r@ == decimal(n as nat),
{
    let mut digits: Vec<u8> = Vec::new();
    let mut m: u128 = n;
    while m >= 10
        invariant
            decimal(n as nat) == decimal(m as nat) + digits@.reverse().map_values(
                |d: u8| digit_char(d as nat),
            ),
            forall|k: int| 0 <= k < digits.len() ==> digits@[k] < 10,
        decreases m,
    {
        let ghost old_digits = digits@;
        let d: u8 = (m % 10) as u8;
        digits.push(d);
        proof {
            assert(decimal(m as nat) == decimal((m / 10) as nat).push(digit_char((m % 10) as nat)));
            assert(digits@.reverse() =~= seq![d] + old_digits.reverse());
            assert(digits@.reverse().map_values(|d: u8| digit_char(d as nat)) =~= seq![
                digit_char(d as nat),
            ] + old_digits.reverse().map_values(|d: u8| digit_char(d as nat)));
        }
        m = m / 10;
    }
    let mut r = String::new();
    r.append(digit_text(m as u8));
    let ghost tail = digits@.reverse().map_values(|d: u8| digit_char(d as nat));
    let mut k: usize = digits.len();
    while k > 0
        invariant
            k <= digits.len(),
            forall|j: int| 0 <= j < digits.len() ==> digits@[j] < 10,
            tail == digits@.reverse().map_values(|d: u8| digit_char(d as nat)),
            r@ == decimal(m as nat) + tail.take(digits.len() - k),
        decreases k,
    {
        k -= 1;
        let d = digits[k];
        r.append(digit_text(d));
        proof {
            assert(tail[digits.len() - 1 - k] == digit_char(d as nat));
            assert(tail.take(digits.len() - k) =~= tail.take(digits.len() - 1 - k).push(
                digit_char(d as nat),
            ));
        }
    }
    assert(tail.take(digits.len() as int) =~= tail);
    r
}

/// An error's description followed by the descriptions of its causes.
pub open spec fn error_chain_text(message: Seq<char>, causes: Seq<Seq<char>>) -> Seq<char>
    decreases causes.len(),
{
    if causes.len() == 0 {
        message + "\n\n"@
    } else {
        error_chain_text(message, causes.drop_last()) + "Caused by:\n\t"@ + causes.last() + "\n"@
    }
}

/// Writes an error's description, a blank line, and then for each of its
/// causes in turn `Caused by:`, a new line, a tab and the cause's
/// description on a line of its own.
pub fn error_chain_fmt(message: &str, causes: &Vec<String>) -> (r: String)
    ensures
        r@ == error_chain_text(message@, causes@.map_values(|c: String| c@)),
{
    let ghost views = causes@.map_values(|c: String| c@);
    let mut r = String::new();
    r.append(message);
    r.append("\n\n");
    let mut i: usize = 0;
    assert(views.take(0) =~= Seq::<Seq<char>>::empty());
    while i < causes.len()
        invariant
            i <= causes.len(),
            views == causes@.map_values(|c: String| c@),
            r@ == error_chain_text(message@, views.take(i as int)),
        decreases causes.len() - i,
    {
        r.append("Caused by:\n\t");
        r.append(causes[i].as_str());
        r.append("\n");
        proof {
            assert(views.take(i + 1).drop_last() =~= views.take(i as int));
            assert(views.take(i + 1).last() == causes@[i as int]@);
        }
        i += 1;
    }
    assert(views.take(causes.len() as int) =~= views);
    r
}

} // verus!
