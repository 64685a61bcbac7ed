//! ASCII case-insensitive comparison of strings, as `str::eq_ignore_ascii_case`
//! performs it, and plain string equality.

use vstd::prelude::*;

verus! {

/// The code of `c` after ASCII lower-casing: `A`..=`Z` map to `a`..=`z`,
/// every other character keeps its code.
pub open spec fn ascii_lower(c: char) -> u32 {
    if 65 <= (c as u32) && (c as u32) <= 90 {
        ((c as u32) + 32) as u32
    } else {
        c as u32
    }
}

/// Two character sequences match when they have the same length and agree
/// position by position once ASCII letters are lower-cased.
pub open spec fn eq_ignore_ascii_case_spec(a: Seq<char>, b: Seq<char>) -> bool {
    &&& a.len() == b.len()
    &&& forall|i: int| 0 <= i < a.len() ==> #[trigger] ascii_lower(a[i]) == ascii_lower(b[i])
}

fn lower_code(c: char) -> (r: u32)
    ensures
        r == ascii_lower(c),
{
    let v: u32 = c as u32;
    if 65 <= v && v <= 90 {
        v + 32
    } else {
        v
    }
}

/// ASCII case-insensitive equality of two strings.
pub fn eq_ignore_ascii_case(a: &str, b: &str) -> (r: bool)
    ensures
        r == eq_ignore_ascii_case_spec(a@, b@),
{
    let n: usize = a.unicode_len();
    let m: usize = b.unicode_len();
    if n != m {
        return false;
    }
    let mut i: usize = 0;
    while i < n
        invariant
            n == a@.len(),
            m == b@.len(),
            n == m,
            i <= n,
            forall|j: int| 0 <= j < i ==> #[trigger] ascii_lower(a@[j]) == ascii_lower(b@[j]),
        decreases n - i,
    {
        if lower_code(a.get_char(i)) != lower_code(b.get_char(i)) {
            return false;
        }
        i += 1;
    }
    true
}

/// Exact equality of two strings, character by character.
pub fn str_eq(a: &str, b: &str) -> (r: bool)
    ensures
        r == (a@ == b@),
{
    let n: usize = a.unicode_len();
    let m: usize = b.unicode_len();
    if n != m {
        return false;
    }
    let mut i: usize = 0;
    while i < n
        invariant
            n == a@.len(),
            m == b@.len(),
            n == m,
            i <= n,
            forall|j: int| 0 <= j < i ==> #[trigger] a@[j] == b@[j],
        decreases n - i,
    {
        if a.get_char(i) != b.get_char(i) {
            return false;
        }
        i += 1;
    }
    assert(a@ =~= b@);
    true
}

/// Two single characters match ignoring ASCII case exactly when they are
/// equal, or one is an upper-case ASCII letter and the other is the same
/// letter in lower case (its code plus 32). In particular every letter
/// `A`..=`Z` matches its lower-case form, and no other pair of distinct
/// characters matches.
pub proof fn lemma_single_chars_match(c: char, d: char)
    ensures
        eq_ignore_ascii_case_spec(seq![c], seq![d]) <==> (c == d || (65 <= (c as u32) <= 90 && (d as u32)
            == (c as u32) + 32) || (65 <= (d as u32) <= 90 && (c as u32) == (d as u32) + 32)),
{
    let (a, b) = (seq![c], seq![d]);
    if eq_ignore_ascii_case_spec(a, b) {
        assert(ascii_lower(a[0]) == ascii_lower(b[0]));
    }
    if c == d || (65 <= (c as u32) <= 90 && (d as u32) == (c as u32) + 32) || (65 <= (d as u32) <= 90
        && (c as u32) == (d as u32) + 32) {
        assert forall|i: int| 0 <= i < a.len() implies #[trigger] ascii_lower(a[i]) == ascii_lower(b[i]) by {
            assert(i == 0);
        }
    }
}

/// Two strings match ignoring ASCII case exactly when they have the same
/// length and match character by character.
pub proof fn lemma_match_is_charwise(a: Seq<char>, b: Seq<char>)
    ensures
        eq_ignore_ascii_case_spec(a, b) <==> (a.len() == b.len() && forall|i: int|
            0 <= i < a.len() ==> #[trigger] eq_ignore_ascii_case_spec(seq![a[i]], seq![b[i]])),
{
    if eq_ignore_ascii_case_spec(a, b) {
        assert forall|i: int| 0 <= i < a.len() implies #[trigger] eq_ignore_ascii_case_spec(
            seq![a[i]],
            seq![b[i]],
        ) by {
            assert(ascii_lower(a[i]) == ascii_lower(b[i]));
            assert forall|k: int| 0 <= k < 1 implies #[trigger] ascii_lower(seq![a[i]][k]) == ascii_lower(
                seq![b[i]][k],
            ) by {
                assert(k == 0);
            }
        }
    }
    if a.len() == b.len() && forall|i: int|
        0 <= i < a.len() ==> #[trigger] eq_ignore_ascii_case_spec(seq![a[i]], seq![b[i]]) {
        assert forall|i: int| 0 <= i < a.len() implies #[trigger] ascii_lower(a[i]) == ascii_lower(b[i]) by {
            assert(eq_ignore_ascii_case_spec(seq![a[i]], seq![b[i]]));
            assert(ascii_lower(seq![a[i]][0]) == ascii_lower(seq![b[i]][0]));
        }
    }
}

/// The match is reflexive.
pub proof fn lemma_eq_ignore_ascii_case_reflexive(a: Seq<char>)
    ensures
        eq_ignore_ascii_case_spec(a, a),
{
}

/// The match is symmetric.
pub proof fn lemma_eq_ignore_ascii_case_symmetric(a: Seq<char>, b: Seq<char>)
    requires
        eq_ignore_ascii_case_spec(a, b),
    ensures
        eq_ignore_ascii_case_spec(b, a),
{
}

/// The match is transitive.
pub proof fn lemma_eq_ignore_ascii_case_transitive(a: Seq<char>, b: Seq<char>, c: Seq<char>)
    requires
        eq_ignore_ascii_case_spec(a, b),
        eq_ignore_ascii_case_spec(b, c),
    ensures
        eq_ignore_ascii_case_spec(a, c),
{
    assert forall|i: int| 0 <= i < a.len() implies #[trigger] ascii_lower(a[i]) == ascii_lower(c[i]) by {
        assert(ascii_lower(a[i]) == ascii_lower(b[i]));
        assert(ascii_lower(b[i]) == ascii_lower(c[i]));
    }
}

} // verus!
