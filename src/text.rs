//! Character-level helpers over `str` views.

use vstd::prelude::*;

verus! {

/// A decimal digit: a character of Unicode general category `Nd`
/// (Unicode 15.0), the class that `\d` stands for in a Unicode regular
/// expression. Each range is a full set of the digits zero to nine of one
/// script (five sets for the mathematical digits).
#[verifier::opaque]
pub open spec fn is_digit(c: char) -> bool {
    let n = c as u32;
    ||| (0x30 <= n && n <= 0x39)
    ||| (0x660 <= n && n <= 0x669)
    ||| (0x6F0 <= n && n <= 0x6F9)
    ||| (0x7C0 <= n && n <= 0x7C9)
    ||| (0x966 <= n && n <= 0x96F)
    ||| (0x9E6 <= n && n <= 0x9EF)
    ||| (0xA66 <= n && n <= 0xA6F)
    ||| (0xAE6 <= n && n <= 0xAEF)
    ||| (0xB66 <= n && n <= 0xB6F)
    ||| (0xBE6 <= n && n <= 0xBEF)
    ||| (0xC66 <= n && n <= 0xC6F)
    ||| (0xCE6 <= n && n <= 0xCEF)
    ||| (0xD66 <= n && n <= 0xD6F)
    ||| (0xDE6 <= n && n <= 0xDEF)
    ||| (0xE50 <= n && n <= 0xE59)
    ||| (0xED0 <= n && n <= 0xED9)
    ||| (0xF20 <= n && n <= 0xF29)
    ||| (0x1040 <= n && n <= 0x1049)
    ||| (0x1090 <= n && n <= 0x1099)
    ||| (0x17E0 <= n && n <= 0x17E9)
    ||| (0x1810 <= n && n <= 0x1819)
    ||| (0x1946 <= n && n <= 0x194F)
    ||| (0x19D0 <= n && n <= 0x19D9)
    ||| (0x1A80 <= n && n <= 0x1A89)
    ||| (0x1A90 <= n && n <= 0x1A99)
    ||| (0x1B50 <= n && n <= 0x1B59)
    ||| (0x1BB0 <= n && n <= 0x1BB9)
    ||| (0x1C40 <= n && n <= 0x1C49)
    ||| (0x1C50 <= n && n <= 0x1C59)
    ||| (0xA620 <= n && n <= 0xA629)
    ||| (0xA8D0 <= n && n <= 0xA8D9)
    ||| (0xA900 <= n && n <= 0xA909)
    ||| (0xA9D0 <= n && n <= 0xA9D9)
    ||| (0xA9F0 <= n && n <= 0xA9F9)
    ||| (0xAA50 <= n && n <= 0xAA59)
    ||| (0xABF0 <= n && n <= 0xABF9)
    ||| (0xFF10 <= n && n <= 0xFF19)
    ||| (0x104A0 <= n && n <= 0x104A9)
    ||| (0x10D30 <= n && n <= 0x10D39)
    ||| (0x11066 <= n && n <= 0x1106F)
    ||| (0x110F0 <= n && n <= 0x110F9)
    ||| (0x11136 <= n && n <= 0x1113F)
    ||| (0x111D0 <= n && n <= 0x111D9)
    ||| (0x112F0 <= n && n <= 0x112F9)
    ||| (0x11450 <= n && n <= 0x11459)
    ||| (0x114D0 <= n && n <= 0x114D9)
    ||| (0x11650 <= n && n <= 0x11659)
    ||| (0x116C0 <= n && n <= 0x116C9)
    ||| (0x11730 <= n && n <= 0x11739)
    ||| (0x118E0 <= n && n <= 0x118E9)
    ||| (0x11950 <= n && n <= 0x11959)
    ||| (0x11C50 <= n && n <= 0x11C59)
    ||| (0x11D50 <= n && n <= 0x11D59)
    ||| (0x11DA0 <= n && n <= 0x11DA9)
    ||| (0x11F50 <= n && n <= 0x11F59)
    ||| (0x16A60 <= n && n <= 0x16A69)
    ||| (0x16AC0 <= n && n <= 0x16AC9)
    ||| (0x16B50 <= n && n <= 0x16B59)
    ||| (0x1D7CE <= n && n <= 0x1D7FF)
    ||| (0x1E140 <= n && n <= 0x1E149)
    ||| (0x1E2F0 <= n && n <= 0x1E2F9)
    ||| (0x1E4F0 <= n && n <= 0x1E4F9)
    ||| (0x1E950 <= n && n <= 0x1E959)
    ||| (0x1FBF0 <= n && n <= 0x1FBF9)
}

/// Whether `c` is a decimal digit.
pub fn is_digit_exec(c: char) -> (r: bool)
    ensures
        r == is_digit(c),
{
    reveal(is_digit);
    let n = c as u32;
    (0x30 <= n && n <= 0x39)
        || (0x660 <= n && n <= 0x669)
        || (0x6F0 <= n && n <= 0x6F9)
        || (0x7C0 <= n && n <= 0x7C9)
        || (0x966 <= n && n <= 0x96F)
        || (0x9E6 <= n && n <= 0x9EF)
        || (0xA66 <= n && n <= 0xA6F)
        || (0xAE6 <= n && n <= 0xAEF)
        || (0xB66 <= n && n <= 0xB6F)
        || (0xBE6 <= n && n <= 0xBEF)
        || (0xC66 <= n && n <= 0xC6F)
        || (0xCE6 <= n && n <= 0xCEF)
        || (0xD66 <= n && n <= 0xD6F)
        || (0xDE6 <= n && n <= 0xDEF)
        || (0xE50 <= n && n <= 0xE59)
        || (0xED0 <= n && n <= 0xED9)
        || (0xF20 <= n && n <= 0xF29)
        || (0x1040 <= n && n <= 0x1049)
        || (0x1090 <= n && n <= 0x1099)
        || (0x17E0 <= n && n <= 0x17E9)
        || (0x1810 <= n && n <= 0x1819)
        || (0x1946 <= n && n <= 0x194F)
        || (0x19D0 <= n && n <= 0x19D9)
        || (0x1A80 <= n && n <= 0x1A89)
        || (0x1A90 <= n && n <= 0x1A99)
        || (0x1B50 <= n && n <= 0x1B59)
        || (0x1BB0 <= n && n <= 0x1BB9)
        || (0x1C40 <= n && n <= 0x1C49)
        || (0x1C50 <= n && n <= 0x1C59)
        || (0xA620 <= n && n <= 0xA629)
        || (0xA8D0 <= n && n <= 0xA8D9)
        || (0xA900 <= n && n <= 0xA909)
        || (0xA9D0 <= n && n <= 0xA9D9)
        || (0xA9F0 <= n && n <= 0xA9F9)
        || (0xAA50 <= n && n <= 0xAA59)
        || (0xABF0 <= n && n <= 0xABF9)
        || (0xFF10 <= n && n <= 0xFF19)
        || (0x104A0 <= n && n <= 0x104A9)
        || (0x10D30 <= n && n <= 0x10D39)
        || (0x11066 <= n && n <= 0x1106F)
        || (0x110F0 <= n && n <= 0x110F9)
        || (0x11136 <= n && n <= 0x1113F)
        || (0x111D0 <= n && n <= 0x111D9)
        || (0x112F0 <= n && n <= 0x112F9)
        || (0x11450 <= n && n <= 0x11459)
        || (0x114D0 <= n && n <= 0x114D9)
        || (0x11650 <= n && n <= 0x11659)
        || (0x116C0 <= n && n <= 0x116C9)
        || (0x11730 <= n && n <= 0x11739)
        || (0x118E0 <= n && n <= 0x118E9)
        || (0x11950 <= n && n <= 0x11959)
        || (0x11C50 <= n && n <= 0x11C59)
        || (0x11D50 <= n && n <= 0x11D59)
        || (0x11DA0 <= n && n <= 0x11DA9)
        || (0x11F50 <= n && n <= 0x11F59)
        || (0x16A60 <= n && n <= 0x16A69)
        || (0x16AC0 <= n && n <= 0x16AC9)
        || (0x16B50 <= n && n <= 0x16B59)
        || (0x1D7CE <= n && n <= 0x1D7FF)
        || (0x1E140 <= n && n <= 0x1E149)
        || (0x1E2F0 <= n && n <= 0x1E2F9)
        || (0x1E4F0 <= n && n <= 0x1E4F9)
        || (0x1E950 <= n && n <= 0x1E959)
        || (0x1FBF0 <= n && n <= 0x1FBF9)
}

/// `.` is not a digit.
pub proof fn lemma_dot_not_digit()
    ensures
        !is_digit('.'),
{
    reveal(is_digit);
}

/// `needle` occurs in `hay` starting at index `i`.
pub open spec fn occurs_at(hay: Seq<char>, needle: Seq<char>, i: int) -> bool {
    &&& 0 <= i
    &&& i + needle.len() <= hay.len()
    &&& hay.subrange(i, i + needle.len()) == needle
}

/// `needle` occurs somewhere in `hay`.
pub open spec fn contains(hay: Seq<char>, needle: Seq<char>) -> bool {
    exists|i: int| occurs_at(hay, needle, i)
}

/// The characters of `s`, in order.
pub fn chars_of(s: &str) -> (r: Vec<char>)
    ensures
        r@ == s@,
{
    let n = s.unicode_len();
    let mut out: Vec<char> = Vec::new();
    let mut i: usize = 0;
    while i < n
        invariant
            n == s@.len(),
            i <= n,
            out@ == s@.subrange(0, i as int),
        decreases n - i,
    {
        out.push(s.get_char(i));
        i = i + 1;
        assert(out@ =~= s@.subrange(0, i as int));
    }
    assert(out@ =~= s@);
    out
}

/// Whether `needle` occurs in `hay` at index `i`.
pub fn occurs_at_exec(hay: &Vec<char>, needle: &Vec<char>, i: usize) -> (r: bool)
    ensures
        r == occurs_at(hay@, needle@, i as int),
{
    if needle.len() > hay.len() || i > hay.len() - needle.len() {
        return false;
    }
    let hl = hay.len();
    let mut j: usize = 0;
    while j < needle.len()
        invariant
            hl == hay@.len(),
            i + needle@.len() <= hay@.len(),
            j <= needle@.len(),
            forall|k: int| 0 <= k < j ==> hay@[i + k] == needle@[k],
        decreases needle.len() - j,
    {
        if hay[i + j] != needle[j] {
            assert(hay@.subrange(i as int, i + needle@.len())[j as int] != needle@[j as int]);
            return false;
        }
        j = j + 1;
    }
    assert(hay@.subrange(i as int, i + needle@.len()) =~= needle@);
    true
}

/// Whether `needle` occurs anywhere in `hay`.
pub fn contains_exec(hay: &Vec<char>, needle: &Vec<char>) -> (r: bool)
    ensures
        r == contains(hay@, needle@),
{
    if needle.len() > hay.len() {
        assert forall|i: int| !occurs_at(hay@, needle@, i) by {}
        return false;
    }
    let last = hay.len() - needle.len();
    let mut i: usize = 0;
    while i <= last
        invariant
            last == hay@.len() - needle@.len(),
            forall|k: int| 0 <= k < i ==> !occurs_at(hay@, needle@, k),
        decreases last + 1 - i,
    {
        if occurs_at_exec(hay, needle, i) {
            return true;
        }
        if i == last {
            assert forall|k: int| !occurs_at(hay@, needle@, k) by {}
            return false;
        }
        i = i + 1;
    }
    false
}

/// Whether the text `needle` occurs in the text `hay`.
pub fn str_contains(hay: &str, needle: &str) -> (r: bool)
    ensures
        r == contains(hay@, needle@),
{
    let h = chars_of(hay);
    let n = chars_of(needle);
    contains_exec(&h, &n)
}

} // verus!

verus! {

/// Whether two character sequences are equal.
pub fn seq_equal(a: &Vec<char>, b: &Vec<char>) -> (r: bool)
    ensures
        r == (a@ == b@),
{
    if a.len() != b.len() {
        return false;
    }
    let mut i: usize = 0;
    while i < a.len()
        invariant
            a@.len() == b@.len(),
            i <= a@.len(),
            forall|k: int| 0 <= k < i ==> a@[k] == b@[k],
        decreases a.len() - i,
    {
        if a[i] != b[i] {
            return false;
        }
        i = i + 1;
    }
    assert(a@ =~= b@);
    true
}

} // verus!
