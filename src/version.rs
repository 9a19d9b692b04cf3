//! Version tokens found in free text (command output, release tags).
//!
//! Four patterns are tried in a fixed order of priority, each at the leftmost
//! position where it matches:
//! `D.D.D[.D]`, then `vD.D.D[.D]`, then `version` followed by whitespace and
//! `D.D.D[.D]`, then `D.D`, where `D` is a whole run of one to five digits: no
//! digit stands before a token or after it, so a run of six or more digits
//! (a build timestamp, a hash) is never a component nor cut into one. An
//! optional fourth component is taken only when it is itself such a run.
//! Digits are the Unicode decimal digits (`\d` of a Unicode regular
//! expression; see `is_digit`), for components and for the boundaries alike. The token returned is the `D...` part.

use vstd::prelude::*;

use crate::text::{chars_of, is_digit, is_digit_exec, lemma_dot_not_digit, occurs_at};

verus! {

/// Number of consecutive decimal digits in `s` starting at index `i`.
pub open spec fn digit_run(s: Seq<char>, i: int) -> nat
    decreases s.len() - i,
{
    if 0 <= i < s.len() && is_digit(s[i]) {
        1 + digit_run(s, i + 1)
    } else {
        0
    }
}

/// No digit stands just before index `i`.
pub open spec fn run_start(s: Seq<char>, i: int) -> bool {
    i <= 0 || !is_digit(s[i - 1])
}

/// A whole run of one to five digits starts at `i`.
pub open spec fn component_at(s: Seq<char>, i: int) -> bool {
    1 <= digit_run(s, i) <= 5
}

/// A whole run of one to five digits starts at `i` and is followed by a `.`.
pub open spec fn dotted_at(s: Seq<char>, i: int) -> bool {
    let n = digit_run(s, i);
    &&& 1 <= n <= 5
    &&& i + n < s.len()
    &&& s[i + n] == '.'
}

/// The index just past the `.` that follows the run of digits at `i`.
pub open spec fn after_dot(s: Seq<char>, i: int) -> int {
    i + digit_run(s, i) + 1
}

/// A three-part token `D.D.D` starts at `i`.
pub open spec fn triple_at(s: Seq<char>, i: int) -> bool {
    &&& run_start(s, i)
    &&& dotted_at(s, i)
    &&& dotted_at(s, after_dot(s, i))
    &&& component_at(s, after_dot(s, after_dot(s, i)))
}

/// The end of the three- or four-part token that starts at `i`.
pub open spec fn triple_end(s: Seq<char>, i: int) -> int {
    let k = after_dot(s, after_dot(s, i));
    let e = k + digit_run(s, k);
    if e < s.len() && s[e] == '.' && component_at(s, e + 1) {
        e + 1 + digit_run(s, e + 1)
    } else {
        e
    }
}

/// A `v` directly followed by a three-part token starts at `i`.
pub open spec fn v_triple_at(s: Seq<char>, i: int) -> bool {
    &&& 0 <= i < s.len()
    &&& s[i] == 'v'
    &&& triple_at(s, i + 1)
}

/// The whitespace characters of Unicode.
pub open spec fn is_space(c: char) -> bool {
    ||| c == ' '
    ||| ('\t' <= c && c <= '\r')
    ||| c == '\u{85}'
    ||| c == '\u{A0}'
    ||| c == '\u{1680}'
    ||| ('\u{2000}' <= c && c <= '\u{200A}')
    ||| c == '\u{2028}'
    ||| c == '\u{2029}'
    ||| c == '\u{202F}'
    ||| c == '\u{205F}'
    ||| c == '\u{3000}'
}

/// Number of consecutive whitespace characters in `s` starting at index `i`.
pub open spec fn space_run(s: Seq<char>, i: int) -> nat
    decreases s.len() - i,
{
    if 0 <= i < s.len() && is_space(s[i]) {
        1 + space_run(s, i + 1)
    } else {
        0
    }
}

/// The word `version`.
pub open spec fn version_word() -> Seq<char> {
    seq!['v', 'e', 'r', 's', 'i', 'o', 'n']
}

/// Where the token begins after `version` and its whitespace at `i`.
pub open spec fn word_token_start(s: Seq<char>, i: int) -> int {
    i + 7 + space_run(s, i + 7)
}

/// `version`, whitespace and a three-part token start at `i`.
pub open spec fn word_triple_at(s: Seq<char>, i: int) -> bool {
    &&& occurs_at(s, version_word(), i)
    &&& space_run(s, i + 7) >= 1
    &&& triple_at(s, word_token_start(s, i))
}

/// A two-part token `D.D` starts at `i`.
pub open spec fn pair_at(s: Seq<char>, i: int) -> bool {
    &&& run_start(s, i)
    &&& dotted_at(s, i)
    &&& component_at(s, after_dot(s, i))
}

/// The end of the two-part token that starts at `i`.
pub open spec fn pair_end(s: Seq<char>, i: int) -> int {
    after_dot(s, i) + digit_run(s, after_dot(s, i))
}

/// The least index in `i..n` that satisfies `p`.
pub open spec fn first_from(n: int, i: int, p: spec_fn(int) -> bool) -> Option<int>
    decreases n - i,
{
    if 0 <= i < n {
        if p(i) {
            Some(i)
        } else {
            first_from(n, i + 1, p)
        }
    } else {
        None
    }
}

pub open spec fn triple_pred(s: Seq<char>) -> spec_fn(int) -> bool {
    |i: int| triple_at(s, i)
}

pub open spec fn v_triple_pred(s: Seq<char>) -> spec_fn(int) -> bool {
    |i: int| v_triple_at(s, i)
}

pub open spec fn word_triple_pred(s: Seq<char>) -> spec_fn(int) -> bool {
    |i: int| word_triple_at(s, i)
}

pub open spec fn pair_pred(s: Seq<char>) -> spec_fn(int) -> bool {
    |i: int| pair_at(s, i)
}

/// The version token of `s`: the first pattern, in order of priority, that
/// matches anywhere, at its leftmost match.
pub open spec fn extracted_version(s: Seq<char>) -> Option<Seq<char>> {
    let n = s.len() as int;
    match first_from(n, 0, triple_pred(s)) {
        Some(i) => Some(s.subrange(i, triple_end(s, i))),
        None => match first_from(n, 0, v_triple_pred(s)) {
            Some(i) => Some(s.subrange(i + 1, triple_end(s, i + 1))),
            None => match first_from(n, 0, word_triple_pred(s)) {
                Some(i) => Some(
                    s.subrange(word_token_start(s, i), triple_end(s, word_token_start(s, i))),
                ),
                None => match first_from(n, 0, pair_pred(s)) {
                    Some(i) => Some(s.subrange(i, pair_end(s, i))),
                    None => None,
                },
            },
        },
    }
}

pub proof fn lemma_digit_run_bound(s: Seq<char>, i: int)
    requires
        0 <= i,
    ensures
        i + digit_run(s, i) <= s.len() || digit_run(s, i) == 0,
    decreases s.len() - i,
{
    if 0 <= i < s.len() && is_digit(s[i]) {
        lemma_digit_run_bound(s, i + 1);
    }
}

/// A later witness makes the search from `i` succeed, at or before it.
pub proof fn lemma_first_from_some(n: int, i: int, j: int, p: spec_fn(int) -> bool)
    requires
        0 <= i <= j < n,
        p(j),
    ensures
        first_from(n, i, p) is Some,
        first_from(n, i, p)->0 <= j,
    decreases j - i,
{
    if !p(i) {
        lemma_first_from_some(n, i + 1, j, p);
    }
}

/// The result of a search lies in range and satisfies the predicate.
pub proof fn lemma_first_from_found(n: int, i: int, p: spec_fn(int) -> bool)
    requires
        first_from(n, i, p) is Some,
    ensures
        i <= first_from(n, i, p)->0 < n,
        p(first_from(n, i, p)->0),
    decreases n - i,
{
    if 0 <= i < n && !p(i) {
        lemma_first_from_found(n, i + 1, p);
    }
}

/// Whenever the `v` or the `version` pattern matches, so does the plain one.
proof fn lemma_prefixed_patterns_subsumed(s: Seq<char>)
    ensures
        first_from(s.len() as int, 0, v_triple_pred(s)) is Some ==> first_from(
            s.len() as int,
            0,
            triple_pred(s),
        ) is Some,
        first_from(s.len() as int, 0, word_triple_pred(s)) is Some ==> first_from(
            s.len() as int,
            0,
            triple_pred(s),
        ) is Some,
{
    let n = s.len() as int;
    if first_from(n, 0, v_triple_pred(s)) is Some {
        lemma_first_from_found(n, 0, v_triple_pred(s));
        let i = first_from(n, 0, v_triple_pred(s))->0;
        assert(v_triple_at(s, i));
        assert(triple_pred(s)(i + 1));
        lemma_first_from_some(n, 0, i + 1, triple_pred(s));
    }
    if first_from(n, 0, word_triple_pred(s)) is Some {
        lemma_first_from_found(n, 0, word_triple_pred(s));
        let i = first_from(n, 0, word_triple_pred(s))->0;
        let j = word_token_start(s, i);
        assert(word_triple_at(s, i));
        assert(triple_pred(s)(j));
        assert(j < n);
        lemma_first_from_some(n, 0, j, triple_pred(s));
    }
}

/// The run of digits at `i` is exactly the `m` digits there when no digit
/// follows them.
pub proof fn lemma_digit_run_exact(s: Seq<char>, i: int, m: int)
    requires
        0 <= i,
        0 <= m,
        i + m <= s.len(),
        forall|k: int| i <= k < i + m ==> is_digit(#[trigger] s[k]),
        i + m == s.len() || !is_digit(s[i + m]),
    ensures
        digit_run(s, i) == m,
    decreases m,
{
    if m > 0 {
        lemma_digit_run_exact(s, i + 1, m - 1);
    }
}

/// The search yields `j` when `p` fails everywhere before it.
pub proof fn lemma_first_from_exact(n: int, j: int, p: spec_fn(int) -> bool)
    requires
        0 <= j < n,
        p(j),
        forall|k: int| 0 <= k < j ==> !#[trigger] p(k),
    ensures
        first_from(n, 0, p) == Some(j),
{
    lemma_first_from_some(n, 0, j, p);
    lemma_first_from_found(n, 0, p);
}

/// Text without any decimal digit holds no version token: extraction yields
/// nothing.
pub proof fn lemma_no_digits_no_version(s: Seq<char>)
    requires
        forall|i: int| 0 <= i < s.len() ==> !is_digit(#[trigger] s[i]),
    ensures
        extracted_version(s) is None,
{
    let n = s.len() as int;
    lemma_prefixed_patterns_subsumed(s);
    if first_from(n, 0, triple_pred(s)) is Some {
        lemma_first_from_found(n, 0, triple_pred(s));
        let i = first_from(n, 0, triple_pred(s))->0;
        assert(triple_at(s, i));
        assert(is_digit(s[i]));
    }
    if first_from(n, 0, pair_pred(s)) is Some {
        lemma_first_from_found(n, 0, pair_pred(s));
        let i = first_from(n, 0, pair_pred(s))->0;
        assert(pair_at(s, i));
        assert(is_digit(s[i]));
    }
}

/// A component of one to five decimal digits.
pub open spec fn is_component(x: Seq<char>) -> bool {
    &&& 1 <= x.len() <= 5
    &&& forall|k: int| 0 <= k < x.len() ==> is_digit(#[trigger] x[k])
}

/// The token `a.b.c`, or `a.b.c.d` when `d` is not empty.
pub open spec fn dotted_token(a: Seq<char>, b: Seq<char>, c: Seq<char>, d: Seq<char>) -> Seq<char> {
    let t = a + seq!['.'] + b + seq!['.'] + c;
    if d.len() == 0 {
        t
    } else {
        t + seq!['.'] + d
    }
}

proof fn lemma_token_layout(a: Seq<char>, b: Seq<char>, c: Seq<char>, d: Seq<char>)
    ensures
        ({
            let tok = dotted_token(a, b, c, d);
            let j = a.len() + 1;
            let q = j + b.len() + 1;
            let e = (q + c.len()) as int;
            &&& forall|k: int| 0 <= k < a.len() ==> tok[k] == #[trigger] a[k]
            &&& tok[a.len() as int] == '.'
            &&& forall|k: int| 0 <= k < b.len() ==> tok[j + k] == #[trigger] b[k]
            &&& tok[(j + b.len()) as int] == '.'
            &&& forall|k: int| 0 <= k < c.len() ==> tok[q + k] == #[trigger] c[k]
            &&& d.len() == 0 ==> tok.len() == e
            &&& d.len() > 0 ==> tok.len() == e + 1 + d.len() && tok[e] == '.'
            &&& forall|k: int| 0 <= k < d.len() ==> tok[e + 1 + k] == #[trigger] d[k]
        }),
{
    let t = a + seq!['.'] + b + seq!['.'] + c;
    let j = a.len() + 1;
    let q = j + b.len() + 1;
    assert(t[a.len() as int] == '.');
    assert(t[(j + b.len()) as int] == '.');
    assert forall|k: int| 0 <= k < a.len() implies t[k] == #[trigger] a[k] by {}
    assert forall|k: int| 0 <= k < b.len() implies t[j + k] == #[trigger] b[k] by {}
    assert forall|k: int| 0 <= k < c.len() implies t[q + k] == #[trigger] c[k] by {}
    if d.len() > 0 {
        let tok = t + seq!['.'] + d;
        assert forall|k: int| 0 <= k < t.len() implies tok[k] == #[trigger] t[k] by {}
        assert forall|k: int| 0 <= k < d.len() implies tok[t.len() + 1 + k] == #[trigger] d[k] by {}
    }
}

/// A `major.minor.patch[.build]` token in text is returned exactly, and in
/// preference to any two-part token elsewhere, when the text before it holds
/// no digit and the text after it does not continue it (no digit, and no
/// `.` followed by a digit after a three-part token).
#[verifier::rlimit(60)]
pub proof fn lemma_dotted_token_extracted(
    pre: Seq<char>,
    a: Seq<char>,
    b: Seq<char>,
    c: Seq<char>,
    d: Seq<char>,
    post: Seq<char>,
)
    requires
        forall|k: int| 0 <= k < pre.len() ==> !is_digit(#[trigger] pre[k]),
        is_component(a),
        is_component(b),
        is_component(c),
        d.len() == 0 || is_component(d),
        post.len() == 0 || !is_digit(post[0]),
        d.len() == 0 && post.len() > 1 && post[0] == '.' ==> !is_digit(post[1]),
    ensures
        extracted_version(pre + dotted_token(a, b, c, d) + post) == Some(dotted_token(a, b, c, d)),
{
    lemma_dot_not_digit();
    let tok = dotted_token(a, b, c, d);
    let s = pre + tok + post;
    let n = s.len() as int;
    let p = pre.len() as int;
    let j = p + a.len() + 1;
    let q = j + b.len() + 1;
    let e = q + c.len();
    lemma_token_layout(a, b, c, d);
    assert forall|k: int| 0 <= k < tok.len() implies s[p + k] == #[trigger] tok[k] by {}
    assert forall|k: int| 0 <= k < post.len() implies s[p + tok.len() + k] == #[trigger] post[k] by {}
    assert forall|k: int| p <= k < p + a.len() implies is_digit(#[trigger] s[k]) by {
        assert(s[p + (k - p)] == tok[k - p]);
        assert(a[k - p] == tok[k - p]);
    }
    assert(s[p + a.len()] == '.') by {
        assert(s[p + a.len()] == tok[a.len() as int]);
    }
    lemma_digit_run_exact(s, p, a.len() as int);
    assert forall|k: int| j <= k < j + b.len() implies is_digit(#[trigger] s[k]) by {
        assert(s[p + (k - p)] == tok[k - p]);
        assert(b[k - j] == tok[(a.len() + 1) + (k - j)]);
    }
    assert(s[j + b.len()] == '.') by {
        assert(s[p + (j + b.len() - p)] == tok[j + b.len() - p]);
    }
    lemma_digit_run_exact(s, j, b.len() as int);
    assert forall|k: int| q <= k < e implies is_digit(#[trigger] s[k]) by {
        assert(s[p + (k - p)] == tok[k - p]);
        assert(c[k - q] == tok[(q - p) + (k - q)]);
    }
    if d.len() == 0 {
        if post.len() > 0 {
            assert(s[e] == post[0]) by {
                assert(s[p + tok.len() + 0] == post[0]);
            }
        }
        lemma_digit_run_exact(s, q, c.len() as int);
        if e < n && s[e] == '.' {
            if post.len() > 1 {
                assert(s[e + 1] == post[1]) by {
                    assert(s[p + tok.len() + 1] == post[1]);
                }
            }
            assert(digit_run(s, e + 1) == 0);
        }
        assert(triple_end(s, p) == e);
    } else {
        assert(s[e] == '.') by {
            assert(s[p + (e - p)] == tok[e - p]);
        }
        lemma_digit_run_exact(s, q, c.len() as int);
        let f = e + 1 + d.len();
        assert forall|k: int| e + 1 <= k < f implies is_digit(#[trigger] s[k]) by {
            assert(s[p + (k - p)] == tok[k - p]);
            assert(d[k - e - 1] == tok[(e - p) + 1 + (k - e - 1)]);
        }
        if post.len() > 0 {
            assert(s[f] == post[0]) by {
                assert(s[p + tok.len() + 0] == post[0]);
            }
        }
        lemma_digit_run_exact(s, e + 1, d.len() as int);
        assert(triple_end(s, p) == f);
    }
    assert(triple_pred(s)(p));
    assert forall|k: int| 0 <= k < p implies !#[trigger] triple_pred(s)(k) by {
        assert(s[k] == pre[k]);
    }
    lemma_first_from_exact(n, p, triple_pred(s));
    assert(s.subrange(p, triple_end(s, p)) =~= tok);
}

/// The run of digits at `i` ends at the end of the text or before a
/// character that is not a digit.
pub proof fn lemma_digit_run_stop(s: Seq<char>, i: int)
    requires
        0 <= i,
    ensures
        i + digit_run(s, i) >= s.len() || !is_digit(s[i + digit_run(s, i)]),
    decreases s.len() - i,
{
    if 0 <= i < s.len() && is_digit(s[i]) {
        lemma_digit_run_stop(s, i + 1);
    }
}

/// A run of digits that ends within `s[i..e]` is the same run there.
proof fn lemma_run_in_range(s: Seq<char>, i: int, e: int, j: int)
    requires
        0 <= i <= j <= e <= s.len(),
        j + digit_run(s, j) <= e,
    ensures
        digit_run(s.subrange(i, e), j - i) == digit_run(s, j),
    decreases e - j,
{
    let t = s.subrange(i, e);
    if j < e && is_digit(s[j]) {
        assert(t[j - i] == s[j]);
        lemma_run_in_range(s, i, e, j + 1);
    } else if j < e {
        assert(t[j - i] == s[j]);
    }
}

/// A version token on its own: `D.D.D`, `D.D.D.D` or `D.D`, each `D` a whole
/// run of one to five digits.
pub open spec fn is_version_token(v: Seq<char>) -> bool {
    ||| triple_at(v, 0) && triple_end(v, 0) == v.len()
    ||| pair_at(v, 0) && pair_end(v, 0) == v.len()
}

/// `v` occurs in `s` at `i` with no digit just before or just after it.
pub open spec fn bounded_occurrence(s: Seq<char>, v: Seq<char>, i: int) -> bool {
    &&& occurs_at(s, v, i)
    &&& run_start(s, i)
    &&& (i + v.len() >= s.len() || !is_digit(s[i + v.len()]))
}

/// Where the extracted token starts: at the leftmost three- or four-part
/// token, else at the leftmost two-part one.
pub open spec fn extracted_start(s: Seq<char>) -> int {
    match first_from(s.len() as int, 0, triple_pred(s)) {
        Some(i) => i,
        None => first_from(s.len() as int, 0, pair_pred(s))->0,
    }
}

/// An extracted token occurs in the text with no digit just before or just
/// after it, so it is never cut out of a longer run of digits, and it is a
/// version token on its own. Nothing is extracted only when no two-part
/// token `D.D` occurs.
pub proof fn lemma_extracted_bounded(s: Seq<char>)
    ensures
        extracted_version(s) is Some ==> bounded_occurrence(
            s,
            extracted_version(s)->0,
            extracted_start(s),
        ),
        extracted_version(s) is Some ==> is_version_token(extracted_version(s)->0),
        extracted_version(s) is None ==> forall|i: int| 0 <= i < s.len() ==> !#[trigger] pair_at(s, i),
{
    assert forall|i: int| 0 <= i < s.len() && #[trigger] pair_at(s, i) implies first_from(
        s.len() as int,
        0,
        pair_pred(s),
    ) is Some by {
        assert(pair_pred(s)(i));
        lemma_first_from_some(s.len() as int, 0, i, pair_pred(s));
    }
    let n = s.len() as int;
    lemma_prefixed_patterns_subsumed(s);
    if first_from(n, 0, triple_pred(s)) is Some {
        lemma_first_from_found(n, 0, triple_pred(s));
        let i = first_from(n, 0, triple_pred(s))->0;
        assert(triple_at(s, i));
        let k = after_dot(s, after_dot(s, i));
        let e = k + digit_run(s, k);
        lemma_digit_run_bound(s, k);
        lemma_digit_run_stop(s, k);
        if e < n && s[e] == '.' && component_at(s, e + 1) {
            lemma_digit_run_bound(s, e + 1);
            lemma_digit_run_stop(s, e + 1);
        }
        let v = s.subrange(i, triple_end(s, i));
        let end = triple_end(s, i);
        let j = after_dot(s, i);
        lemma_digit_run_bound(s, i);
        lemma_digit_run_bound(s, j);
        lemma_run_in_range(s, i, end, i);
        assert(v[digit_run(s, i) as int] == s[i + digit_run(s, i)]);
        lemma_run_in_range(s, i, end, j);
        assert(v[j - i + digit_run(s, j)] == s[j + digit_run(s, j)]);
        lemma_run_in_range(s, i, end, k);
        if e < n && s[e] == '.' && component_at(s, e + 1) {
            assert(v[e - i] == s[e]);
            lemma_run_in_range(s, i, end, e + 1);
        }
        assert(triple_at(v, 0));
        assert(triple_end(v, 0) == v.len());
        assert(s.subrange(i, i + v.len()) == v);
        assert(bounded_occurrence(s, v, i));
        assert(extracted_version(s) == Some(v));
        assert(bounded_occurrence(s, extracted_version(s)->0, i));
    } else if first_from(n, 0, pair_pred(s)) is Some {
        lemma_first_from_found(n, 0, pair_pred(s));
        let i = first_from(n, 0, pair_pred(s))->0;
        assert(pair_at(s, i));
        lemma_digit_run_bound(s, after_dot(s, i));
        lemma_digit_run_stop(s, after_dot(s, i));
        let v = s.subrange(i, pair_end(s, i));
        let end = pair_end(s, i);
        let j = after_dot(s, i);
        lemma_digit_run_bound(s, i);
        lemma_run_in_range(s, i, end, i);
        assert(v[digit_run(s, i) as int] == s[i + digit_run(s, i)]);
        lemma_run_in_range(s, i, end, j);
        assert(pair_at(v, 0));
        assert(s.subrange(i, i + v.len()) == v);
        assert(bounded_occurrence(s, v, i));
        assert(first_from(n, 0, v_triple_pred(s)) is None);
        assert(first_from(n, 0, word_triple_pred(s)) is None);
        assert(extracted_version(s) == Some(v));
        assert(bounded_occurrence(s, extracted_version(s)->0, i));
    } else {
        assert(first_from(n, 0, v_triple_pred(s)) is None);
        assert(first_from(n, 0, word_triple_pred(s)) is None);
        assert(extracted_version(s) is None);
    }
}

/// Length of the run of digits at `i`.
fn digit_run_exec(s: &Vec<char>, i: usize) -> (r: usize)
    requires
        i <= s@.len(),
    ensures
        r == digit_run(s@, i as int),
        i + r <= s@.len(),
{
    let n = s.len();
    let mut j: usize = i;
    while j < n && is_digit_exec(s[j])
        invariant
            n == s@.len(),
            i <= j <= n,
            digit_run(s@, i as int) == (j - i) + digit_run(s@, j as int),
        decreases n - j,
    {
        j = j + 1;
    }
    j - i
}

/// The index past the `.` when a dotted component starts at `i`.
fn dotted_exec(s: &Vec<char>, i: usize) -> (r: Option<usize>)
    requires
        i <= s@.len(),
    ensures
        r is Some <==> dotted_at(s@, i as int),
        r matches Some(j) ==> j == after_dot(s@, i as int) && j <= s@.len(),
{
    let len = s.len();
    let n = digit_run_exec(s, i);
    if 1 <= n && n <= 5 && i + n < s.len() && s[i + n] == '.' {
        Some(i + n + 1)
    } else {
        None
    }
}

/// The end of the three- or four-part token at `i`, if there is one.
fn triple_exec(s: &Vec<char>, i: usize) -> (r: Option<usize>)
    requires
        i <= s@.len(),
    ensures
        r is Some <==> triple_at(s@, i as int),
        r matches Some(e) ==> e == triple_end(s@, i as int) && e <= s@.len(),
{
    let len = s.len();
    if i > 0 && is_digit_exec(s[i - 1]) {
        return None;
    }
    let j = match dotted_exec(s, i) {
        Some(j) => j,
        None => return None,
    };
    let k = match dotted_exec(s, j) {
        Some(k) => k,
        None => return None,
    };
    let c = digit_run_exec(s, k);
    if c == 0 || c > 5 {
        return None;
    }
    let e = k + c;
    if e < len && s[e] == '.' {
        let d = digit_run_exec(s, e + 1);
        if 1 <= d && d <= 5 {
            return Some(e + 1 + d);
        }
    }
    Some(e)
}

/// The end of the two-part token at `i`, if there is one.
fn pair_exec(s: &Vec<char>, i: usize) -> (r: Option<usize>)
    requires
        i <= s@.len(),
    ensures
        r is Some <==> pair_at(s@, i as int),
        r matches Some(e) ==> e == pair_end(s@, i as int) && e <= s@.len(),
{
    let len = s.len();
    if i > 0 && is_digit_exec(s[i - 1]) {
        return None;
    }
    let j = match dotted_exec(s, i) {
        Some(j) => j,
        None => return None,
    };
    let c = digit_run_exec(s, j);
    if c == 0 || c > 5 {
        None
    } else {
        Some(j + c)
    }
}

/// The leftmost three- or four-part token, as start and end.
fn first_triple(s: &Vec<char>) -> (r: Option<(usize, usize)>)
    ensures
        r is None <==> first_from(s@.len() as int, 0, triple_pred(s@)) is None,
        r matches Some((i, e)) ==> first_from(s@.len() as int, 0, triple_pred(s@)) == Some(i as int)
            && e == triple_end(s@, i as int),
        r matches Some((i, e)) ==> i <= e <= s@.len(),
{
    let n = s.len();
    let mut i: usize = 0;
    while i < n
        invariant
            n == s@.len(),
            i <= n,
            first_from(n as int, 0, triple_pred(s@)) == first_from(n as int, i as int, triple_pred(s@)),
        decreases n - i,
    {
        if let Some(e) = triple_exec(s, i) {
            assert(triple_pred(s@)(i as int));
            proof {
                lemma_digit_run_bound(s@, i as int);
            }
            return Some((i, e));
        }
        assert(!triple_pred(s@)(i as int));
        i = i + 1;
    }
    None
}

/// The leftmost two-part token, as start and end.
fn first_pair(s: &Vec<char>) -> (r: Option<(usize, usize)>)
    ensures
        r is None <==> first_from(s@.len() as int, 0, pair_pred(s@)) is None,
        r matches Some((i, e)) ==> first_from(s@.len() as int, 0, pair_pred(s@)) == Some(i as int)
            && e == pair_end(s@, i as int),
        r matches Some((i, e)) ==> i <= e <= s@.len(),
{
    let n = s.len();
    let mut i: usize = 0;
    while i < n
        invariant
            n == s@.len(),
            i <= n,
            first_from(n as int, 0, pair_pred(s@)) == first_from(n as int, i as int, pair_pred(s@)),
        decreases n - i,
    {
        if let Some(e) = pair_exec(s, i) {
            assert(pair_pred(s@)(i as int));
            return Some((i, e));
        }
        assert(!pair_pred(s@)(i as int));
        i = i + 1;
    }
    None
}

/// The version token of `s`, or `None` when no pattern matches.
pub fn extract_version_from_string(s: &str) -> (r: Option<String>)
    ensures
        r is Some <==> extracted_version(s@) is Some,
        r matches Some(v) ==> v@ == extracted_version(s@)->0,
        r matches Some(v) ==> bounded_occurrence(s@, v@, extracted_start(s@)),
        r matches Some(v) ==> is_version_token(v@),
        r is None ==> forall|i: int| 0 <= i < s@.len() ==> !#[trigger] pair_at(s@, i),
{
    let cs = chars_of(s);
    proof {
        lemma_prefixed_patterns_subsumed(s@);
        lemma_extracted_bounded(s@);
    }
    if let Some((i, e)) = first_triple(&cs) {
        return Some(String::from_str(s.substring_char(i, e)));
    }
    if let Some((i, e)) = first_pair(&cs) {
        return Some(String::from_str(s.substring_char(i, e)));
    }
    None
}

} // verus!

verus! {

/// Whether semver's `Version::parse` accepts the text.
pub uninterp spec fn semver_valid(s: Seq<char>) -> bool;

/// How semver orders the versions parsed from two accepted texts.
pub uninterp spec fn semver_order(a: Seq<char>, b: Seq<char>) -> core::cmp::Ordering;

/// Relies on `semver::Version::parse`, which accepts or rejects a text on its
/// characters alone, and on the `Ord` of `semver::Version` (derived: major,
/// minor, patch, pre-release, build), under which a version equals itself.
#[verifier::external_body]
pub(crate) fn compare_semver(a: &str, b: &str) -> (r: Option<core::cmp::Ordering>)
    ensures
        r is Some <==> (semver_valid(a@) && semver_valid(b@)),
        r is Some ==> r->0 == semver_order(a@, b@),
        (semver_valid(a@) && a@ == b@) ==> r == Some(core::cmp::Ordering::Equal),
{
    match (semver::Version::parse(a), semver::Version::parse(b)) {
        (Ok(x), Ok(y)) => Some(x.cmp(&y)),
        _ => None,
    }
}

/// `latest` is a newer version than `current`: never when the texts are
/// equal; by semantic-version order when both parse; else whenever they differ.
pub open spec fn newer_version(current: Seq<char>, latest: Seq<char>) -> bool {
    &&& current != latest
    &&& semver_valid(current) && semver_valid(latest) ==> semver_order(latest, current)
        == core::cmp::Ordering::Greater
}

/// Whether an application at `current` (if installed) needs `latest` (if known).
pub open spec fn update_needed(current: Option<Seq<char>>, latest: Option<Seq<char>>) -> bool {
    match (current, latest) {
        (_, None) => false,
        (None, Some(_)) => true,
        (Some(c), Some(l)) => newer_version(c, l),
    }
}

/// Whether `latest` is newer than `current`; see `newer_version`.
pub fn is_newer_version(current: &str, latest: &str) -> (r: bool)
    ensures
        r == newer_version(current@, latest@),
{
    match compare_semver(latest, current) {
        Some(o) => match o {
            core::cmp::Ordering::Greater => true,
            _ => false,
        },
        None => {
            let a = chars_of(current);
            let b = chars_of(latest);
            !crate::text::seq_equal(&a, &b)
        },
    }
}

/// Whether an update is needed: never without a latest version, always for a
/// fresh install, else when `latest` is newer.
pub fn needs_update(current: Option<&str>, latest: Option<&str>) -> (r: bool)
    ensures
        r == update_needed(
            match current {
                Some(c) => Some(c@),
                None => None,
            },
            match latest {
                Some(l) => Some(l@),
                None => None,
            },
        ),
{
    match (current, latest) {
        (_, None) => false,
        (None, Some(_)) => true,
        (Some(c), Some(l)) => is_newer_version(c, l),
    }
}

/// No update is needed when both versions are the same text, whether or not
/// it parses as a semantic version; one is needed when both parse and the
/// latest orders after the current; none is needed when the latest is unknown.
pub proof fn lemma_update_needed_laws(current: Option<Seq<char>>, latest: Option<Seq<char>>)
    ensures
        current is Some && current == latest ==> !update_needed(current, latest),
        (current matches Some(c) && latest matches Some(l) && c != l && semver_valid(c)
            && semver_valid(l) && semver_order(l, c) == core::cmp::Ordering::Greater)
            ==> update_needed(current, latest),
        latest is None ==> !update_needed(current, latest),
{
}

} // verus!
