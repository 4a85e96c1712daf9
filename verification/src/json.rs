//! Decoding of the quote response body.
//!
//! The quote service answers with a JSON array of flat records, for example
//! `[{"r030": 840, "txt": "Dollar", "rate": 37.5, "cc": "USD"}]`. Only the
//! `rate` member of the first record is consumed. This module defines that
//! shape as a grammar over character sequences and implements a verified
//! scanner for it: a body decodes successfully exactly when it is a non-empty
//! array of such records, each carrying a numeric `rate` member, and the
//! result is the first record's `rate` token, character for character.
//!
//! The grammar covers the shapes the quote service produces: record members
//! may be strings (with backslash escapes), numbers, `true`, `false` or
//! `null`; records are not nested.

use vstd::prelude::*;

verus! {

/// JSON insignificant whitespace.
pub open spec fn spec_is_ws(c: char) -> bool {
    c == ' ' || c == '\t' || c == '\n' || c == '\r'
}

/// ASCII decimal digit.
pub open spec fn spec_is_digit(c: char) -> bool {
    '0' <= c && c <= '9'
}

/// First index at or after `i` that does not hold whitespace.
pub open spec fn spec_skip_ws(s: Seq<char>, i: int) -> int
    decreases s.len() - i,
{
    if 0 <= i && i < s.len() && spec_is_ws(s[i]) {
        spec_skip_ws(s, i + 1)
    } else {
        i
    }
}

/// With `i` just after an opening quote: the index just after the closing
/// quote of the string, if the string is terminated. A backslash makes the
/// following character part of the string.
pub open spec fn spec_string_end(s: Seq<char>, i: int) -> Option<int>
    decreases s.len() - i,
{
    if i < 0 || i >= s.len() {
        None
    } else if s[i] == '"' {
        Some(i + 1)
    } else if s[i] == '\\' {
        if i + 1 < s.len() {
            spec_string_end(s, i + 2)
        } else {
            None
        }
    } else {
        spec_string_end(s, i + 1)
    }
}

/// First index at or after `i` that does not hold a digit.
pub open spec fn spec_digits_end(s: Seq<char>, i: int) -> int
    decreases s.len() - i,
{
    if 0 <= i && i < s.len() && spec_is_digit(s[i]) {
        spec_digits_end(s, i + 1)
    } else {
        i
    }
}

/// End of the fraction-and-exponent tail of a number whose integer part ends
/// at `k`.
pub open spec fn spec_number_tail_end(s: Seq<char>, k: int) -> Option<int> {
    let p = if k < s.len() && s[k] == '.' {
        if k + 1 < s.len() && spec_is_digit(s[k + 1]) {
            Some(spec_digits_end(s, k + 1))
        } else {
            None
        }
    } else {
        Some(k)
    };
    match p {
        None => None,
        Some(p) => if p < s.len() && (s[p] == 'e' || s[p] == 'E') {
            let q = if p + 1 < s.len() && (s[p + 1] == '+' || s[p + 1] == '-') {
                p + 2
            } else {
                p + 1
            };
            if q < s.len() && spec_is_digit(s[q]) {
                Some(spec_digits_end(s, q))
            } else {
                None
            }
        } else {
            Some(p)
        },
    }
}

/// With `i` at the first character of a JSON number: the index just after the
/// number token, if one starts at `i`. A zero integer part is a single digit,
/// as JSON demands.
pub open spec fn spec_number_end(s: Seq<char>, i: int) -> Option<int> {
    let j = if 0 <= i && i < s.len() && s[i] == '-' {
        i + 1
    } else {
        i
    };
    if 0 <= j && j < s.len() && spec_is_digit(s[j]) {
        let k = if s[j] == '0' {
            j + 1
        } else {
            spec_digits_end(s, j)
        };
        spec_number_tail_end(s, k)
    } else {
        None
    }
}

/// A complete JSON number token.
pub open spec fn spec_is_number_token(t: Seq<char>) -> bool {
    spec_number_end(t, 0) == Some(t.len() as int)
}

/// With `i` at the first character of `true`, `false` or `null`: the index
/// just after the keyword.
pub open spec fn spec_keyword_end(s: Seq<char>, i: int) -> Option<int> {
    if 0 <= i && i + 4 <= s.len() && s[i] == 't' && s[i + 1] == 'r' && s[i + 2] == 'u' && s[i + 3]
        == 'e' {
        Some(i + 4)
    } else if 0 <= i && i + 5 <= s.len() && s[i] == 'f' && s[i + 1] == 'a' && s[i + 2] == 'l' && s[
        i + 3
    ] == 's' && s[i + 4] == 'e' {
        Some(i + 5)
    } else if 0 <= i && i + 4 <= s.len() && s[i] == 'n' && s[i + 1] == 'u' && s[i + 2] == 'l' && s[
        i + 3
    ] == 'l' {
        Some(i + 4)
    } else {
        None
    }
}

/// With `i` at the first character of a member value: the index just after the
/// value. Record values are flat: a string, a number, or a keyword.
pub open spec fn spec_value_end(s: Seq<char>, i: int) -> Option<int> {
    if 0 <= i && i < s.len() && s[i] == '"' {
        spec_string_end(s, i + 1)
    } else if 0 <= i && i < s.len() && (s[i] == '-' || spec_is_digit(s[i])) {
        spec_number_end(s, i)
    } else {
        spec_keyword_end(s, i)
    }
}

/// The raw key text of the string from `a` to `b` is exactly `rate`.
pub open spec fn spec_is_rate_key(s: Seq<char>, a: int, b: int) -> bool {
    b - a == 4 && 0 <= a && b <= s.len() && s[a] == 'r' && s[a + 1] == 'a' && s[a + 2] == 't' && s[
        a + 3
    ] == 'e'
}

/// With `i` at the opening quote of a member key: the index just after the
/// member's value, paired with the value's token range when the key is `rate`.
/// A `rate` member whose value is not a number does not decode.
pub open spec fn spec_member_end(s: Seq<char>, i: int) -> Option<(int, Option<(int, int)>)> {
    if 0 <= i && i < s.len() && s[i] == '"' {
        match spec_string_end(s, i + 1) {
            None => None,
            Some(kend) => {
                let j = spec_skip_ws(s, kend);
                if j < s.len() && s[j] == ':' {
                    let k = spec_skip_ws(s, j + 1);
                    if spec_is_rate_key(s, i + 1, kend - 1) {
                        match spec_number_end(s, k) {
                            None => None,
                            Some(ve) => Some((ve, Some((k, ve)))),
                        }
                    } else {
                        match spec_value_end(s, k) {
                            None => None,
                            Some(ve) => Some((ve, None)),
                        }
                    }
                } else {
                    None
                }
            },
        }
    } else {
        None
    }
}

/// Members of a record from `i` on, up to and past the closing brace. Returns
/// the index just after the brace and the token range of the first `rate`
/// member, `rate` carrying the range found so far.
pub open spec fn spec_members_end(s: Seq<char>, i: int, rate: Option<(int, int)>) -> Option<
    (int, Option<(int, int)>),
>
    decreases s.len() - i,
{
    match spec_member_end(s, i) {
        None => None,
        Some((e, r)) => {
            let rate2 = if rate is Some {
                rate
            } else {
                r
            };
            let j = spec_skip_ws(s, e);
            if j < s.len() && s[j] == ',' {
                let k = spec_skip_ws(s, j + 1);
                if i < k && k <= s.len() {
                    spec_members_end(s, k, rate2)
                } else {
                    None
                }
            } else if j < s.len() && s[j] == '}' {
                Some((j + 1, rate2))
            } else {
                None
            }
        },
    }
}

/// With `i` at the opening brace of a record: the index just after its closing
/// brace, and the token range of its first `rate` member, if any.
pub open spec fn spec_object_end(s: Seq<char>, i: int) -> Option<(int, Option<(int, int)>)> {
    if 0 <= i && i < s.len() && s[i] == '{' {
        let j = spec_skip_ws(s, i + 1);
        if j < s.len() && s[j] == '}' {
            Some((j + 1, None))
        } else {
            spec_members_end(s, j, None)
        }
    } else {
        None
    }
}

/// Records of the array from `i` on, up to and past the closing bracket.
/// Every record must carry a numeric `rate` member; the result pairs the index
/// just after the bracket with the first record's `rate` token range.
pub open spec fn spec_elements_end(s: Seq<char>, i: int) -> Option<(int, (int, int))>
    decreases s.len() - i,
{
    match spec_object_end(s, i) {
        None => None,
        Some((e, rate)) => match rate {
            None => None,
            Some(tok) => {
                let j = spec_skip_ws(s, e);
                if j < s.len() && s[j] == ',' {
                    let k = spec_skip_ws(s, j + 1);
                    if i < k && k <= s.len() {
                        match spec_elements_end(s, k) {
                            None => None,
                            Some((e2, _)) => Some((e2, tok)),
                        }
                    } else {
                        None
                    }
                } else if j < s.len() && s[j] == ']' {
                    Some((j + 1, tok))
                } else {
                    None
                }
            },
        },
    }
}

/// The `rate` token of the first record of the body, when the whole body is a
/// non-empty array of records each carrying a numeric `rate` member; `None`
/// when the body does not have that shape (an empty array included).
pub open spec fn spec_body_first_rate(s: Seq<char>) -> Option<Seq<char>> {
    let i = spec_skip_ws(s, 0);
    if i < s.len() && s[i] == '[' {
        let j = spec_skip_ws(s, i + 1);
        if j < s.len() && s[j] == ']' {
            None
        } else {
            match spec_elements_end(s, j) {
                None => None,
                Some((e, tok)) => {
                    if spec_skip_ws(s, e) == s.len() {
                        Some(s.subrange(tok.0, tok.1))
                    } else {
                        None
                    }
                },
            }
        }
    } else {
        None
    }
}

/// A digit run never moves backwards.
pub proof fn lemma_digits_end_ge(s: Seq<char>, i: int)
    ensures
        spec_digits_end(s, i) >= i,
    decreases s.len() - i,
{
    if 0 <= i && i < s.len() && spec_is_digit(s[i]) {
        lemma_digits_end_ge(s, i + 1);
    }
}

/// A digit run stays within the sequence.
pub proof fn lemma_digits_end_le(s: Seq<char>, i: int)
    requires
        i <= s.len(),
    ensures
        spec_digits_end(s, i) <= s.len(),
    decreases s.len() - i,
{
    if 0 <= i && i < s.len() && spec_is_digit(s[i]) {
        lemma_digits_end_le(s, i + 1);
    }
}

/// A digit run looks only at the window it ends in: it is the same run inside
/// the subrange from `k` to `ve`.
proof fn lemma_digits_end_window(s: Seq<char>, k: int, ve: int, x: int)
    requires
        0 <= k <= x <= ve <= s.len(),
        spec_digits_end(s, x) <= ve,
    ensures
        spec_digits_end(s.subrange(k, ve), x - k) == spec_digits_end(s, x) - k,
    decreases s.len() - x,
{
    lemma_digits_end_ge(s, x);
    if x < ve && spec_is_digit(s[x]) {
        lemma_digits_end_window(s, k, ve, x + 1);
    }
}

/// A number tail never moves backwards.
proof fn lemma_number_tail_ge(s: Seq<char>, x: int)
    requires
        spec_number_tail_end(s, x) is Some,
    ensures
        spec_number_tail_end(s, x)->0 >= x,
{
    if x < s.len() && s[x] == '.' {
        if x + 1 < s.len() && spec_is_digit(s[x + 1]) {
            lemma_digits_end_ge(s, x + 1);
            let p = spec_digits_end(s, x + 1);
            if p < s.len() && (s[p] == 'e' || s[p] == 'E') {
                lemma_digits_end_ge(s, p + 1);
                lemma_digits_end_ge(s, p + 2);
            }
        }
    } else {
        if x < s.len() && (s[x] == 'e' || s[x] == 'E') {
            lemma_digits_end_ge(s, x + 1);
            lemma_digits_end_ge(s, x + 2);
        }
    }
}

/// A number tail ending at `ve` reads the same inside the subrange from `k`
/// to `ve`.
proof fn lemma_number_tail_window(s: Seq<char>, k: int, ve: int, x: int)
    requires
        0 <= k <= x <= ve <= s.len(),
        spec_number_tail_end(s, x) == Some(ve),
    ensures
        spec_number_tail_end(s.subrange(k, ve), x - k) == Some(ve - k),
{
    let t = s.subrange(k, ve);
    if x < s.len() && s[x] == '.' {
        // fraction present: digits follow the point
        let p = spec_digits_end(s, x + 1);
        lemma_digits_end_ge(s, x + 2);
        if p < s.len() && (s[p] == 'e' || s[p] == 'E') {
            let q = if p + 1 < s.len() && (s[p + 1] == '+' || s[p + 1] == '-') {
                p + 2
            } else {
                p + 1
            };
            lemma_digits_end_ge(s, q + 1);
            lemma_digits_end_window(s, k, ve, x + 1);
            lemma_digits_end_window(s, k, ve, q);
        } else {
            lemma_digits_end_window(s, k, ve, x + 1);
        }
    } else {
        if x < s.len() && (s[x] == 'e' || s[x] == 'E') {
            let q = if x + 1 < s.len() && (s[x + 1] == '+' || s[x + 1] == '-') {
                x + 2
            } else {
                x + 1
            };
            lemma_digits_end_ge(s, q + 1);
            lemma_digits_end_window(s, k, ve, q);
        }
    }
}

/// A number token ending at `ve` is a complete number token on its own.
pub proof fn lemma_number_window(s: Seq<char>, k: int, ve: int)
    requires
        0 <= k <= s.len(),
        ve <= s.len(),
        spec_number_end(s, k) == Some(ve),
    ensures
        spec_is_number_token(s.subrange(k, ve)),
{
    let t = s.subrange(k, ve);
    let j = if 0 <= k && k < s.len() && s[k] == '-' {
        k + 1
    } else {
        k
    };
    let k1 = if s[j] == '0' {
        j + 1
    } else {
        spec_digits_end(s, j)
    };
    lemma_digits_end_ge(s, j + 1);
    lemma_digits_end_le(s, j);
    lemma_number_tail_ge(s, k1);
    if s[j] != '0' {
        lemma_digits_end_window(s, k, ve, j);
    }
    lemma_number_tail_window(s, k, ve, k1);
}

/// A token range, as mathematical integers.
pub open spec fn spec_of_range(t: Option<(usize, usize)>) -> Option<(int, int)> {
    match t {
        None => None,
        Some((a, b)) => Some((a as int, b as int)),
    }
}

/// A member result, as mathematical integers.
pub open spec fn spec_of_member(r: Option<(usize, Option<(usize, usize)>)>) -> Option<
    (int, Option<(int, int)>),
> {
    match r {
        None => None,
        Some((e, t)) => Some((e as int, spec_of_range(t))),
    }
}

fn is_ws(c: char) -> (r: bool)
    ensures
        r == spec_is_ws(c),
{
    c == ' ' || c == '\t' || c == '\n' || c == '\r'
}

fn is_digit(c: char) -> (r: bool)
    ensures
        r == spec_is_digit(c),
{
    '0' <= c && c <= '9'
}

fn skip_ws(s: &Vec<char>, i: usize) -> (r: usize)
    requires
        i <= s.len(),
    ensures
        r as int == spec_skip_ws(s@, i as int),
        i <= r <= s.len(),
    decreases s.len() - i,
{
    if i < s.len() && is_ws(s[i]) {
        skip_ws(s, i + 1)
    } else {
        i
    }
}

fn string_end(s: &Vec<char>, i: usize) -> (r: Option<usize>)
    requires
        i <= s.len(),
    ensures
        match r {
            Some(j) => spec_string_end(s@, i as int) == Some(j as int) && i < j <= s.len(),
            None => spec_string_end(s@, i as int) is None,
        },
    decreases s.len() - i,
{
    if i >= s.len() {
        None
    } else if s[i] == '"' {
        Some(i + 1)
    } else if s[i] == '\\' {
        if i + 1 < s.len() {
            string_end(s, i + 2)
        } else {
            None
        }
    } else {
        string_end(s, i + 1)
    }
}

fn digits_end(s: &Vec<char>, i: usize) -> (r: usize)
    requires
        i <= s.len(),
    ensures
        r as int == spec_digits_end(s@, i as int),
        i <= r <= s.len(),
    decreases s.len() - i,
{
    if i < s.len() && is_digit(s[i]) {
        digits_end(s, i + 1)
    } else {
        i
    }
}

fn number_tail_end(s: &Vec<char>, k: usize) -> (r: Option<usize>)
    requires
        k <= s.len(),
    ensures
        match r {
            Some(e) => spec_number_tail_end(s@, k as int) == Some(e as int) && k <= e <= s.len(),
            None => spec_number_tail_end(s@, k as int) is None,
        },
{
    let p: Option<usize> = if k < s.len() && s[k] == '.' {
        if k + 1 < s.len() && is_digit(s[k + 1]) {
            Some(digits_end(s, k + 1))
        } else {
            None
        }
    } else {
        Some(k)
    };
    match p {
        None => None,
        Some(p) => if p < s.len() && (s[p] == 'e' || s[p] == 'E') {
            let q: usize = if p + 1 < s.len() && (s[p + 1] == '+' || s[p + 1] == '-') {
                p + 2
            } else {
                p + 1
            };
            if q < s.len() && is_digit(s[q]) {
                Some(digits_end(s, q))
            } else {
                None
            }
        } else {
            Some(p)
        },
    }
}

fn number_end(s: &Vec<char>, i: usize) -> (r: Option<usize>)
    requires
        i <= s.len(),
    ensures
        match r {
            Some(e) => spec_number_end(s@, i as int) == Some(e as int) && i < e <= s.len(),
            None => spec_number_end(s@, i as int) is None,
        },
{
    let j: usize = if i < s.len() && s[i] == '-' {
        i + 1
    } else {
        i
    };
    if j < s.len() && is_digit(s[j]) {
        let k: usize = if s[j] == '0' {
            j + 1
        } else {
            digits_end(s, j)
        };
        proof {
            lemma_digits_end_ge(s@, j as int + 1);
        }
        number_tail_end(s, k)
    } else {
        None
    }
}

fn keyword_end(s: &Vec<char>, i: usize) -> (r: Option<usize>)
    requires
        i <= s.len(),
    ensures
        match r {
            Some(e) => spec_keyword_end(s@, i as int) == Some(e as int) && i < e <= s.len(),
            None => spec_keyword_end(s@, i as int) is None,
        },
{
    if s.len() - i >= 4 && s[i] == 't' && s[i + 1] == 'r' && s[i + 2] == 'u' && s[i + 3] == 'e' {
        Some(i + 4)
    } else if s.len() - i >= 5 && s[i] == 'f' && s[i + 1] == 'a' && s[i + 2] == 'l' && s[i + 3]
        == 's' && s[i + 4] == 'e' {
        Some(i + 5)
    } else if s.len() - i >= 4 && s[i] == 'n' && s[i + 1] == 'u' && s[i + 2] == 'l' && s[i + 3]
        == 'l' {
        Some(i + 4)
    } else {
        None
    }
}

fn value_end(s: &Vec<char>, i: usize) -> (r: Option<usize>)
    requires
        i <= s.len(),
    ensures
        match r {
            Some(e) => spec_value_end(s@, i as int) == Some(e as int) && i < e <= s.len(),
            None => spec_value_end(s@, i as int) is None,
        },
{
    if i < s.len() && s[i] == '"' {
        string_end(s, i + 1)
    } else if i < s.len() && (s[i] == '-' || is_digit(s[i])) {
        number_end(s, i)
    } else {
        keyword_end(s, i)
    }
}

fn member_end(s: &Vec<char>, i: usize) -> (r: Option<(usize, Option<(usize, usize)>)>)
    requires
        i <= s.len(),
    ensures
        spec_member_end(s@, i as int) == spec_of_member(r),
        r matches Some((e, t)) ==> i < e <= s.len() && (t matches Some((a, b)) ==> a <= b
            <= s.len() && spec_number_end(s@, a as int) == Some(b as int)),
{
    if i < s.len() && s[i] == '"' {
        match string_end(s, i + 1) {
            None => None,
            Some(kend) => {
                let j: usize = skip_ws(s, kend);
                if j < s.len() && s[j] == ':' {
                    let k: usize = skip_ws(s, j + 1);
                    if kend - 1 - (i + 1) == 4 && s[i + 1] == 'r' && s[i + 2] == 'a' && s[i + 3]
                        == 't' && s[i + 4] == 'e' {
                        match number_end(s, k) {
                            None => None,
                            Some(ve) => Some((ve, Some((k, ve)))),
                        }
                    } else {
                        match value_end(s, k) {
                            None => None,
                            Some(ve) => Some((ve, None)),
                        }
                    }
                } else {
                    None
                }
            },
        }
    } else {
        None
    }
}

fn members_end(s: &Vec<char>, i: usize, rate: Option<(usize, usize)>) -> (r: Option<
    (usize, Option<(usize, usize)>),
>)
    requires
        i <= s.len(),
        rate matches Some((a, b)) ==> a <= b <= s.len() && spec_number_end(s@, a as int) == Some(
            b as int,
        ),
    ensures
        spec_members_end(s@, i as int, spec_of_range(rate)) == spec_of_member(r),
        r matches Some((e, t)) ==> i < e <= s.len() && (t matches Some((a, b)) ==> a <= b
            <= s.len() && spec_number_end(s@, a as int) == Some(b as int)),
    decreases s.len() - i,
{
    match member_end(s, i) {
        None => None,
        Some((e, mr)) => {
            let rate2: Option<(usize, usize)> = match rate {
                Some(p) => Some(p),
                None => mr,
            };
            let j: usize = skip_ws(s, e);
            if j < s.len() && s[j] == ',' {
                let k: usize = skip_ws(s, j + 1);
                if i < k {
                    members_end(s, k, rate2)
                } else {
                    None
                }
            } else if j < s.len() && s[j] == '}' {
                Some((j + 1, rate2))
            } else {
                None
            }
        },
    }
}

fn object_end(s: &Vec<char>, i: usize) -> (r: Option<(usize, Option<(usize, usize)>)>)
    requires
        i <= s.len(),
    ensures
        spec_object_end(s@, i as int) == spec_of_member(r),
        r matches Some((e, t)) ==> i < e <= s.len() && (t matches Some((a, b)) ==> a <= b
            <= s.len() && spec_number_end(s@, a as int) == Some(b as int)),
{
    if i < s.len() && s[i] == '{' {
        let j: usize = skip_ws(s, i + 1);
        if j < s.len() && s[j] == '}' {
            Some((j + 1, None))
        } else {
            members_end(s, j, None)
        }
    } else {
        None
    }
}

fn elements_end(s: &Vec<char>, i: usize) -> (r: Option<(usize, (usize, usize))>)
    requires
        i <= s.len(),
    ensures
        match r {
            Some((e, (a, b))) => spec_elements_end(s@, i as int) == Some(
                (e as int, (a as int, b as int)),
            ) && i < e <= s.len() && a <= b <= s.len() && spec_number_end(s@, a as int) == Some(
                b as int,
            ),
            None => spec_elements_end(s@, i as int) is None,
        },
    decreases s.len() - i,
{
    match object_end(s, i) {
        None => None,
        Some((e, rate)) => match rate {
            None => None,
            Some(tok) => {
                let j: usize = skip_ws(s, e);
                if j < s.len() && s[j] == ',' {
                    let k: usize = skip_ws(s, j + 1);
                    if i < k {
                        match elements_end(s, k) {
                            None => None,
                            Some((e2, _)) => Some((e2, tok)),
                        }
                    } else {
                        None
                    }
                } else if j < s.len() && s[j] == ']' {
                    Some((j + 1, tok))
                } else {
                    None
                }
            },
        },
    }
}

fn copy_range(s: &Vec<char>, a: usize, b: usize) -> (out: Vec<char>)
    requires
        a <= b <= s.len(),
    ensures
        out@ == s@.subrange(a as int, b as int),
{
    let mut out: Vec<char> = Vec::new();
    let mut i: usize = a;
    while i < b
        invariant
            a <= i <= b <= s.len(),
            out@ == s@.subrange(a as int, i as int),
        decreases b - i,
    {
        out.push(s[i]);
        proof {
            assert(out@ =~= s@.subrange(a as int, i as int + 1));
        }
        i = i + 1;
    }
    out
}

/// Decodes the quote body: the `rate` token of the first record, when the
/// whole body is a non-empty array of records each carrying a numeric `rate`
/// member.
pub fn body_first_rate(s: &Vec<char>) -> (r: Option<Vec<char>>)
    ensures
        match r {
            Some(t) => spec_body_first_rate(s@) == Some(t@) && spec_is_number_token(t@),
            None => spec_body_first_rate(s@) is None,
        },
{
    let i: usize = skip_ws(s, 0);
    if i < s.len() && s[i] == '[' {
        let j: usize = skip_ws(s, i + 1);
        if j < s.len() && s[j] == ']' {
            None
        } else {
            match elements_end(s, j) {
                None => None,
                Some((e, (a, b))) => {
                    if skip_ws(s, e) == s.len() {
                        proof {
                            lemma_number_window(s@, a as int, b as int);
                        }
                        Some(copy_range(s, a, b))
                    } else {
                        None
                    }
                },
            }
        }
    } else {
        None
    }
}

} // verus!

