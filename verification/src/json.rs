//! A strict reader for flat JSON objects.
//!
//! The line protocol of the classifier and the storage gateway's response
//! bodies are JSON objects whose members are strings and numbers. This
//! module defines exactly that grammar and a parser proved against it:
//! an object `{ "key": value, ... }` with optional surrounding whitespace,
//! string values with the standard escapes (`\uXXXX` limited to scalars of
//! the Basic Multilingual Plane), and decimal numbers without an exponent.
//! A number is read as a fraction in thousandths of one, clamped into the
//! unit interval: confidences are the only numbers this system interprets.
//!
//! Anything outside the grammar is rejected; the caller reports that as a
//! protocol error.

use vstd::prelude::*;
use crate::text::{space, first_non_space, lemma_first_non_space_bounds, chars_vec, push_char};

verus! {

/// Mathematical model of one member value.
pub enum ScalarModel {
    Text(Seq<char>),
    Frac(u32),
}

/// One member value: a string, or a number read as thousandths of one,
/// clamped into the unit interval (negative numbers read as zero).
#[derive(Debug, PartialEq)]
pub enum Scalar {
    Text(String),
    Frac(u32),
}

/// The model of one member value.
pub open spec fn scalar_model_of(v: Scalar) -> ScalarModel {
    match v {
        Scalar::Text(s) => ScalarModel::Text(s@),
        Scalar::Frac(m) => ScalarModel::Frac(m),
    }
}

impl View for Scalar {
    type V = ScalarModel;

    open spec fn view(&self) -> ScalarModel {
        scalar_model_of(*self)
    }
}

/// The models of a sequence of members, in order.
pub open spec fn member_models_of(s: Seq<(String, Scalar)>) -> Seq<(Seq<char>, ScalarModel)> {
    s.map_values(|p: (String, Scalar)| (p.0@, scalar_model_of(p.1)))
}

/// Decimal digit test.
pub open spec fn is_digit(c: char) -> bool {
    '0' <= c && c <= '9'
}

/// Value of a decimal digit.
pub open spec fn digit_val(c: char) -> int {
    (c as int) - 48
}

/// Value of a hexadecimal digit, if it is one.
pub open spec fn hex_val(c: char) -> Option<int> {
    if '0' <= c && c <= '9' {
        Some((c as int) - 48)
    } else if 'a' <= c && c <= 'f' {
        Some((c as int) - 87)
    } else if 'A' <= c && c <= 'F' {
        Some((c as int) - 55)
    } else {
        None
    }
}

/// Value of the four hexadecimal digits at `i`, if they are there.
pub open spec fn hex4(s: Seq<char>, i: int) -> Option<int> {
    if 0 <= i && i + 4 <= s.len() && hex_val(s[i]) is Some && hex_val(s[i + 1]) is Some && hex_val(
        s[i + 2],
    ) is Some && hex_val(s[i + 3]) is Some {
        Some(
            4096 * hex_val(s[i])->Some_0 + 256 * hex_val(s[i + 1])->Some_0 + 16 * hex_val(
                s[i + 2],
            )->Some_0 + hex_val(s[i + 3])->Some_0,
        )
    } else {
        None
    }
}

/// A code that a `\u` escape may denote: a scalar of the Basic
/// Multilingual Plane.
pub open spec fn bmp_scalar(v: int) -> bool {
    0 <= v < 0xD800 || 0xDFFF < v <= 0xFFFF
}

/// The character denoted by a single-letter escape, if any.
pub open spec fn esc_char(c: char) -> Option<char> {
    if c == '"' {
        Some('"')
    } else if c == '\\' {
        Some('\\')
    } else if c == '/' {
        Some('/')
    } else if c == 'n' {
        Some('\n')
    } else if c == 't' {
        Some('\t')
    } else if c == 'r' {
        Some('\r')
    } else if c == 'b' {
        Some('\u{8}')
    } else if c == 'f' {
        Some('\u{C}')
    } else {
        None
    }
}

/// Reads a string body beginning at `i` (just after the opening quote):
/// the decoded content and the index just after the closing quote.
pub open spec fn str_body(s: Seq<char>, i: int) -> Option<(Seq<char>, int)>
    decreases s.len() - i,
    when 0 <= i <= s.len()
{
    if i >= s.len() {
        None
    } else if s[i] == '"' {
        Some((Seq::empty(), i + 1))
    } else if s[i] == '\\' {
        if i + 1 < s.len() {
            if s[i + 1] == 'u' {
                if hex4(s, i + 2) is Some && i + 6 <= s.len() && bmp_scalar(hex4(s, i + 2)->Some_0) {
                    match str_body(s, i + 6) {
                        Some(rest) => Some(
                            (seq![(hex4(s, i + 2)->Some_0) as char] + rest.0, rest.1),
                        ),
                        None => None,
                    }
                } else {
                    None
                }
            } else if esc_char(s[i + 1]) is Some {
                match str_body(s, i + 2) {
                    Some(rest) => Some((seq![esc_char(s[i + 1])->Some_0] + rest.0, rest.1)),
                    None => None,
                }
            } else {
                None
            }
        } else {
            None
        }
    } else if ' ' > s[i] {
        None
    } else {
        match str_body(s, i + 1) {
            Some(rest) => Some((seq![s[i]] + rest.0, rest.1)),
            None => None,
        }
    }
}

/// A parsed string body ends after its opening position and within `s`.
pub proof fn lemma_str_body_bounds(s: Seq<char>, i: int)
    requires
        0 <= i <= s.len(),
        str_body(s, i) is Some,
    ensures
        i < str_body(s, i)->Some_0.1 <= s.len(),
    decreases s.len() - i,
{
    if i >= s.len() {
    } else if s[i] == '"' {
    } else if s[i] == '\\' {
        if s[i + 1] == 'u' {
            lemma_str_body_bounds(s, i + 6);
        } else {
            lemma_str_body_bounds(s, i + 2);
        }
    } else if ' ' > s[i] {
    } else {
        lemma_str_body_bounds(s, i + 1);
    }
}

/// First index at or after `i` that does not hold a decimal digit.
pub open spec fn digits_end(s: Seq<char>, i: int) -> int
    decreases s.len() - i,
    when 0 <= i <= s.len()
{
    if i < s.len() && is_digit(s[i]) {
        digits_end(s, i + 1)
    } else {
        i
    }
}

/// `digits_end` stays between `i` and the end of `s`, and everything
/// before it is a digit.
pub proof fn lemma_digits_end_bounds(s: Seq<char>, i: int)
    requires
        0 <= i <= s.len(),
    ensures
        i <= digits_end(s, i) <= s.len(),
        forall|k: int| i <= k < digits_end(s, i) ==> is_digit(#[trigger] s[k]),
    decreases s.len() - i,
{
    if i < s.len() && is_digit(s[i]) {
        lemma_digits_end_bounds(s, i + 1);
    }
}

/// Integer-part accumulator, capped at two: beyond one the exact value no
/// longer matters, since the fraction is clamped into the unit interval.
pub open spec fn int_cap_from(s: Seq<char>, i: int, end: int, acc: int) -> int
    decreases end - i,
    when i <= end
{
    if i >= end {
        acc
    } else {
        int_cap_from(
            s,
            i + 1,
            end,
            if acc * 10 + digit_val(s[i]) > 2 {
                2
            } else {
                acc * 10 + digit_val(s[i])
            },
        )
    }
}

/// Thousandths denoted by the fraction digits in `s[i..end]`, truncated
/// after the third digit.
pub open spec fn frac3(s: Seq<char>, i: int, end: int) -> int {
    if end - i >= 3 {
        100 * digit_val(s[i]) + 10 * digit_val(s[i + 1]) + digit_val(s[i + 2])
    } else if end - i == 2 {
        100 * digit_val(s[i]) + 10 * digit_val(s[i + 1])
    } else if end - i == 1 {
        100 * digit_val(s[i])
    } else {
        0
    }
}

/// Clamp a thousandths value into the unit interval.
pub open spec fn clamp_milli(v: int) -> int {
    if v > 1000 {
        1000
    } else {
        v
    }
}

/// Reads the number beginning at `i`: its clamped thousandths value and
/// its end. The shape is JSON's, without an exponent: an optional minus,
/// an integer part without a leading zero, an optional fraction.
pub open spec fn num_scan(s: Seq<char>, i: int) -> Option<(int, int)> {
    if 0 <= i < s.len() {
        let neg = s[i] == '-';
        let p = if neg {
            i + 1
        } else {
            i
        };
        if p < s.len() && is_digit(s[p]) {
            let e1 = digits_end(s, p);
            if s[p] == '0' && e1 > p + 1 {
                None
            } else {
                let iv = int_cap_from(s, p, e1, 0);
                if e1 < s.len() && s[e1] == '.' {
                    let e2 = digits_end(s, e1 + 1);
                    if e2 == e1 + 1 {
                        None
                    } else {
                        Some(
                            (
                                if neg {
                                    0
                                } else {
                                    clamp_milli(iv * 1000 + frac3(s, e1 + 1, e2))
                                },
                                e2,
                            ),
                        )
                    }
                } else {
                    Some(
                        (
                            if neg {
                                0
                            } else {
                                clamp_milli(iv * 1000)
                            },
                            e1,
                        ),
                    )
                }
            }
        } else {
            None
        }
    } else {
        None
    }
}

/// A parsed number ends after its start and within `s`.
pub proof fn lemma_num_scan_bounds(s: Seq<char>, i: int)
    requires
        0 <= i <= s.len(),
        num_scan(s, i) is Some,
    ensures
        i < num_scan(s, i)->Some_0.1 <= s.len(),
        0 <= num_scan(s, i)->Some_0.0 <= 1000,
{
    let neg = s[i] == '-';
    let p = if neg {
        i + 1
    } else {
        i
    };
    lemma_digits_end_bounds(s, p);
    let e1 = digits_end(s, p);
    if p < s.len() && is_digit(s[p]) {
        lemma_digits_end_bounds(s, p + 1);
        assert(digits_end(s, p) == digits_end(s, p + 1));
    }
    if e1 < s.len() && s[e1] == '.' {
        lemma_digits_end_bounds(s, e1 + 1);
    }
    lemma_int_cap_range(s, p, e1, 0);
}

/// Over digits, the capped accumulator stays within zero and two.
pub proof fn lemma_int_cap_range(s: Seq<char>, i: int, end: int, acc: int)
    requires
        i <= end,
        0 <= acc <= 2,
        forall|k: int| i <= k < end ==> is_digit(#[trigger] s[k]),
    ensures
        0 <= int_cap_from(s, i, end, acc) <= 2,
    decreases end - i,
{
    if i < end {
        let next = if acc * 10 + digit_val(s[i]) > 2 {
            2int
        } else {
            acc * 10 + digit_val(s[i])
        };
        lemma_int_cap_range(s, i + 1, end, next);
    }
}

/// Reads the member value beginning at `i`: a string or a number.
pub open spec fn scalar_scan(s: Seq<char>, i: int) -> Option<(ScalarModel, int)> {
    if 0 <= i < s.len() && s[i] == '"' {
        match str_body(s, i + 1) {
            Some(body) => Some((ScalarModel::Text(body.0), body.1)),
            None => None,
        }
    } else if 0 <= i < s.len() && (s[i] == '-' || is_digit(s[i])) {
        match num_scan(s, i) {
            Some(num) => Some((ScalarModel::Frac(num.0 as u32), num.1)),
            None => None,
        }
    } else {
        None
    }
}

/// A parsed member value ends after its start and within `s`.
pub proof fn lemma_scalar_scan_bounds(s: Seq<char>, i: int)
    requires
        0 <= i <= s.len(),
        scalar_scan(s, i) is Some,
    ensures
        i < scalar_scan(s, i)->Some_0.1 <= s.len(),
{
    if i < s.len() && s[i] == '"' {
        lemma_str_body_bounds(s, i + 1);
    } else {
        lemma_num_scan_bounds(s, i);
    }
}

/// Reads the members beginning at `i` (at an opening key quote), through
/// the closing brace: the members in order and the index after the brace.
pub open spec fn members(s: Seq<char>, i: int) -> Option<
    (Seq<(Seq<char>, ScalarModel)>, int),
>
    decreases s.len() - i,
    when 0 <= i <= s.len()
    via members_dec
{
    if i < s.len() && s[i] == '"' {
        match str_body(s, i + 1) {
            Some(key) => {
                let k = first_non_space(s, key.1);
                if k < s.len() && s[k] == ':' {
                    let v = first_non_space(s, k + 1);
                    match scalar_scan(s, v) {
                        Some(val) => {
                            let t = first_non_space(s, val.1);
                            if t < s.len() && s[t] == ',' {
                                let n = first_non_space(s, t + 1);
                                match members(s, n) {
                                    Some(rest) => Some(
                                        (seq![(key.0, val.0)] + rest.0, rest.1),
                                    ),
                                    None => None,
                                }
                            } else if t < s.len() && s[t] == '}' {
                                Some((seq![(key.0, val.0)], t + 1))
                            } else {
                                None
                            }
                        },
                        None => None,
                    }
                } else {
                    None
                }
            },
            None => None,
        }
    } else {
        None
    }
}

#[via_fn]
proof fn members_dec(s: Seq<char>, i: int) {
    if 0 <= i <= s.len() && i < s.len() && s[i] == '"' {
        if str_body(s, i + 1) is Some {
            lemma_str_body_bounds(s, i + 1);
            let j = str_body(s, i + 1)->Some_0.1;
            lemma_first_non_space_bounds(s, j);
            let k = first_non_space(s, j);
            if k < s.len() && s[k] == ':' {
                lemma_first_non_space_bounds(s, k + 1);
                let v = first_non_space(s, k + 1);
                if scalar_scan(s, v) is Some {
                    lemma_scalar_scan_bounds(s, v);
                    let e = scalar_scan(s, v)->Some_0.1;
                    lemma_first_non_space_bounds(s, e);
                    let t = first_non_space(s, e);
                    if t < s.len() && s[t] == ',' {
                        lemma_first_non_space_bounds(s, t + 1);
                    }
                }
            }
        }
    }
}

/// Relies on `char::from_u32`: every value below 0x110000 outside the
/// surrogate range denotes exactly one scalar.
#[verifier::external_body]
fn char_of_code(v: u32) -> (c: char)
    requires
        v < 0xD800 || (0xDFFF < v && v < 0x110000),
    ensures
        c as u32 == v,
{
    char::from_u32(v).unwrap()
}

/// First index at or after `i` without whitespace.
fn skip_ws(chars: &Vec<char>, i: usize) -> (j: usize)
    requires
        i <= chars@.len(),
    ensures
        j == first_non_space(chars@, i as int),
        i <= j <= chars@.len(),
{
    let mut j = i;
    while j < chars.len() && space(chars[j])
        invariant
            i <= j <= chars@.len(),
            first_non_space(chars@, i as int) == first_non_space(chars@, j as int),
        decreases chars@.len() - j,
    {
        j = j + 1;
    }
    j
}

/// First index at or after `i` without a decimal digit.
fn skip_digits(chars: &Vec<char>, i: usize) -> (j: usize)
    requires
        i <= chars@.len(),
    ensures
        j == digits_end(chars@, i as int),
        i <= j <= chars@.len(),
{
    let mut j = i;
    while j < chars.len() && '0' <= chars[j] && chars[j] <= '9'
        invariant
            i <= j <= chars@.len(),
            digits_end(chars@, i as int) == digits_end(chars@, j as int),
        decreases chars@.len() - j,
    {
        j = j + 1;
    }
    j
}

/// The value of one hexadecimal digit character, if it is one.
fn hex_digit(c: char) -> (r: Option<u32>)
    ensures
        (match hex_val(c) {
            Some(v) => r == Some(v as u32),
            None => r is None,
        }),
{
    if '0' <= c && c <= '9' {
        Some(c as u32 - 48)
    } else if 'a' <= c && c <= 'f' {
        Some(c as u32 - 87)
    } else if 'A' <= c && c <= 'F' {
        Some(c as u32 - 55)
    } else {
        None
    }
}

/// The value of the four hexadecimal digits at `i`, if they are there.
fn scan_hex4(chars: &Vec<char>, i: usize) -> (r: Option<u32>)
    requires
        i + 4 <= chars@.len(),
    ensures
        (match hex4(chars@, i as int) {
            Some(v) => r == Some(v as u32),
            None => r is None,
        }),
{
    proof {
        assert(chars.len() == chars@.len());
    }
    let h0 = hex_digit(chars[i]);
    let h1 = hex_digit(chars[i + 1]);
    let h2 = hex_digit(chars[i + 2]);
    let h3 = hex_digit(chars[i + 3]);
    match (h0, h1, h2, h3) {
        (Some(a), Some(b), Some(c), Some(d)) => Some(4096 * a + 256 * b + 16 * c + d),
        _ => None,
    }
}

/// The character denoted by a single-letter escape, if any.
fn escape_of(e: char) -> (r: Option<char>)
    ensures
        r == esc_char(e),
{
    if e == '"' {
        Some('"')
    } else if e == '\\' {
        Some('\\')
    } else if e == '/' {
        Some('/')
    } else if e == 'n' {
        Some('\n')
    } else if e == 't' {
        Some('\t')
    } else if e == 'r' {
        Some('\r')
    } else if e == 'b' {
        Some('\u{8}')
    } else if e == 'f' {
        Some('\u{C}')
    } else {
        None
    }
}

/// Reads a string body beginning at `start` (just after the opening
/// quote).
fn scan_string(chars: &Vec<char>, start: usize) -> (r: Option<(String, usize)>)
    requires
        start <= chars@.len(),
    ensures
        (match str_body(chars@, start as int) {
            Some(body) => r is Some && r->Some_0.0@ == body.0 && r->Some_0.1 == body.1,
            None => r is None,
        }),
{
    let ghost s = chars@;
    let mut acc = String::new();
    let mut j = start;
    loop
        invariant
            start <= j <= s.len(),
            chars@ == s,
            (match str_body(s, j as int) {
                Some(body) => str_body(s, start as int) == Some((acc@ + body.0, body.1)),
                None => str_body(s, start as int) is None,
            }),
        decreases s.len() - j,
    {
        if j >= chars.len() {
            return None;
        }
        let c = chars[j];
        if c == '"' {
            proof {
                assert(str_body(s, j as int) == Some((Seq::<char>::empty(), j + 1 as int)));
                assert(acc@ + Seq::<char>::empty() =~= acc@);
            }
            return Some((acc, j + 1));
        } else if c == '\\' {
            if j + 1 >= chars.len() {
                return None;
            }
            let e = chars[j + 1];
            if e == 'u' {
                if chars.len() - j < 6 {
                    return None;
                }
                match scan_hex4(chars, j + 2) {
                    None => {
                        return None;
                    },
                    Some(v) => {
                        if v < 0xD800 || (0xDFFF < v && v <= 0xFFFF) {
                            let d = char_of_code(v);
                            proof {
                                vstd::utf8::char_u32_cast(d, v);
                            }
                            let ghost old_acc = acc@;
                            push_char(&mut acc, d);
                            let ghost old_j = j as int;
                            j = j + 6;
                            proof {
                                assert(old_acc.push(d) =~= old_acc + seq![d]);
                                if str_body(s, j as int) is Some {
                                    let body = str_body(s, j as int)->Some_0;
                                    assert(str_body(s, old_j) == Some(
                                        (seq![d] + body.0, body.1),
                                    ));
                                    assert((old_acc + seq![d]) + body.0 =~= old_acc + (seq![d]
                                        + body.0));
                                }
                            }
                        } else {
                            return None;
                        }
                    },
                }
            } else {
                match escape_of(e) {
                    None => {
                        return None;
                    },
                    Some(d) => {
                        let ghost old_acc = acc@;
                        push_char(&mut acc, d);
                        let ghost old_j = j as int;
                        j = j + 2;
                        proof {
                            assert(old_acc.push(d) =~= old_acc + seq![d]);
                            if str_body(s, j as int) is Some {
                                let body = str_body(s, j as int)->Some_0;
                                assert(str_body(s, old_j) == Some((seq![d] + body.0, body.1)));
                                assert((old_acc + seq![d]) + body.0 =~= old_acc + (seq![d]
                                    + body.0));
                            }
                        }
                    },
                }
            }
        } else if ' ' > c {
            return None;
        } else {
            let ghost old_acc = acc@;
            push_char(&mut acc, c);
            let ghost old_j = j as int;
            j = j + 1;
            proof {
                assert(old_acc.push(c) =~= old_acc + seq![c]);
                if str_body(s, j as int) is Some {
                    let body = str_body(s, j as int)->Some_0;
                    assert(str_body(s, old_j) == Some((seq![c] + body.0, body.1)));
                    assert((old_acc + seq![c]) + body.0 =~= old_acc + (seq![c] + body.0));
                }
            }
        }
    }
}

/// Reads the number beginning at `i`.
fn scan_number(chars: &Vec<char>, i: usize) -> (r: Option<(u32, usize)>)
    requires
        i <= chars@.len(),
    ensures
        (match num_scan(chars@, i as int) {
            Some(num) => r is Some && r->Some_0.0 == num.0 as u32 && r->Some_0.1 == num.1,
            None => r is None,
        }),
{
    let ghost s = chars@;
    if i >= chars.len() {
        return None;
    }
    let neg = chars[i] == '-';
    let p = if neg {
        i + 1
    } else {
        i
    };
    if p >= chars.len() || !('0' <= chars[p] && chars[p] <= '9') {
        return None;
    }
    let e1 = skip_digits(chars, p);
    if chars[p] == '0' && e1 > p + 1 {
        return None;
    }
    proof {
        lemma_digits_end_bounds(s, p as int);
    }
    let mut iv: u32 = 0;
    let mut k = p;
    while k < e1
        invariant
            p <= k <= e1 <= s.len(),
            chars@ == s,
            iv <= 2,
            forall|t: int| p <= t < e1 ==> is_digit(#[trigger] s[t]),
            int_cap_from(s, p as int, e1 as int, 0) == int_cap_from(s, k as int, e1 as int, iv as int),
        decreases e1 - k,
    {
        let d = chars[k] as u32 - 48;
        iv = if iv * 10 + d > 2 {
            2
        } else {
            iv * 10 + d
        };
        k = k + 1;
    }
    if e1 < chars.len() && chars[e1] == '.' {
        let e2 = skip_digits(chars, e1 + 1);
        if e2 == e1 + 1 {
            return None;
        }
        proof {
            lemma_digits_end_bounds(s, e1 + 1 as int);
        }
        let f: u32 = if e2 - e1 >= 4 {
            100 * (chars[e1 + 1] as u32 - 48) + 10 * (chars[e1 + 2] as u32 - 48) + (chars[e1 + 3]
                as u32 - 48)
        } else if e2 - e1 == 3 {
            100 * (chars[e1 + 1] as u32 - 48) + 10 * (chars[e1 + 2] as u32 - 48)
        } else {
            100 * (chars[e1 + 1] as u32 - 48)
        };
        let milli = if neg {
            0
        } else if iv * 1000 + f > 1000 {
            1000
        } else {
            iv * 1000 + f
        };
        Some((milli, e2))
    } else {
        let milli = if neg {
            0
        } else if iv * 1000 > 1000 {
            1000
        } else {
            iv * 1000
        };
        Some((milli, e1))
    }
}

/// Reads the member value beginning at `i`.
fn scan_scalar(chars: &Vec<char>, i: usize) -> (r: Option<(Scalar, usize)>)
    requires
        i <= chars@.len(),
    ensures
        (match scalar_scan(chars@, i as int) {
            Some(val) => r is Some && scalar_model_of(r->Some_0.0) == val.0 && r->Some_0.1 == val.1,
            None => r is None,
        }),
{
    if i < chars.len() && chars[i] == '"' {
        match scan_string(chars, i + 1) {
            Some(body) => Some((Scalar::Text(body.0), body.1)),
            None => None,
        }
    } else if i < chars.len() && (chars[i] == '-' || ('0' <= chars[i] && chars[i] <= '9')) {
        match scan_number(chars, i) {
            Some(num) => Some((Scalar::Frac(num.0), num.1)),
            None => None,
        }
    } else {
        None
    }
}

/// Reads the members beginning at `i`, through the closing brace.
fn scan_members(chars: &Vec<char>, i: usize) -> (r: Option<(Vec<(String, Scalar)>, usize)>)
    requires
        i <= chars@.len(),
    ensures
        (match members(chars@, i as int) {
            Some(ms) => r is Some && member_models_of(r->Some_0.0@) == ms.0 && r->Some_0.1 == ms.1
                && ms.1 <= chars@.len(),
            None => r is None,
        }),
{
    let ghost s = chars@;
    let mut acc: Vec<(String, Scalar)> = Vec::new();
    let mut cur = i;
    proof {
        assert(member_models_of(acc@) =~= Seq::<(Seq<char>, ScalarModel)>::empty());
    }
    loop
        invariant
            i <= cur <= s.len(),
            chars@ == s,
            (match members(s, cur as int) {
                Some(ms) => members(s, i as int) == Some((member_models_of(acc@) + ms.0, ms.1)),
                None => members(s, i as int) is None,
            }),
        decreases s.len() - cur,
    {
        if !(cur < chars.len() && chars[cur] == '"') {
            return None;
        }
        let key = match scan_string(chars, cur + 1) {
            Some(body) => body,
            None => {
                return None;
            },
        };
        proof {
            lemma_str_body_bounds(s, cur + 1 as int);
        }
        let k = skip_ws(chars, key.1);
        if !(k < chars.len() && chars[k] == ':') {
            return None;
        }
        let v = skip_ws(chars, k + 1);
        let val = match scan_scalar(chars, v) {
            Some(val) => val,
            None => {
                return None;
            },
        };
        proof {
            lemma_scalar_scan_bounds(s, v as int);
        }
        let t = skip_ws(chars, val.1);
        let ghost old_cur = cur as int;
        let ghost old_acc = acc@;
        if t < chars.len() && chars[t] == ',' {
            acc.push((key.0, val.0));
            cur = skip_ws(chars, t + 1);
            proof {
                assert(member_models_of(acc@) =~= member_models_of(old_acc) + seq![
                    (acc@.last().0@, scalar_model_of(acc@.last().1)),
                ]);
                if members(s, cur as int) is Some {
                    let rest = members(s, cur as int)->Some_0;
                    assert(members(s, old_cur) == Some(
                        (
                            seq![(acc@.last().0@, scalar_model_of(acc@.last().1))] + rest.0,
                            rest.1,
                        ),
                    ));
                    assert((member_models_of(old_acc) + seq![
                        (acc@.last().0@, scalar_model_of(acc@.last().1)),
                    ]) + rest.0 =~= member_models_of(old_acc) + (seq![
                        (acc@.last().0@, scalar_model_of(acc@.last().1)),
                    ] + rest.0));
                }
            }
        } else if t < chars.len() && chars[t] == '}' {
            acc.push((key.0, val.0));
            proof {
                assert(member_models_of(acc@) =~= member_models_of(old_acc) + seq![
                    (acc@.last().0@, scalar_model_of(acc@.last().1)),
                ]);
                assert(members(s, old_cur) == Some(
                    (seq![(acc@.last().0@, scalar_model_of(acc@.last().1))], t + 1 as int),
                ));
            }
            return Some((acc, t + 1));
        } else {
            return None;
        }
    }
}

/// Reads a whole line as a flat object: optional whitespace, the object,
/// optional whitespace, end of input. Returns the members in order, or
/// nothing where the line falls outside the grammar.
pub fn parse_flat_object(line: &str) -> (r: Option<Vec<(String, Scalar)>>)
    ensures
        (match flat_object_of(line@) {
            Some(ms) => r is Some && member_models_of(r->Some_0@) == ms,
            None => r is None,
        }),
{
    let chars = chars_vec(line);
    let ghost s = chars@;
    let i = skip_ws(&chars, 0);
    if !(i < chars.len() && chars[i] == '{') {
        return None;
    }
    let j = skip_ws(&chars, i + 1);
    if j < chars.len() && chars[j] == '}' {
        let z = skip_ws(&chars, j + 1);
        if z == chars.len() {
            let empty: Vec<(String, Scalar)> = Vec::new();
            proof {
                assert(member_models_of(empty@) =~= Seq::<(Seq<char>, ScalarModel)>::empty());
            }
            return Some(empty);
        } else {
            return None;
        }
    }
    match scan_members(&chars, j) {
        Some(ms) => {
            let z = skip_ws(&chars, ms.1);
            if z == chars.len() {
                Some(ms.0)
            } else {
                None
            }
        },
        None => None,
    }
}

/// Reads a whole line as a flat object: optional whitespace, the object,
/// optional whitespace, end of input.
pub open spec fn flat_object_of(s: Seq<char>) -> Option<Seq<(Seq<char>, ScalarModel)>> {
    let i = first_non_space(s, 0);
    if i < s.len() && s[i] == '{' {
        let j = first_non_space(s, i + 1);
        if j < s.len() && s[j] == '}' {
            if first_non_space(s, j + 1) == s.len() {
                Some(Seq::empty())
            } else {
                None
            }
        } else {
            match members(s, j) {
                Some(ms) => {
                    if first_non_space(s, ms.1) == s.len() {
                        Some(ms.0)
                    } else {
                        None
                    }
                },
                None => None,
            }
        }
    } else {
        None
    }
}

/// How many members carry `k1` or `k2` as their key.
pub open spec fn key_hits(ms: Seq<(Seq<char>, ScalarModel)>, k1: Seq<char>, k2: Seq<char>) -> int
    decreases ms,
{
    if ms.len() == 0 {
        0
    } else {
        key_hits(ms.drop_last(), k1, k2) + if ms.last().0 == k1 || ms.last().0 == k2 {
            1int
        } else {
            0int
        }
    }
}

/// The value of the first member carrying `k1` or `k2` as its key.
pub open spec fn first_hit(ms: Seq<(Seq<char>, ScalarModel)>, k1: Seq<char>, k2: Seq<char>) -> Option<
    ScalarModel,
>
    decreases ms,
{
    if ms.len() == 0 {
        None
    } else {
        match first_hit(ms.drop_last(), k1, k2) {
            Some(v) => Some(v),
            None => {
                if ms.last().0 == k1 || ms.last().0 == k2 {
                    Some(ms.last().1)
                } else {
                    None
                }
            },
        }
    }
}

/// The value under `k1` or `k2` where exactly one member carries one of
/// the two keys; aliases count together, as a duplicate does.
pub open spec fn unique_hit(
    ms: Seq<(Seq<char>, ScalarModel)>,
    k1: Seq<char>,
    k2: Seq<char>,
) -> Option<ScalarModel> {
    if key_hits(ms, k1, k2) == 1 {
        first_hit(ms, k1, k2)
    } else {
        None
    }
}

/// Hits over a prefix never exceed hits over the whole.
proof fn lemma_key_hits_prefix(ms: Seq<(Seq<char>, ScalarModel)>, i: int, k1: Seq<char>, k2: Seq<char>)
    requires
        0 <= i <= ms.len(),
    ensures
        key_hits(ms.subrange(0, i), k1, k2) <= key_hits(ms, k1, k2),
        key_hits(ms.subrange(0, i), k1, k2) >= 0,
    decreases ms.len() - i,
{
    if i == ms.len() {
        assert(ms.subrange(0, i) =~= ms);
        lemma_key_hits_nonneg(ms, k1, k2);
    } else {
        lemma_key_hits_prefix(ms, i + 1, k1, k2);
        lemma_key_hits_nonneg(ms.subrange(0, i), k1, k2);
        assert(ms.subrange(0, i + 1).drop_last() =~= ms.subrange(0, i));
        assert(ms.subrange(0, i + 1).last() == ms[i]);
    }
}

/// Hit counts are never negative.
proof fn lemma_key_hits_nonneg(ms: Seq<(Seq<char>, ScalarModel)>, k1: Seq<char>, k2: Seq<char>)
    ensures
        key_hits(ms, k1, k2) >= 0,
    decreases ms,
{
    if ms.len() > 0 {
        lemma_key_hits_nonneg(ms.drop_last(), k1, k2);
    }
}

/// Finds the index of the single member keyed `k1` or `k2`, if exactly
/// one member is.
pub fn find_unique(ms: &Vec<(String, Scalar)>, k1: &str, k2: &str) -> (r: Option<usize>)
    ensures
        (match unique_hit(member_models_of(ms@), k1@, k2@) {
            Some(v) => r is Some && r->Some_0 < ms@.len() && scalar_model_of(
                ms@[r->Some_0 as int].1,
            ) == v,
            None => r is None,
        }),
{
    let ghost m = member_models_of(ms@);
    let mut idx: Option<usize> = None;
    let mut i: usize = 0;
    proof {
        assert(m.subrange(0, 0) =~= Seq::<(Seq<char>, ScalarModel)>::empty());
    }
    while i < ms.len()
        invariant
            i <= ms@.len(),
            m == member_models_of(ms@),
            m.len() == ms@.len(),
            (match idx {
                Some(j) => j < i && key_hits(m.subrange(0, i as int), k1@, k2@) == 1 && (
                ms@[j as int].0@ == k1@ || ms@[j as int].0@ == k2@) && first_hit(
                    m.subrange(0, i as int),
                    k1@,
                    k2@,
                ) == Some(scalar_model_of(ms@[j as int].1)),
                None => key_hits(m.subrange(0, i as int), k1@, k2@) == 0 && first_hit(
                    m.subrange(0, i as int),
                    k1@,
                    k2@,
                ) is None,
            }),
        decreases ms@.len() - i,
    {
        let hit = crate::text::str_eq(ms[i].0.as_str(), k1) || crate::text::str_eq(
            ms[i].0.as_str(),
            k2,
        );
        proof {
            assert(m.subrange(0, i + 1 as int).drop_last() =~= m.subrange(0, i as int));
            assert(m.subrange(0, i + 1 as int).last() == m[i as int]);
            assert(m[i as int] == (ms@[i as int].0@, scalar_model_of(ms@[i as int].1)));
        }
        if hit {
            match idx {
                None => {
                    idx = Some(i);
                },
                Some(_) => {
                    proof {
                        lemma_key_hits_prefix(m, i + 1 as int, k1@, k2@);
                    }
                    return None;
                },
            }
        }
        i = i + 1;
    }
    proof {
        assert(m.subrange(0, ms@.len() as int) =~= m);
    }
    idx
}

/// The text under `k1` or `k2`, where exactly one member carries one of
/// the keys and its value is a string.
pub open spec fn field_text(
    ms: Seq<(Seq<char>, ScalarModel)>,
    k1: Seq<char>,
    k2: Seq<char>,
) -> Option<Seq<char>> {
    match unique_hit(ms, k1, k2) {
        Some(ScalarModel::Text(t)) => Some(t),
        _ => None,
    }
}

/// The fraction under `k`, where exactly one member carries the key and
/// its value is a number.
pub open spec fn field_frac(ms: Seq<(Seq<char>, ScalarModel)>, k: Seq<char>) -> Option<u32> {
    match unique_hit(ms, k, k) {
        Some(ScalarModel::Frac(v)) => Some(v),
        _ => None,
    }
}

/// Looks up a string member under either alias.
pub fn text_field(ms: &Vec<(String, Scalar)>, k1: &str, k2: &str) -> (r: Option<String>)
    ensures
        (match field_text(member_models_of(ms@), k1@, k2@) {
            Some(t) => r is Some && r->Some_0@ == t,
            None => r is None,
        }),
{
    match find_unique(ms, k1, k2) {
        Some(i) => {
            match &ms[i].1 {
                Scalar::Text(s) => Some(s.clone()),
                Scalar::Frac(_) => None,
            }
        },
        None => None,
    }
}

/// Looks up a number member.
pub fn frac_field(ms: &Vec<(String, Scalar)>, k: &str) -> (r: Option<u32>)
    ensures
        (match field_frac(member_models_of(ms@), k@) {
            Some(v) => r == Some(v),
            None => r is None,
        }),
{
    match find_unique(ms, k, k) {
        Some(i) => {
            match &ms[i].1 {
                Scalar::Text(_) => None,
                Scalar::Frac(v) => Some(*v),
            }
        },
        None => None,
    }
}

} // verus!
