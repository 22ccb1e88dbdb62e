//! Plain-text groundwork: whitespace, trimming, tokenization, case folding,
//! substring search and decimal rendering.
//!
//! Commands and protocol lines are split and trimmed on Unicode's
//! White_Space set, written out below. Keywords are folded to lower case
//! over the ASCII letters only, a deliberate choice: the intent table
//! holds ASCII labels, which a keyword differing outside ASCII cannot
//! match under any fold.

use vstd::prelude::*;

verus! {

/// The whitespace set used for trimming and tokenization: Unicode's
/// White_Space characters.
pub open spec fn is_space(c: char) -> bool {
    c == ' ' || c == '\t' || c == '\n' || c == '\r' || c == '\u{0B}' || c == '\u{0C}'
        || c == '\u{85}' || c == '\u{A0}' || c == '\u{1680}' || ('\u{2000}' <= c
        && c <= '\u{200A}') || c == '\u{2028}' || c == '\u{2029}' || c == '\u{202F}'
        || c == '\u{205F}' || c == '\u{3000}'
}

/// Runtime test for `is_space`.
pub fn space(c: char) -> (r: bool)
    ensures
        r == is_space(c),
{
    c == ' ' || c == '\t' || c == '\n' || c == '\r' || c == '\u{0B}' || c == '\u{0C}'
        || c == '\u{85}' || c == '\u{A0}' || c == '\u{1680}' || ('\u{2000}' <= c
        && c <= '\u{200A}') || c == '\u{2028}' || c == '\u{2029}' || c == '\u{202F}'
        || c == '\u{205F}' || c == '\u{3000}'
}

/// Relies on `String::push`: appends exactly one character.
#[verifier::external_body]
pub(crate) fn push_char(s: &mut String, c: char) -> (r: ())
    ensures
        final(s)@ == old(s)@.push(c),
{
    s.push(c)
}

/// The characters of `s` as a vector.
pub fn chars_vec(s: &str) -> (v: Vec<char>)
    ensures
        v@ == s@,
{
    let n = s.unicode_len();
    let mut v: Vec<char> = Vec::new();
    let mut i: usize = 0;
    while i < n
        invariant
            n == s@.len(),
            i <= n,
            v@ == s@.subrange(0, i as int),
        decreases n - i,
    {
        v.push(s.get_char(i));
        i = i + 1;
        proof {
            assert(v@ =~= s@.subrange(0, i as int));
        }
    }
    proof {
        assert(v@ =~= s@);
    }
    v
}

/// ASCII lower-casing of one character.
pub open spec fn lower_char(c: char) -> char {
    if 'A' <= c && c <= 'Z' {
        (((c as u8) + 32) as char)
    } else {
        c
    }
}

/// ASCII lower-casing of a character sequence.
pub open spec fn lower_seq(s: Seq<char>) -> Seq<char> {
    s.map_values(|c: char| lower_char(c))
}

/// ASCII lower-casing of a string.
pub fn lower(s: &str) -> (r: String)
    ensures
        r@ == lower_seq(s@),
{
    let chars = chars_vec(s);
    let mut r = String::new();
    let mut i: usize = 0;
    while i < chars.len()
        invariant
            chars@ == s@,
            i <= chars@.len(),
            r@ == lower_seq(s@.subrange(0, i as int)),
        decreases chars@.len() - i,
    {
        let c = chars[i];
        if 'A' <= c && c <= 'Z' {
            push_char(&mut r, ((c as u8) + 32) as char);
        } else {
            push_char(&mut r, c);
        }
        i = i + 1;
        proof {
            assert(r@ =~= lower_seq(s@.subrange(0, i as int)));
        }
    }
    proof {
        assert(r@ =~= lower_seq(s@));
    }
    r
}

/// First index at or after `i` that does not hold whitespace.
pub open spec fn first_non_space(s: Seq<char>, i: int) -> int
    decreases s.len() - i when i <= s.len()
{
    if i < s.len() && is_space(s[i]) {
        first_non_space(s, i + 1)
    } else {
        i
    }
}

/// End of `s` with trailing whitespace before `j` dropped.
pub open spec fn end_non_space(s: Seq<char>, j: int) -> int
    decreases j when j >= 0
{
    if j > 0 && is_space(s[j - 1]) {
        end_non_space(s, j - 1)
    } else {
        j
    }
}

/// `s` with leading and trailing whitespace removed.
pub open spec fn trim_seq(s: Seq<char>) -> Seq<char> {
    let a = first_non_space(s, 0);
    let b = end_non_space(s, s.len() as int);
    if a >= b {
        Seq::empty()
    } else {
        s.subrange(a, b)
    }
}

pub proof fn lemma_first_non_space_bounds(s: Seq<char>, i: int)
    requires
        0 <= i <= s.len(),
    ensures
        i <= first_non_space(s, i) <= s.len(),
    decreases s.len() - i,
{
    if i < s.len() && is_space(s[i]) {
        lemma_first_non_space_bounds(s, i + 1);
    }
}

proof fn lemma_end_non_space_bounds(s: Seq<char>, j: int)
    requires
        0 <= j <= s.len(),
    ensures
        0 <= end_non_space(s, j) <= j,
    decreases j,
{
    if j > 0 && is_space(s[j - 1]) {
        lemma_end_non_space_bounds(s, j - 1);
    }
}

proof fn lemma_trim_order(s: Seq<char>, a: int, j: int)
    requires
        0 <= a < s.len(),
        !is_space(s[a]),
        a < j <= s.len(),
    ensures
        end_non_space(s, j) > a,
    decreases j,
{
    if j > 0 && is_space(s[j - 1]) {
        lemma_trim_order(s, a, j - 1);
    }
}

/// `s` without leading or trailing whitespace.
pub fn trim(s: &str) -> (t: String)
    ensures
        t@ == trim_seq(s@),
{
    let n = s.unicode_len();
    let mut a: usize = 0;
    while a < n && space(s.get_char(a))
        invariant
            n == s@.len(),
            0 <= a <= n,
            first_non_space(s@, 0) == first_non_space(s@, a as int),
        decreases n - a,
    {
        a = a + 1;
    }
    if a == n {
        proof {
            lemma_end_non_space_bounds(s@, n as int);
        }
        return String::new();
    }
    let mut b: usize = n;
    while b > 0 && space(s.get_char(b - 1))
        invariant
            n == s@.len(),
            0 <= b <= n,
            end_non_space(s@, n as int) == end_non_space(s@, b as int),
        decreases b,
    {
        b = b - 1;
    }
    proof {
        lemma_trim_order(s@, a as int, n as int);
        lemma_first_non_space_bounds(s@, 0);
    }
    let piece = s.substring_char(a, b);
    piece.to_owned()
}

/// One tokenizer step: fold the next character into (finished tokens,
/// pending token).
pub open spec fn tok_step(acc: (Seq<Seq<char>>, Seq<char>), c: char) -> (Seq<Seq<char>>, Seq<char>) {
    if is_space(c) {
        if acc.1.len() == 0 {
            (acc.0, Seq::empty())
        } else {
            (acc.0.push(acc.1), Seq::empty())
        }
    } else {
        (acc.0, acc.1.push(c))
    }
}

/// Tokenizer state after consuming all of `s`.
pub open spec fn tok_state(s: Seq<char>) -> (Seq<Seq<char>>, Seq<char>)
    decreases s,
{
    if s.len() == 0 {
        (Seq::empty(), Seq::empty())
    } else {
        tok_step(tok_state(s.drop_last()), s.last())
    }
}

/// The whitespace-separated tokens of `s`, in order.
pub open spec fn tokens_of(s: Seq<char>) -> Seq<Seq<char>> {
    let st = tok_state(s);
    if st.1.len() == 0 {
        st.0
    } else {
        st.0.push(st.1)
    }
}

/// The views of a vector of strings.
pub open spec fn views_of(ts: Seq<String>) -> Seq<Seq<char>> {
    ts.map_values(|t: String| t@)
}

/// Splits `s` into its whitespace-separated tokens.
pub fn tokens(s: &str) -> (ts: Vec<String>)
    ensures
        views_of(ts@) == tokens_of(s@),
{
    let chars = chars_vec(s);
    let mut out: Vec<String> = Vec::new();
    let mut cur = String::new();
    let mut i: usize = 0;
    while i < chars.len()
        invariant
            chars@ == s@,
            i <= chars@.len(),
            (views_of(out@), cur@) == tok_state(s@.subrange(0, i as int)),
        decreases chars@.len() - i,
    {
        let c = chars[i];
        proof {
            assert(s@.subrange(0, i + 1 as int).drop_last() =~= s@.subrange(0, i as int));
            assert(s@.subrange(0, i + 1 as int).last() == s@[i as int]);
        }
        if space(c) {
            if cur.unicode_len() != 0 {
                out.push(cur);
                cur = String::new();
                proof {
                    assert(views_of(out@) =~= tok_state(s@.subrange(0, i + 1 as int)).0);
                }
            }
        } else {
            push_char(&mut cur, c);
        }
        i = i + 1;
    }
    proof {
        assert(s@.subrange(0, chars@.len() as int) =~= s@);
    }
    if cur.unicode_len() != 0 {
        out.push(cur);
        proof {
            assert(views_of(out@) =~= tokens_of(s@));
        }
    } else {
        proof {
            assert(views_of(out@) =~= tokens_of(s@));
        }
    }
    out
}

/// The tokens joined with single spaces.
pub open spec fn join_spaced(ts: Seq<Seq<char>>) -> Seq<char>
    decreases ts,
{
    if ts.len() == 0 {
        Seq::empty()
    } else if ts.len() == 1 {
        ts[0]
    } else {
        join_spaced(ts.drop_last()) + seq![' '] + ts.last()
    }
}

/// Joins strings with single spaces.
pub fn join(ts: &Vec<String>) -> (r: String)
    ensures
        r@ == join_spaced(views_of(ts@)),
{
    let mut r = String::new();
    let mut i: usize = 0;
    while i < ts.len()
        invariant
            i <= ts@.len(),
            r@ == join_spaced(views_of(ts@).subrange(0, i as int)),
        decreases ts@.len() - i,
    {
        if i > 0 {
            push_char(&mut r, ' ');
        }
        r.append(ts[i].as_str());
        i = i + 1;
        proof {
            assert(views_of(ts@).subrange(0, i as int).drop_last() =~= views_of(ts@).subrange(
                0,
                i - 1 as int,
            ));
            assert(views_of(ts@).subrange(0, i as int).last() == ts@[i - 1 as int]@);
        }
    }
    proof {
        assert(views_of(ts@).subrange(0, ts@.len() as int) =~= views_of(ts@));
    }
    r
}

/// All elements of `v` after the first.
pub fn tail(v: &Vec<String>) -> (r: Vec<String>)
    requires
        v@.len() >= 1,
    ensures
        views_of(r@) == views_of(v@).drop_first(),
{
    let mut r: Vec<String> = Vec::new();
    let mut i: usize = 1;
    while i < v.len()
        invariant
            1 <= i <= v@.len(),
            r@.len() == i - 1,
            forall|k: int| 0 <= k < i - 1 ==> (#[trigger] r@[k])@ == v@[k + 1]@,
        decreases v@.len() - i,
    {
        r.push(v[i].clone());
        i = i + 1;
    }
    proof {
        assert(views_of(r@) =~= views_of(v@).drop_first());
    }
    r
}

/// Whether `needle` occurs as a contiguous run inside `hay`.
pub open spec fn contains_seq(hay: Seq<char>, needle: Seq<char>) -> bool {
    exists|i: int|
        0 <= i && i + needle.len() <= hay.len() && #[trigger] hay.subrange(i, i + needle.len())
            == needle
}

/// Substring search.
pub fn contains_sub(hay: &Vec<char>, needle: &Vec<char>) -> (r: bool)
    ensures
        r == contains_seq(hay@, needle@),
{
    if needle.len() > hay.len() {
        proof {
            assert(!contains_seq(hay@, needle@));
        }
        return false;
    }
    let bound = hay.len() - needle.len();
    let mut i: usize = 0;
    while i <= bound
        invariant
            needle@.len() <= hay@.len(),
            hay@.len() <= usize::MAX,
            bound == hay@.len() - needle@.len(),
            0 <= i <= bound + 1,
            forall|k: int|
                0 <= k < i ==> #[trigger] hay@.subrange(k, k + needle@.len()) != needle@,
        decreases bound + 1 - i,
    {
        let mut j: usize = 0;
        let mut hit = true;
        while j < needle.len()
            invariant
                i + needle@.len() <= hay@.len(),
                hay@.len() <= usize::MAX,
                j <= needle@.len(),
                hit <==> hay@.subrange(i as int, i + j as int) =~= needle@.subrange(0, j as int),
            decreases needle@.len() - j,
        {
            if hay[i + j] != needle[j] {
                hit = false;
                proof {
                    assert(hay@.subrange(i as int, i + needle@.len())[j as int] != needle@[j as int]);
                }
                j = needle.len();
            } else {
                proof {
                    if hit {
                        assert(hay@.subrange(i as int, i + (j + 1) as int) =~= needle@.subrange(
                            0,
                            (j + 1) as int,
                        ));
                    }
                }
                j = j + 1;
            }
        }
        if hit {
            proof {
                assert(hay@.subrange(i as int, i + needle@.len()) =~= needle@);
            }
            return true;
        }
        i = i + 1;
    }
    proof {
        assert(forall|k: int|
            0 <= k && k + needle@.len() <= hay@.len() ==> #[trigger] hay@.subrange(
                k,
                k + needle@.len(),
            ) != needle@);
    }
    false
}

/// Character-wise string equality.
pub fn str_eq(a: &str, b: &str) -> (r: bool)
    ensures
        r == (a@ == b@),
{
    let n = a.unicode_len();
    if n != b.unicode_len() {
        return false;
    }
    let mut i: usize = 0;
    while i < n
        invariant
            n == a@.len(),
            n == b@.len(),
            i <= n,
            forall|k: int| 0 <= k < i ==> a@[k] == b@[k],
        decreases n - i,
    {
        if a.get_char(i) != b.get_char(i) {
            return false;
        }
        i = i + 1;
    }
    proof {
        assert(a@ =~= b@);
    }
    true
}

/// The digit character for `n`.
pub open spec fn digit_char(n: int) -> char {
    ((48 + n) as u8) as char
}

/// Decimal rendering of a natural number, most significant digit first.
pub open spec fn dec_str(n: nat) -> Seq<char>
    decreases n,
{
    if n < 10 {
        seq![digit_char(n as int)]
    } else {
        dec_str(n / 10) + seq![digit_char((n % 10) as int)]
    }
}

/// Renders `n` in decimal.
pub fn decimal(n: u32) -> (r: String)
    ensures
        r@ == dec_str(n as nat),
{
    let mut digits: Vec<char> = Vec::new();
    if n == 0 {
        digits.push('0');
        proof {
            assert(digits@ =~= dec_str(0));
        }
    }
    let mut m = n;
    proof {
        assert(dec_str(n as nat) + Seq::<char>::empty() =~= dec_str(n as nat));
    }
    while m > 0
        invariant
            dec_str(n as nat) == if m > 0 {
                dec_str(m as nat) + digits@
            } else {
                digits@
            },
        decreases m,
    {
        let d = (48 + (m % 10) as u8) as char;
        let ghost old_m = m;
        let ghost old_digits = digits@;
        digits.insert(0, d);
        proof {
            assert(d == digit_char((old_m % 10) as int));
            assert(digits@ =~= seq![digit_char((old_m % 10) as int)] + old_digits);
            if old_m >= 10 {
                assert(dec_str(old_m as nat) == dec_str((old_m / 10) as nat) + seq![
                    digit_char((old_m % 10) as int),
                ]);
            } else {
                assert(dec_str(old_m as nat) == seq![digit_char(old_m as int)]);
            }
        }
        m = m / 10;
        proof {
            if m > 0 {
                assert(dec_str(n as nat) =~= dec_str(m as nat) + digits@);
            } else {
                assert(dec_str(n as nat) =~= digits@);
            }
        }
    }
    let mut r = String::new();
    let mut i: usize = 0;
    while i < digits.len()
        invariant
            i <= digits@.len(),
            r@ == digits@.subrange(0, i as int),
        decreases digits@.len() - i,
    {
        push_char(&mut r, digits[i]);
        i = i + 1;
        proof {
            assert(r@ =~= digits@.subrange(0, i as int));
        }
    }
    proof {
        assert(digits@.subrange(0, digits@.len() as int) =~= digits@);
    }
    r
}

/// Decimal rendering of a fraction given in thousandths of one: the whole
/// part, a point, and three fraction digits.
pub open spec fn frac_str(m: nat) -> Seq<char> {
    dec_str(m / 1000) + seq![
        '.',
        digit_char(((m % 1000) / 100) as int),
        digit_char((((m % 1000) / 10) % 10) as int),
        digit_char(((m % 1000) % 10) as int),
    ]
}

/// Renders a thousandths value as a decimal fraction.
pub fn fraction(m: u32) -> (r: String)
    ensures
        r@ == frac_str(m as nat),
{
    let mut r = decimal(m / 1000);
    push_char(&mut r, '.');
    push_char(&mut r, (48 + ((m % 1000) / 100) as u8) as char);
    push_char(&mut r, (48 + (((m % 1000) / 10) % 10) as u8) as char);
    push_char(&mut r, (48 + ((m % 1000) % 10) as u8) as char);
    proof {
        assert(r@ =~= frac_str(m as nat));
    }
    r
}

} // verus!
