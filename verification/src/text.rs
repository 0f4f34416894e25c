//! Verified text helpers: exact string comparison, case folding for ASCII,
//! substring search, and decimal rendering of integers.

use vstd::prelude::*;

verus! {

/// Character-wise equality of two string slices.
pub fn str_eq(a: &str, b: &str) -> (r: bool)
    ensures
        r == (a@ == b@),
{
    let na = a.unicode_len();
    let nb = b.unicode_len();
    if na != nb {
        assert(a@ != b@) by {
            assert(a@.len() != b@.len());
        }
        return false;
    }
    let mut i: usize = 0;
    while i < na
        invariant
            na == a@.len(),
            nb == b@.len(),
            na == nb,
            i <= na,
            forall|j: int| 0 <= j < i ==> a@[j] == b@[j],
        decreases na - i,
    {
        if a.get_char(i) != b.get_char(i) {
            return false;
        }
        i = i + 1;
    }
    proof {
        assert(a@ =~= b@);
    }
    true
}

/// ASCII upper-casing of one character; every other character is kept.
pub open spec fn upper_char(c: char) -> char {
    if 'a' <= c && c <= 'z' {
        ((c as u32) - 32) as char
    } else {
        c
    }
}

/// Holds when `p` (an upper-case pattern) is a prefix of `s` once `s` is
/// upper-cased character by character.
pub open spec fn has_prefix_upper(s: Seq<char>, p: Seq<char>) -> bool {
    p.len() <= s.len() && forall|j: int| 0 <= j < p.len() ==> upper_char(s[j]) == p[j]
}

/// Case-insensitive prefix test: does `s`, upper-cased, start with `p`?
pub fn has_ci_prefix(s: &str, p: &str) -> (r: bool)
    ensures
        r == has_prefix_upper(s@, p@),
{
    let ns = s.unicode_len();
    let np = p.unicode_len();
    if np > ns {
        return false;
    }
    let mut j: usize = 0;
    while j < np
        invariant
            ns == s@.len(),
            np == p@.len(),
            np <= ns,
            j <= np,
            forall|k: int| 0 <= k < j ==> upper_char(s@[k]) == p@[k],
        decreases np - j,
    {
        let sc = s.get_char(j);
        let pc = p.get_char(j);
        let matched: bool = if 'a' <= sc && sc <= 'z' {
            (sc as u32) - 32 == (pc as u32)
        } else {
            sc == pc
        };
        proof {
            if 'a' <= sc && sc <= 'z' {
                assert(upper_char(sc) as u32 == (sc as u32) - 32);
            }
        }
        if !matched {
            return false;
        }
        j = j + 1;
    }
    true
}

/// Holds when `sub` occurs in `s` starting at index `i`.
pub open spec fn sub_at(s: Seq<char>, sub: Seq<char>, i: int) -> bool {
    0 <= i && i + sub.len() <= s.len() && s.subrange(i, i + sub.len() as int) == sub
}

/// Holds when `sub` occurs somewhere in `s`.
pub open spec fn contains_sub(s: Seq<char>, sub: Seq<char>) -> bool {
    exists|i: int| sub_at(s, sub, i)
}

/// Substring search: does `s` contain `sub`?
pub fn contains_str(s: &str, sub: &str) -> (r: bool)
    ensures
        r == contains_sub(s@, sub@),
{
    let ns = s.unicode_len();
    let m = sub.unicode_len();
    if m > ns {
        assert(forall|i: int| !sub_at(s@, sub@, i));
        return false;
    }
    let mut i: usize = 0;
    while i <= ns - m
        invariant
            ns == s@.len(),
            m == sub@.len(),
            m <= ns,
            i <= ns - m + 1,
            forall|ii: int| 0 <= ii < i ==> !sub_at(s@, sub@, ii),
        decreases ns - m + 1 - i,
    {
        let mut j: usize = 0;
        let mut all: bool = true;
        while j < m
            invariant
                ns == s@.len(),
                m == sub@.len(),
                i + m <= ns,
                j <= m,
                all ==> forall|k: int| 0 <= k < j ==> s@[i + k] == sub@[k],
                !all ==> exists|k: int| 0 <= k < m && s@[i + k] != sub@[k],
            decreases m - j,
        {
            if s.get_char(i + j) != sub.get_char(j) {
                all = false;
                j = m;
            } else {
                j = j + 1;
            }
        }
        if all {
            proof {
                assert(s@.subrange(i as int, i + m as int) =~= sub@);
                assert(sub_at(s@, sub@, i as int));
            }
            return true;
        }
        proof {
            let k = choose|k: int| 0 <= k < m && s@[i + k] != sub@[k];
            assert(s@.subrange(i as int, i + m as int)[k] == s@[i + k]);
            assert(!sub_at(s@, sub@, i as int));
        }
        i = i + 1;
    }
    proof {
        assert forall|ii: int| !sub_at(s@, sub@, ii) by {
            if ii >= i {
                assert(ii + m > ns);
            }
        }
    }
    false
}

/// Case-insensitive equality: does `s`, upper-cased character by
/// character, equal the upper-case pattern `p`?
pub open spec fn eq_ci_upper(s: Seq<char>, p: Seq<char>) -> bool {
    s.len() == p.len() && has_prefix_upper(s, p)
}

/// Case-insensitive string equality against an upper-case pattern.
pub fn str_eq_ci(s: &str, p: &str) -> (r: bool)
    ensures
        r == eq_ci_upper(s@, p@),
{
    let ns = s.unicode_len();
    let np = p.unicode_len();
    if ns != np {
        return false;
    }
    has_ci_prefix(s, p)
}

/// Is this a decimal digit?
pub open spec fn is_digit(c: char) -> bool {
    '0' <= c && c <= '9'
}

/// The value of a decimal digit character.
pub open spec fn digit_val(c: char) -> int {
    c as u32 - 48
}

/// Does the sequence consist of decimal digits only?
pub open spec fn all_digits(s: Seq<char>) -> bool {
    forall|i: int| 0 <= i < s.len() ==> is_digit(s[i])
}

/// The number a digit sequence denotes, most significant digit first
/// (zero for the empty sequence).
pub open spec fn digits_val(s: Seq<char>) -> int
    decreases s.len(),
{
    if s.len() == 0 {
        0
    } else {
        digits_val(s.drop_last()) * 10 + digit_val(s.last())
    }
}

pub proof fn lemma_digits_val_nonneg(s: Seq<char>)
    requires
        all_digits(s),
    ensures
        digits_val(s) >= 0,
    decreases s.len(),
{
    if s.len() > 0 {
        assert(all_digits(s.drop_last()));
        lemma_digits_val_nonneg(s.drop_last());
    }
}

/// Reading more digits can only grow the denoted number.
pub proof fn lemma_digits_val_mono(s: Seq<char>, i: int)
    requires
        all_digits(s),
        0 <= i <= s.len(),
    ensures
        digits_val(s.take(i)) <= digits_val(s),
    decreases s.len(),
{
    if i < s.len() {
        assert(all_digits(s.drop_last()));
        assert(s.take(i) =~= s.drop_last().take(i));
        lemma_digits_val_mono(s.drop_last(), i);
        lemma_digits_val_nonneg(s.drop_last());
    } else {
        assert(s.take(i) =~= s);
    }
}

/// The decimal digit character for a value below ten.
pub open spec fn digit_char(d: nat) -> char {
    if d == 0 {
        '0'
    } else if d == 1 {
        '1'
    } else if d == 2 {
        '2'
    } else if d == 3 {
        '3'
    } else if d == 4 {
        '4'
    } else if d == 5 {
        '5'
    } else if d == 6 {
        '6'
    } else if d == 7 {
        '7'
    } else if d == 8 {
        '8'
    } else {
        '9'
    }
}

/// The usual decimal rendering of a natural number, most significant
/// digit first, with no leading zeros (a lone zero for zero).
pub open spec fn dec_str(n: nat) -> Seq<char>
    decreases n,
{
    if n < 10 {
        seq![digit_char(n)]
    } else {
        dec_str(n / 10).push(digit_char(n % 10))
    }
}

/// Decimal rendering of a signed value: a minus sign before the digits
/// of the magnitude when the value is negative.
pub open spec fn int_str(i: int) -> Seq<char> {
    if i >= 0 {
        dec_str(i as nat)
    } else {
        seq!['-'] + dec_str((-i) as nat)
    }
}

fn digit_str(d: u64) -> (r: &'static str)
    requires
        d < 10,
    ensures
        r@ == seq![digit_char(d as nat)],
{
    proof {
        reveal_strlit("0");
        reveal_strlit("1");
        reveal_strlit("2");
        reveal_strlit("3");
        reveal_strlit("4");
        reveal_strlit("5");
        reveal_strlit("6");
        reveal_strlit("7");
        reveal_strlit("8");
        reveal_strlit("9");
    }
    if d == 0 {
        "0"
    } else if d == 1 {
        "1"
    } else if d == 2 {
        "2"
    } else if d == 3 {
        "3"
    } else if d == 4 {
        "4"
    } else if d == 5 {
        "5"
    } else if d == 6 {
        "6"
    } else if d == 7 {
        "7"
    } else if d == 8 {
        "8"
    } else {
        "9"
    }
}

/// Renders an unsigned value in decimal.
pub fn u64_to_string(n: u64) -> (s: String)
    ensures
        s@ == dec_str(n as nat),
    decreases n,
{
    if n < 10 {
        digit_str(n).to_owned()
    } else {
        let s = u64_to_string(n / 10);
        s.concat(digit_str(n % 10))
    }
}

/// Decimal rendering of a natural number padded with leading zeros to a
/// fixed width; digits beyond the width are dropped from the left.
pub open spec fn dec_pad(n: nat, w: nat) -> Seq<char>
    decreases w,
{
    if w == 0 {
        Seq::empty()
    } else {
        dec_pad(n / 10, (w - 1) as nat).push(digit_char(n % 10))
    }
}

/// Renders `n` zero-padded to exactly `w` digits.
pub fn u64_to_padded(n: u64, w: usize) -> (s: String)
    ensures
        s@ == dec_pad(n as nat, w as nat),
    decreases w,
{
    if w == 0 {
        String::new()
    } else {
        let s = u64_to_padded(n / 10, w - 1);
        s.concat(digit_str(n % 10))
    }
}

/// A coordinate in microdegrees rendered as a signed decimal number of
/// degrees with six digits after the point.
pub open spec fn coord_str(v: int) -> Seq<char> {
    if v >= 0 {
        coord_mag(v as nat)
    } else {
        seq!['-'] + coord_mag((-v) as nat)
    }
}

/// The unsigned part of a coordinate rendering: whole degrees, a point,
/// and six fractional digits.
pub open spec fn coord_mag(n: nat) -> Seq<char> {
    dec_str(n / 1000000) + seq!['.'] + dec_pad(n % 1000000, 6)
}

/// Renders a microdegree coordinate, e.g. `51507400` as `51.507400`.
pub fn micro_to_string(v: i64) -> (s: String)
    ensures
        s@ == coord_str(v as int),
{
    proof {
        reveal_strlit("-");
        reveal_strlit(".");
    }
    let m: u64 = if v >= 0 {
        v as u64
    } else {
        (-(v as i128)) as u64
    };
    let whole = u64_to_string(m / 1000000);
    let frac = u64_to_padded(m % 1000000, 6);
    let mag = whole.concat(".").concat(frac.as_str());
    if v >= 0 {
        mag
    } else {
        String::from_str("-").concat(mag.as_str())
    }
}

/// Renders a signed value in decimal, with a leading minus sign when
/// negative.
pub fn i64_to_string(n: i64) -> (s: String)
    ensures
        s@ == int_str(n as int),
{
    if n >= 0 {
        u64_to_string(n as u64)
    } else {
        proof {
            reveal_strlit("-");
        }
        let m: u64 = ((-(n as i128)) as u64);
        let s = String::from_str("-");
        s.concat(u64_to_string(m).as_str())
    }
}

} // verus!
