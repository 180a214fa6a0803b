//! Size-token parsing: turns one token such as `1.5GB` or `0B` into a
//! byte count.  The grammar is a decimal number (digits with at most
//! one point) followed by an optional unit drawn from B, KB, MB, GB,
//! TB, matched without regard to case; the multiplier for unit
//! exponent `e` is `1024^e`.  All arithmetic is exact.

use vstd::prelude::*;
use crate::text::{count_while, is_space, lemma_count_while, spec_trim, trim_str};

verus! {

/// Fractional digits beyond this precision bound make a token
/// malformed; the bound keeps exact arithmetic within machine words.
pub const MAX_FRACTION_DIGITS: usize = 18;

/// Why a size token was rejected.
#[derive(Clone, Copy, Debug, PartialEq, Eq, Structural)]
pub enum SizeParseError {
    /// The numeric part is not a decimal number.
    InvalidNumber,
    /// The unit suffix is none of B, KB, MB, GB, TB.
    UnknownUnit,
    /// The value does not fit in a `u64` byte count.
    Oversize,
}

pub open spec fn is_ascii_digit(c: char) -> bool {
    48 <= c as u32 && c as u32 <= 57
}

pub open spec fn digit_value(c: char) -> nat {
    (c as u32 - 48) as nat
}

pub open spec fn is_ascii_alpha(c: char) -> bool {
    (65 <= c as u32 && c as u32 <= 90) || (97 <= c as u32 && c as u32 <= 122)
}

/// Is `c` the letter `upper`, in either case?  `upper` must be an
/// upper-case ASCII letter.
pub open spec fn matches_ci(c: char, upper: char) -> bool {
    c == upper || c as u32 == upper as u32 + 32
}

pub open spec fn all_digits(s: Seq<char>) -> bool {
    forall|i: int| 0 <= i < s.len() ==> is_ascii_digit(#[trigger] s[i])
}

/// The number a sequence of decimal digits denotes.
pub open spec fn digits_value(s: Seq<char>) -> nat
    decreases s.len(),
{
    if s.len() == 0 {
        0
    } else {
        digits_value(s.drop_last()) * 10 + digit_value(s.last())
    }
}

pub open spec fn pow10(k: nat) -> nat
    decreases k,
{
    if k == 0 {
        1
    } else {
        10 * pow10((k - 1) as nat)
    }
}

/// The unit exponent: `B` (or nothing) is 0, `KB` 1, `MB` 2, `GB` 3,
/// `TB` 4, all matched without regard to case.
pub open spec fn unit_exponent(u: Seq<char>) -> Option<nat> {
    if u.len() == 0 {
        Some(0 as nat)
    } else if u.len() == 1 && matches_ci(u[0], 'B') {
        Some(0 as nat)
    } else if u.len() == 2 && matches_ci(u[0], 'K') && matches_ci(u[1], 'B') {
        Some(1 as nat)
    } else if u.len() == 2 && matches_ci(u[0], 'M') && matches_ci(u[1], 'B') {
        Some(2 as nat)
    } else if u.len() == 2 && matches_ci(u[0], 'G') && matches_ci(u[1], 'B') {
        Some(3 as nat)
    } else if u.len() == 2 && matches_ci(u[0], 'T') && matches_ci(u[1], 'B') {
        Some(4 as nat)
    } else {
        None
    }
}

/// `1024^e` for the five unit exponents.
pub open spec fn unit_multiplier(e: nat) -> nat {
    if e == 0 {
        1
    } else if e == 1 {
        1024
    } else if e == 2 {
        1048576
    } else if e == 3 {
        1073741824
    } else {
        1099511627776
    }
}

/// The part of a trimmed token before its first ASCII letter.
pub open spec fn number_part(t: Seq<char>) -> Seq<char> {
    t.take(count_while(t, |c: char| !is_ascii_alpha(c)))
}

/// The part of a trimmed token from its first ASCII letter on.
pub open spec fn unit_part(t: Seq<char>) -> Seq<char> {
    t.skip(count_while(t, |c: char| !is_ascii_alpha(c)))
}

/// The digits before the first decimal point.
pub open spec fn int_digits(num: Seq<char>) -> Seq<char> {
    num.take(count_while(num, |c: char| c != '.'))
}

/// The digits after the first decimal point.
pub open spec fn frac_digits(num: Seq<char>) -> Seq<char> {
    let d = count_while(num, |c: char| c != '.');
    if d == num.len() {
        Seq::empty()
    } else {
        num.skip(d + 1)
    }
}

/// A decimal number: digits with at most one point, at least one
/// digit in all, and a bounded fractional part.
pub open spec fn valid_number(num: Seq<char>) -> bool {
    &&& all_digits(int_digits(num))
    &&& all_digits(frac_digits(num))
    &&& int_digits(num).len() + frac_digits(num).len() >= 1
    &&& frac_digits(num).len() <= MAX_FRACTION_DIGITS
}

/// The exact byte count a valid number denotes at unit exponent `e`:
/// the integer part times `1024^e`, plus the fractional contribution
/// rounded down.
pub open spec fn token_value(num: Seq<char>, e: nat) -> nat {
    let m = unit_multiplier(e);
    digits_value(int_digits(num)) * m + (digits_value(frac_digits(num)) * m) / pow10(
        frac_digits(num).len() as nat,
    )
}

/// What parsing a size token yields: the token is trimmed, split at
/// its first letter into number and unit, and the exact value is
/// returned when it fits in a `u64`.
pub open spec fn spec_parse_size(tok: Seq<char>) -> Result<u64, SizeParseError> {
    let t = spec_trim(tok);
    let num = number_part(t);
    if !valid_number(num) {
        Err(SizeParseError::InvalidNumber)
    } else {
        match unit_exponent(unit_part(t)) {
            None => Err(SizeParseError::UnknownUnit),
            Some(e) => {
                let v = token_value(num, e);
                if v > u64::MAX {
                    Err(SizeParseError::Oversize)
                } else {
                    Ok(v as u64)
                }
            },
        }
    }
}

fn char_is_ascii_alpha(c: char) -> (r: bool)
    ensures
        r == is_ascii_alpha(c),
{
    let u = c as u32;
    (65 <= u && u <= 90) || (97 <= u && u <= 122)
}

fn char_is_ascii_digit(c: char) -> (r: bool)
    ensures
        r == is_ascii_digit(c),
{
    let u = c as u32;
    48 <= u && u <= 57
}

fn char_digit(c: char) -> (r: u64)
    requires
        is_ascii_digit(c),
    ensures
        r == digit_value(c),
        r <= 9,
{
    (c as u32 - 48) as u64
}

fn char_ci(c: char, upper: char) -> (r: bool)
    ensures
        r == matches_ci(c, upper),
{
    c == upper || c as u32 == upper as u32 + 32
}

/// A digit prefix never denotes more than the whole digit string.
proof fn lemma_digits_value_prefix(s: Seq<char>, i: int)
    requires
        0 <= i <= s.len(),
    ensures
        digits_value(s.take(i)) <= digits_value(s),
    decreases s.len(),
{
    if i == s.len() {
        assert(s.take(i) =~= s);
    } else {
        assert(s.drop_last().take(i) =~= s.take(i));
        lemma_digits_value_prefix(s.drop_last(), i);
    }
}

/// `pow10` never vanishes.
proof fn lemma_pow10_pos(k: nat)
    ensures
        pow10(k) >= 1,
    decreases k,
{
    if k > 0 {
        lemma_pow10_pos((k - 1) as nat);
    }
}

/// `pow10` grows with its exponent.
proof fn lemma_pow10_mono(a: nat, b: nat)
    requires
        a <= b,
    ensures
        pow10(a) <= pow10(b),
    decreases b,
{
    if a < b {
        lemma_pow10_mono(a, (b - 1) as nat);
        lemma_pow10_pos((b - 1) as nat);
    }
}

/// The concrete value of the fractional precision bound.
proof fn lemma_pow10_18()
    ensures
        pow10(18) == 1000000000000000000,
{
    assert(pow10(0) == 1);
    assert(pow10(1) == 10);
    assert(pow10(2) == 100);
    assert(pow10(3) == 1000);
    assert(pow10(4) == 10000);
    assert(pow10(5) == 100000);
    assert(pow10(6) == 1000000);
    assert(pow10(7) == 10000000);
    assert(pow10(8) == 100000000);
    assert(pow10(9) == 1000000000);
    assert(pow10(10) == 10000000000);
    assert(pow10(11) == 100000000000);
    assert(pow10(12) == 1000000000000);
    assert(pow10(13) == 10000000000000);
    assert(pow10(14) == 100000000000000);
    assert(pow10(15) == 1000000000000000);
    assert(pow10(16) == 10000000000000000);
    assert(pow10(17) == 100000000000000000);
    assert(pow10(18) == 1000000000000000000);
}

/// Parse one size token, e.g. `1.5GB`, `512kb`, `0B` or `17`.
/// Whitespace around the token is ignored; a missing unit means
/// bytes.  The result is the exact value of the token: the number
/// times `1024^e` for the unit's exponent `e`, rounded down.
pub fn parse_docker_size(size_str: &str) -> (r: Result<u64, SizeParseError>)
    ensures
        r == spec_parse_size(size_str@),
{
    let t = trim_str(size_str);
    let ts = t.as_str();
    let n = ts.unicode_len();
    let ghost tv = ts@;
    let ghost num = number_part(tv);

    // Split at the first ASCII letter.
    let mut p: usize = 0;
    while p < n && !char_is_ascii_alpha(ts.get_char(p))
        invariant
            p <= n,
            n == tv.len(),
            ts@ == tv,
            tv == spec_trim(size_str@),
            num == number_part(tv),
            forall|i: int| 0 <= i < p ==> !is_ascii_alpha(tv[i]),
        decreases n - p,
    {
        p = p + 1;
    }
    proof {
        lemma_count_while(tv, |c: char| !is_ascii_alpha(c), p as int);
        assert(num =~= tv.take(p as int));
    }

    // Locate the decimal point within the number part.
    let mut d: usize = 0;
    while d < p && ts.get_char(d) != '.'
        invariant
            d <= p <= n,
            n == tv.len(),
            ts@ == tv,
            tv == spec_trim(size_str@),
            num == number_part(tv),
            forall|i: int| 0 <= i < d ==> tv[i] != '.',
        decreases p - d,
    {
        d = d + 1;
    }
    proof {
        lemma_count_while(num, |c: char| c != '.', d as int);
        assert(int_digits(num) =~= tv.subrange(0, d as int));
        if d < p {
            assert(frac_digits(num) =~= tv.subrange(d + 1, p as int));
        } else {
            assert(frac_digits(num) =~= Seq::<char>::empty());
        }
    }

    // Validate the digits.
    let mut i: usize = 0;
    while i < d
        invariant
            i <= d <= p <= n,
            n == tv.len(),
            ts@ == tv,
            tv == spec_trim(size_str@),
            num == number_part(tv),
            int_digits(num) =~= tv.subrange(0, d as int),
            forall|x: int| 0 <= x < i ==> is_ascii_digit(#[trigger] tv[x]),
        decreases d - i,
    {
        if !char_is_ascii_digit(ts.get_char(i)) {
            proof {
                assert(int_digits(num)[i as int] == tv[i as int]);
                assert(!valid_number(num));
            }
            return Err(SizeParseError::InvalidNumber);
        }
        i = i + 1;
    }
    let fstart: usize = if d < p {
        d + 1
    } else {
        p
    };
    let k: usize = p - fstart;
    let mut j: usize = fstart;
    while j < p
        invariant
            fstart <= j <= p <= n,
            n == tv.len(),
            ts@ == tv,
            tv == spec_trim(size_str@),
            num == number_part(tv),
            fstart == if d < p {
                d + 1
            } else {
                p as int
            },
            d <= p,
            frac_digits(num) =~= tv.subrange(fstart as int, p as int),
            forall|x: int| fstart <= x < j ==> is_ascii_digit(#[trigger] tv[x]),
        decreases p - j,
    {
        if !char_is_ascii_digit(ts.get_char(j)) {
            proof {
                assert(frac_digits(num)[j - fstart] == tv[j as int]);
                assert(!valid_number(num));
            }
            return Err(SizeParseError::InvalidNumber);
        }
        j = j + 1;
    }
    if d == 0 && k == 0 {
        proof {
            assert(!valid_number(num));
        }
        return Err(SizeParseError::InvalidNumber);
    }
    if k > MAX_FRACTION_DIGITS {
        proof {
            assert(!valid_number(num));
        }
        return Err(SizeParseError::InvalidNumber);
    }
    proof {
        assert(forall|x: int|
            0 <= x < int_digits(num).len() ==> is_ascii_digit(#[trigger] int_digits(num)[x]));
        assert(forall|x: int|
            0 <= x < frac_digits(num).len() ==> is_ascii_digit(#[trigger] frac_digits(num)[x]));
        assert(valid_number(num));
    }

    // Recognize the unit.
    let ghost unit = unit_part(tv);
    proof {
        assert(unit =~= tv.skip(p as int));
    }
    let ulen = n - p;
    let e: usize;
    if ulen == 0 {
        e = 0;
    } else if ulen == 1 && char_ci(ts.get_char(p), 'B') {
        e = 0;
    } else if ulen == 2 && char_ci(ts.get_char(p), 'K') && char_ci(ts.get_char(p + 1), 'B') {
        e = 1;
    } else if ulen == 2 && char_ci(ts.get_char(p), 'M') && char_ci(ts.get_char(p + 1), 'B') {
        e = 2;
    } else if ulen == 2 && char_ci(ts.get_char(p), 'G') && char_ci(ts.get_char(p + 1), 'B') {
        e = 3;
    } else if ulen == 2 && char_ci(ts.get_char(p), 'T') && char_ci(ts.get_char(p + 1), 'B') {
        e = 4;
    } else {
        proof {
            assert(unit_exponent(unit) is None);
        }
        return Err(SizeParseError::UnknownUnit);
    }
    proof {
        assert(unit_exponent(unit) == Some(e as nat));
    }
    let mult: u64 = if e == 0 {
        1
    } else if e == 1 {
        1024
    } else if e == 2 {
        1048576
    } else if e == 3 {
        1073741824
    } else {
        1099511627776
    };
    proof {
        assert(mult == unit_multiplier(e as nat));
        assert(mult <= 1099511627776);
    }

    // Accumulate the integer part, watching for values beyond `u64`.
    let ghost ints = int_digits(num);
    let mut ival: u64 = 0;
    let mut x: usize = 0;
    while x < d
        invariant
            x <= d <= p <= n,
            n == tv.len(),
            ts@ == tv,
            tv == spec_trim(size_str@),
            num == number_part(tv),
            ints == int_digits(num),
            ints =~= tv.subrange(0, d as int),
            valid_number(num),
            unit_exponent(unit_part(tv)) == Some(e as nat),
            mult == unit_multiplier(e as nat),
            ival == digits_value(ints.take(x as int)),
        decreases d - x,
    {
        proof {
            assert(ints.take(x + 1).drop_last() =~= ints.take(x as int));
            assert(ints.take(x + 1).last() == tv[x as int]);
            assert(is_ascii_digit(tv[x as int]));
        }
        let dv = char_digit(ts.get_char(x));
        let stepped = match ival.checked_mul(10) {
            Some(m10) => m10.checked_add(dv),
            None => None,
        };
        match stepped {
            Some(v) => {
                ival = v;
            },
            None => {
                proof {
                    lemma_oversize(num, e as nat, x + 1);
                }
                return Err(SizeParseError::Oversize);
            },
        }
        x = x + 1;
    }
    proof {
        assert(ints.take(d as int) =~= ints);
    }

    // Accumulate the fractional part; its bounded length keeps it
    // within `u64`.
    let ghost fracs = frac_digits(num);
    let mut fval: u64 = 0;
    let mut y: usize = fstart;
    proof {
        lemma_pow10_18();
        assert(fracs.take(0) =~= Seq::<char>::empty());
    }
    while y < p
        invariant
            fstart <= y <= p <= n,
            n == tv.len(),
            ts@ == tv,
            tv == spec_trim(size_str@),
            num == number_part(tv),
            fracs == frac_digits(num),
            fracs =~= tv.subrange(fstart as int, p as int),
            valid_number(num),
            p - fstart == k <= MAX_FRACTION_DIGITS,
            pow10(18) == 1000000000000000000,
            fval == digits_value(fracs.take(y - fstart)),
            fval < pow10((y - fstart) as nat),
        decreases p - y,
    {
        proof {
            assert(fracs.take(y - fstart + 1).drop_last() =~= fracs.take(y - fstart));
            assert(fracs.take(y - fstart + 1).last() == tv[y as int]);
            assert(fracs[y - fstart] == tv[y as int]);
            assert(is_ascii_digit(tv[y as int]));
            lemma_pow10_mono((y - fstart + 1) as nat, 18);
        }
        let dv = char_digit(ts.get_char(y));
        fval = fval * 10 + dv;
        y = y + 1;
    }
    proof {
        assert(fracs.take(k as int) =~= fracs);
    }

    // `10^k`, exact in `u64` because `k` is bounded.
    let mut pw: u64 = 1;
    let mut z: usize = 0;
    while z < k
        invariant
            z <= k <= MAX_FRACTION_DIGITS,
            pw == pow10(z as nat),
            pow10(18) == 1000000000000000000,
        decreases k - z,
    {
        proof {
            lemma_pow10_mono((z + 1) as nat, 18);
        }
        pw = pw * 10;
        z = z + 1;
    }
    proof {
        lemma_pow10_pos(k as nat);
    }

    // The exact value, computed in 128 bits.
    proof {
        assert((ival as u128) as int * (mult as u128) as int <= u64::MAX as int
            * 1099511627776) by (nonlinear_arith)
            requires
                ival <= u64::MAX,
                mult <= 1099511627776,
        ;
        assert((fval as u128) as int * (mult as u128) as int <= u64::MAX as int
            * 1099511627776) by (nonlinear_arith)
            requires
                fval <= u64::MAX,
                mult <= 1099511627776,
        ;
    }
    let hi: u128 = (ival as u128) * (mult as u128);
    let lo: u128 = ((fval as u128) * (mult as u128)) / (pw as u128);
    let big: u128 = hi + lo;
    proof {
        assert(big == token_value(num, e as nat));
    }
    if big > u64::MAX as u128 {
        Err(SizeParseError::Oversize)
    } else {
        Ok(big as u64)
    }
}

/// For every whole-number token `N<unit>` with a recognized unit of
/// exponent `e`, the parser yields exactly `N * 1024^e` whenever that
/// value fits in a `u64`.
pub proof fn lemma_integer_size_token(num: Seq<char>, unit: Seq<char>, e: nat)
    requires
        num.len() >= 1,
        all_digits(num),
        unit_exponent(unit) == Some(e),
        digits_value(num) * unit_multiplier(e) <= u64::MAX,
    ensures
        spec_parse_size(num + unit) == Ok::<u64, SizeParseError>(
            (digits_value(num) * unit_multiplier(e)) as u64,
        ),
        unit_multiplier(e) == vstd::arithmetic::power::pow(1024, e),
{
    let tok = num + unit;

    // Digits and unit letters carry no whitespace, so trimming is
    // the identity.
    assert forall|i: int| 0 <= i < tok.len() implies !is_space(#[trigger] tok[i]) by {
        if i < num.len() {
            assert(is_ascii_digit(num[i]));
        } else {
            let j = i - num.len();
            assert(unit[j] == tok[i]);
        }
    }
    crate::text::lemma_trim_identity(tok);

    // The token splits back into its number and its unit.
    assert forall|i: int| 0 <= i < num.len() implies !is_ascii_alpha(#[trigger] tok[i]) by {
        assert(tok[i] == num[i]);
    }
    if unit.len() > 0 {
        assert(is_ascii_alpha(tok[num.len() as int]));
    }
    lemma_count_while(tok, |c: char| !is_ascii_alpha(c), num.len() as int);
    assert(number_part(tok) =~= num);
    assert(unit_part(tok) =~= unit);

    // A whole number has no decimal point.
    lemma_count_while(num, |c: char| c != '.', num.len() as int);
    assert(int_digits(num) =~= num);
    assert(frac_digits(num) =~= Seq::<char>::empty());
    assert(valid_number(num));

    // Its value is the digits times the multiplier.
    let m = unit_multiplier(e);
    assert(token_value(num, e) == digits_value(num) * m + (0 * m) / pow10(0));
    assert(0 * m == 0) by (nonlinear_arith);
    assert(token_value(num, e) == digits_value(num) * m);

    // The unit multiplier is `1024^e`.
    reveal(vstd::arithmetic::power::pow);
    assert(vstd::arithmetic::power::pow(1024, 0) == 1);
    assert(vstd::arithmetic::power::pow(1024, 1) == 1024);
    assert(vstd::arithmetic::power::pow(1024, 2) == 1024 * vstd::arithmetic::power::pow(1024, 1));
    assert(vstd::arithmetic::power::pow(1024, 3) == 1024 * vstd::arithmetic::power::pow(1024, 2));
    assert(vstd::arithmetic::power::pow(1024, 4) == 1024 * vstd::arithmetic::power::pow(1024, 3));
}

/// If a prefix of the integer digits already denotes more than
/// `u64::MAX`, the token's value does too.
proof fn lemma_oversize(num: Seq<char>, e: nat, i: int)
    requires
        0 <= i <= int_digits(num).len(),
        digits_value(int_digits(num).take(i)) > u64::MAX,
    ensures
        token_value(num, e) > u64::MAX,
{
    lemma_digits_value_prefix(int_digits(num), i);
    let iv = digits_value(int_digits(num));
    let fv = digits_value(frac_digits(num));
    let k = frac_digits(num).len() as nat;
    let m = unit_multiplier(e);
    lemma_pow10_pos(k);
    assert(iv > u64::MAX);
    assert(m >= 1);
    vstd::arithmetic::mul::lemma_mul_inequality(1, m as int, iv as int);
    vstd::arithmetic::mul::lemma_mul_is_commutative(m as int, iv as int);
    assert(iv * m >= iv);
    assert(iv * m > u64::MAX);
    let b = (fv * m) / pow10(k);
    assert(b >= 0);
    assert(token_value(num, e) == iv * m + b);
    assert(token_value(num, e) > u64::MAX);
}

} // verus!
