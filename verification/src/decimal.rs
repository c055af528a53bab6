//! Decimal numerals.

use vstd::prelude::*;

verus! {

/// `c` is one of the ten decimal digits.
pub open spec fn is_digit(c: char) -> bool {
    '0' <= c <= '9'
}

/// The number that a decimal digit stands for.
pub open spec fn digit_value(c: char) -> nat {
    (c as u32 - 48) as nat
}

/// The digit that stands for `d`.
pub open spec fn digit_char(d: nat) -> char {
    ((48 + d) as u8) as char
}

/// The decimal numeral of `n`, without leading zeros.
pub open spec fn decimal(n: nat) -> Seq<char>
    decreases n,
{
    if n < 10 {
        seq![digit_char(n)]
    } else {
        decimal(n / 10).push(digit_char(n % 10))
    }
}

/// The decimal numeral of `n`, with a leading `-` when `n` is negative.
pub open spec fn decimal_int(n: int) -> Seq<char> {
    if n < 0 {
        seq!['-'] + decimal((-n) as nat)
    } else {
        decimal(n as nat)
    }
}

/// Every character of `s` is a decimal digit, and there is at least one.
pub open spec fn all_digits(s: Seq<char>) -> bool {
    s.len() > 0 && forall|i: int| 0 <= i < s.len() ==> is_digit(#[trigger] s[i])
}

/// The number that the digits `s` stand for.
pub open spec fn digits_value(s: Seq<char>) -> nat
    decreases s.len(),
{
    if s.len() == 0 {
        0
    } else {
        10 * digits_value(s.drop_last()) + digit_value(s.last())
    }
}

/// The number that `s` stands for when it is a numeral of an unsigned type
/// whose largest value is `max`: digits, optionally after a `+`.
pub open spec fn unsigned_value(s: Seq<char>, max: nat) -> Option<nat> {
    let digits = if s.len() > 0 && s[0] == '+' {
        s.skip(1)
    } else {
        s
    };
    if all_digits(digits) && digits_value(digits) <= max {
        Some(digits_value(digits))
    } else {
        None
    }
}

/// The number that `s` stands for when it is a numeral of `i64`: digits,
/// optionally after a `+` or a `-`.
pub open spec fn signed_value(s: Seq<char>) -> Option<int> {
    if s.len() > 0 && s[0] == '-' {
        let digits = s.skip(1);
        if all_digits(digits) && -digits_value(digits) >= i64::MIN {
            Some(-digits_value(digits))
        } else {
            None
        }
    } else {
        match unsigned_value(s, i64::MAX as nat) {
            Some(n) => Some(n as int),
            None => None,
        }
    }
}

pub proof fn lemma_decimal_digits(n: nat)
    ensures
        all_digits(decimal(n)),
        digits_value(decimal(n)) == n,
    decreases n,
{
    if n < 10 {
        let s = decimal(n);
        assert(s.drop_last() =~= Seq::<char>::empty());
        assert(digits_value(s.drop_last()) == 0);
    } else {
        lemma_decimal_digits(n / 10);
        let s = decimal(n);
        assert(s.drop_last() =~= decimal(n / 10));
    }
}

/// Reading back a numeral gives the number it was written for.
pub proof fn numeral_round_trip(n: nat, max: nat)
    requires
        n <= max,
    ensures
        unsigned_value(decimal(n), max) == Some(n),
{
    lemma_decimal_digits(n);
    assert(is_digit(decimal(n)[0]));
}

pub proof fn lemma_digits_value_grows(s: Seq<char>, k: int)
    requires
        0 <= k <= s.len(),
        forall|i: int| 0 <= i < s.len() ==> is_digit(#[trigger] s[i]),
    ensures
        digits_value(s.take(k)) <= digits_value(s),
    decreases s.len(),
{
    if k == s.len() {
        assert(s.take(k) =~= s);
    } else {
        lemma_digits_value_grows(s.drop_last(), k);
        assert(s.drop_last().take(k) =~= s.take(k));
    }
}

/// The decimal numeral of `n`.
pub fn to_decimal(n: u64) -> (r: Vec<char>)
    ensures
        r@ == decimal(n as nat),
    decreases n,
{
    if n < 10 {
        let mut out: Vec<char> = Vec::new();
        out.push((48 + n as u8) as char);
        assert(out@ =~= decimal(n as nat));
        out
    } else {
        let mut out: Vec<char> = to_decimal(n / 10);
        out.push((48 + (n % 10) as u8) as char);
        out
    }
}

/// The decimal numeral of `n`, with its sign when it is negative.
pub fn to_decimal_signed(n: i64) -> (r: Vec<char>)
    ensures
        r@ == decimal_int(n as int),
{
    if n < 0 {
        let magnitude: u64 = (-(n as i128)) as u64;
        let digits: Vec<char> = to_decimal(magnitude);
        let mut out: Vec<char> = Vec::new();
        out.push('-');
        let mut i: usize = 0;
        while i < digits.len()
            invariant
                i <= digits.len(),
                out@ == seq!['-'] + digits@.take(i as int),
            decreases digits.len() - i,
        {
            out.push(digits[i]);
            i += 1;
        }
        assert(digits@.take(digits@.len() as int) == digits@);
        out
    } else {
        to_decimal(n as u64)
    }
}

/// The value of the digits `s` when all its characters are digits, there is
/// at least one, and the value is at most `max`.
fn parse_digits(s: &[char], max: u64) -> (r: Option<u64>)
    ensures
        match r {
            Some(n) => all_digits(s@) && digits_value(s@) == n && n <= max,
            None => !all_digits(s@) || digits_value(s@) > max,
        },
{
    if s.len() == 0 {
        return None;
    }
    let mut acc: u64 = 0;
    let mut i: usize = 0;
    while i < s.len()
        invariant
            i <= s.len(),
            acc <= max,
            acc == digits_value(s@.take(i as int)),
            forall|j: int| 0 <= j < i ==> is_digit(#[trigger] s@[j]),
        decreases s.len() - i,
    {
        let c: char = s[i];
        if !('0' <= c && c <= '9') {
            assert(!is_digit(s@[i as int]));
            return None;
        }
        let d: u64 = (c as u32 - 48) as u64;
        let ghost upto = s@.take(i + 1);
        proof {
            assert(upto.drop_last() =~= s@.take(i as int));
            assert(upto.last() == c);
        }
        if (acc as u128) * 10 + (d as u128) > max as u128 {
            proof {
                if all_digits(s@) {
                    lemma_digits_value_grows(s@, i + 1);
                }
            }
            return None;
        }
        acc = acc * 10 + d;
        i += 1;
    }
    assert(s@.take(s@.len() as int) =~= s@);
    Some(acc)
}

/// Reads an unsigned numeral of a type whose largest value is `max`.
pub fn parse_unsigned(s: &[char], max: u64) -> (r: Option<u64>)
    ensures
        match r {
            Some(n) => unsigned_value(s@, max as nat) == Some(n as nat),
            None => unsigned_value(s@, max as nat) is None,
        },
{
    if s.len() > 0 && s[0] == '+' {
        proof {
            assert(s@.subrange(1, s@.len() as int) =~= s@.skip(1));
        }
        parse_digits(&s[1..s.len()], max)
    } else {
        parse_digits(s, max)
    }
}

/// Reads a numeral of `i64`.
pub fn parse_signed(s: &[char]) -> (r: Option<i64>)
    ensures
        match r {
            Some(n) => signed_value(s@) == Some(n as int),
            None => signed_value(s@) is None,
        },
{
    if s.len() > 0 && s[0] == '-' {
        proof {
            assert(s@.subrange(1, s@.len() as int) =~= s@.skip(1));
        }
        match parse_digits(&s[1..s.len()], 0x8000_0000_0000_0000) {
            Some(n) => Some((-(n as i128)) as i64),
            None => None,
        }
    } else {
        match parse_unsigned(s, i64::MAX as u64) {
            Some(n) => Some(n as i64),
            None => None,
        }
    }
}

// --- what the numerals mean -----------------------------------------------------------

/// Numerals are decimal: the last digit stands for the ones, and what is
/// before it is the numeral of the tens.
pub proof fn numerals_are_decimal(tens: nat, ones: nat)
    requires
        ones < 10,
    ensures
        decimal(ones) == seq![seq!['0', '1', '2', '3', '4', '5', '6', '7', '8', '9'][ones as int]],
        tens > 0 ==> decimal(10 * tens + ones) == decimal(tens) + decimal(ones),
        decimal_int(-1 - tens) == seq!['-'] + decimal(tens + 1),
        decimal_int(tens as int) == decimal(tens),
{
    if tens > 0 {
        assert((10 * tens + ones) / 10 == tens);
        assert((10 * tens + ones) % 10 == ones);
        assert(decimal(10 * tens + ones) =~= decimal(tens) + decimal(ones));
    }
}

/// Every number of the type is read back from its numeral, with its sign.
pub proof fn signed_numeral_round_trip(n: i64)
    ensures
        signed_value(decimal_int(n as int)) == Some(n as int),
{
    if n < 0 {
        let d = decimal((-n) as nat);
        lemma_decimal_digits((-n) as nat);
        assert(decimal_int(n as int).skip(1) =~= d);
    } else {
        lemma_decimal_digits(n as nat);
        assert(is_digit(decimal(n as nat)[0]));
    }
}

/// A text that is read as a number is a sign, where one may stand, and digits:
/// anything else in it, or nothing at all, makes it none.
pub proof fn numerals_hold_digits_only(s: &[char], max: u64, r: Option<u64>, i: int)
    requires
        call_ensures(parse_unsigned, (s, max), r),
    ensures
        r matches Some(n) ==> n <= max,
        s@.len() == 0 ==> r is None,
        0 <= i < s@.len() && !('0' <= s@[i] <= '9') && !(i == 0 && s@[0] == '+') ==> r is None,
{
    let digits = if s@.len() > 0 && s@[0] == '+' {
        s@.skip(1)
    } else {
        s@
    };
    if 0 <= i < s@.len() && !('0' <= s@[i] <= '9') && !(i == 0 && s@[0] == '+') {
        if s@[0] == '+' {
            assert(!is_digit(digits[i - 1]));
        } else {
            assert(!is_digit(digits[i]));
        }
    }
}

/// Reading goes by place value: one more digit is ten times what stands before
/// it and itself.
pub proof fn digits_count_by_place(front: Seq<char>, d: char)
    requires
        '0' <= d <= '9',
    ensures
        digits_value(front.push(d)) == 10 * digits_value(front) + (d as u32 - '0' as u32),
        digits_value(Seq::<char>::empty()) == 0,
{
    assert(front.push(d).drop_last() =~= front);
}

/// Every numeral is read, with leading zeros or a `+` too, unless its number
/// is too large.
pub proof fn every_numeral_is_read(
    s: &[char],
    max: u64,
    r: Option<u64>,
    digits: Seq<char>,
    plus: bool,
)
    requires
        call_ensures(parse_unsigned, (s, max), r),
        digits.len() > 0,
        forall|i: int| 0 <= i < digits.len() ==> '0' <= #[trigger] digits[i] && digits[i] <= '9',
        s@ == (if plus {
            seq!['+'] + digits
        } else {
            digits
        }),
    ensures
        digits_value(digits) <= max ==> r == Some(digits_value(digits) as u64),
        digits_value(digits) > max ==> r is None,
{
    assert forall|i: int| 0 <= i < digits.len() implies is_digit(#[trigger] digits[i]) by {}
    if plus {
        assert(s@.skip(1) =~= digits);
    } else {
        assert(is_digit(digits[0]));
    }
}

/// A numeral with a `-` is the negative of its digits, as far down as the type
/// goes; without one it is read as any other.
pub proof fn signed_numerals_are_read(
    s: &[char],
    r: Option<i64>,
    digits: Seq<char>,
    plain: Option<u64>,
)
    requires
        call_ensures(parse_signed, (s,), r),
        call_ensures(parse_unsigned, (s, 0x7fff_ffff_ffff_ffffu64), plain),
        digits.len() > 0,
        forall|i: int| 0 <= i < digits.len() ==> '0' <= #[trigger] digits[i] && digits[i] <= '9',
    ensures
        s@ == seq!['-'] + digits ==> (r is Some <==> digits_value(digits)
            <= 0x8000_0000_0000_0000),
        s@ == seq!['-'] + digits ==> (r matches Some(n) ==> n == -digits_value(digits)),
        !(s@.len() > 0 && s@[0] == '-') ==> (r is Some <==> plain is Some),
        !(s@.len() > 0 && s@[0] == '-') ==> (r matches Some(n) ==> n == plain->0),
{
    assert forall|i: int| 0 <= i < digits.len() implies is_digit(#[trigger] digits[i]) by {}
    if s@ == seq!['-'] + digits {
        assert(s@.skip(1) =~= digits);
        assert(s@[0] == '-');
    }
}

/// Numbers are written as their numerals.
pub proof fn numbers_are_written_as_numerals(n: u64, r: Vec<char>, m: i64, signed: Vec<char>)
    requires
        call_ensures(to_decimal, (n,), r),
        call_ensures(to_decimal_signed, (m,), signed),
    ensures
        r@ == decimal(n as nat),
        m >= 0 ==> signed@ == decimal(m as nat),
        m < 0 ==> signed@ == seq!['-'] + decimal((-m) as nat),
{
}

} // verus!
