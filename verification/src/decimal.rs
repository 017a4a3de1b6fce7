//! Decimal numbers, as they are written into PID files, command lines and
//! messages.

use vstd::prelude::*;
use vstd::slice::slice_subrange;
use vstd::string::*;

use crate::ascii::{NINE, PLUS, ZERO};

verus! {

/// Whether a byte is one of the ASCII digits.
pub open spec fn is_digit(b: u8) -> bool {
    ZERO <= b <= NINE
}

/// Whether a byte string is made of ASCII digits alone.
pub open spec fn all_digits(s: Seq<u8>) -> bool {
    forall|i: int| 0 <= i < s.len() ==> is_digit(#[trigger] s[i])
}

/// The number that a string of digits denotes.
pub open spec fn digits_value(s: Seq<u8>) -> nat
    decreases s.len(),
{
    if s.len() == 0 {
        0
    } else {
        digits_value(s.drop_last()) * 10 + (s.last() - ZERO) as nat
    }
}

/// The decimal notation of a number, without leading zeros.
pub open spec fn decimal(n: nat) -> Seq<u8>
    decreases n,
{
    if n < 10 {
        seq![(ZERO + n) as u8]
    } else {
        decimal(n / 10).push((ZERO + n % 10) as u8)
    }
}

/// What follows the optional plus sign of a number.
pub open spec fn after_sign(s: Seq<u8>) -> Seq<u8> {
    if s.len() > 0 && s[0] == PLUS {
        s.skip(1)
    } else {
        s
    }
}

/// The 32 bit number that a text denotes: an optional plus sign followed by
/// one or more digits, and nothing else.
pub open spec fn parsed_u32(s: Seq<u8>) -> Option<u32> {
    let digits = after_sign(s);
    if digits.len() > 0 && all_digits(digits) && digits_value(digits) <= u32::MAX {
        Some(digits_value(digits) as u32)
    } else {
        None
    }
}

/// The characters of an ASCII byte string.
pub open spec fn ascii_chars(s: Seq<u8>) -> Seq<char> {
    s.map_values(|b: u8| b as char)
}

/// The decimal notation of a signed number.
pub open spec fn signed_decimal(n: int) -> Seq<char> {
    if n < 0 {
        seq!['-'] + ascii_chars(decimal((-n) as nat))
    } else {
        ascii_chars(decimal(n as nat))
    }
}

/// A prefix of a string of digits denotes no more than the whole.
proof fn lemma_prefix_value(s: Seq<u8>, k: int)
    requires
        0 <= k <= s.len(),
        all_digits(s),
    ensures
        digits_value(s.take(k)) <= digits_value(s),
    decreases s.len(),
{
    if k == s.len() {
        assert(s.take(k) =~= s);
    } else {
        lemma_prefix_value(s.drop_last(), k);
        assert(s.drop_last().take(k) =~= s.take(k));
    }
}

/// The decimal notation of a number is a string of digits, at least one, which
/// denotes that number.
pub proof fn decimal_denotes(n: nat)
    ensures
        decimal(n).len() > 0,
        all_digits(decimal(n)),
        digits_value(decimal(n)) == n,
    decreases n,
{
    if n < 10 {
        let s = decimal(n);
        assert(s.drop_last() =~= Seq::<u8>::empty());
        assert(digits_value(s.drop_last()) == 0);
    } else {
        decimal_denotes(n / 10);
        assert(decimal(n).drop_last() =~= decimal(n / 10));
    }
}

/// The decimal notation has no leading zero, unless it is that of zero, which is a
/// single digit.
pub proof fn decimal_has_no_leading_zero(n: nat)
    ensures
        n > 0 ==> decimal(n)[0] != ZERO,
        n == 0 ==> decimal(n) == seq![ZERO],
    decreases n,
{
    if n >= 10 {
        decimal_has_no_leading_zero(n / 10);
        decimal_denotes(n / 10);
    }
}

/// Parsing the decimal notation of a 32 bit number gives that number back.
pub proof fn parse_reads_decimal(n: u32)
    ensures
        parsed_u32(decimal(n as nat)) == Some(n),
{
    decimal_denotes(n as nat);
    assert(is_digit(decimal(n as nat)[0]));
}

/// Parse a 32 bit number.
pub fn parse_u32(s: &[u8]) -> (r: Option<u32>)
    ensures
        r == parsed_u32(s@),
{
    let digits: &[u8] = if s.len() > 0 && s[0] == PLUS {
        slice_subrange(s, 1, s.len())
    } else {
        s
    };
    assert(digits@ =~= after_sign(s@));
    if digits.len() == 0 {
        return None;
    }
    let mut value: u64 = 0;
    let mut i: usize = 0;
    while i < digits.len()
        invariant
            digits@ == after_sign(s@),
            digits@.len() > 0,
            i <= digits.len(),
            all_digits(digits@.take(i as int)),
            value == digits_value(digits@.take(i as int)),
            value <= u32::MAX,
        decreases digits.len() - i,
    {
        let b: u8 = digits[i];
        if b < ZERO || b > NINE {
            assert(!is_digit(digits@[i as int]));
            return None;
        }
        value = value * 10 + (b - ZERO) as u64;
        proof {
            assert(digits@.take(i + 1).drop_last() =~= digits@.take(i as int));
            assert(digits@.take(i + 1).last() == b);
            assert forall|j: int| 0 <= j < i + 1 implies is_digit(
                #[trigger] digits@.take(i + 1)[j],
            ) by {
                if j < i {
                    assert(is_digit(digits@.take(i as int)[j]));
                }
            }
        }
        if value > u32::MAX as u64 {
            proof {
                if all_digits(digits@) {
                    lemma_prefix_value(digits@, i + 1);
                }
            }
            return None;
        }
        i += 1;
    }
    assert(digits@.take(i as int) =~= digits@);
    Some(value as u32)
}

/// Append the decimal notation of a number to a byte string.
pub fn push_decimal(out: &mut Vec<u8>, n: u32)
    ensures
        final(out)@ == old(out)@ + decimal(n as nat),
    decreases n,
{
    if n >= 10 {
        push_decimal(out, n / 10);
    }
    out.push(ZERO + (n % 10) as u8);
    assert(out@ =~= old(out)@ + decimal(n as nat));
}

/// The text of a single digit.
fn digit_text(d: u32) -> (r: &'static str)
    requires
        d < 10,
    ensures
        r@ == seq![(ZERO + d) as u8 as char],
{
    proof {
        reveal_strlit("0");
        reveal_strlit("1");
        reveal_strlit("2");
        reveal_strlit("3");
        reveal_strlit("4");
        reveal_strlit("5");
        reveal_strlit("6");
        reveal_strlit("7");
        reveal_strlit("8");
        reveal_strlit("9");
    }
    let r = match d {
        0 => "0",
        1 => "1",
        2 => "2",
        3 => "3",
        4 => "4",
        5 => "5",
        6 => "6",
        7 => "7",
        8 => "8",
        _ => "9",
    };
    assert(r@ =~= seq![(ZERO + d) as u8 as char]);
    r
}

/// Append the decimal notation of a number to a text.
pub fn append_decimal(out: &mut String, n: u32)
    ensures
        final(out)@ == old(out)@ + ascii_chars(decimal(n as nat)),
    decreases n,
{
    if n >= 10 {
        append_decimal(out, n / 10);
    }
    out.append(digit_text(n % 10));
    assert(out@ =~= old(out)@ + ascii_chars(decimal(n as nat)));
}

/// Append the decimal notation of a signed number to a text.
pub fn append_signed_decimal(out: &mut String, n: i32)
    ensures
        final(out)@ == old(out)@ + signed_decimal(n as int),
{
    if n < 0 {
        proof {
            reveal_strlit("-");
        }
        out.append("-");
        append_decimal(out, (-(n as i64)) as u32);
    } else {
        append_decimal(out, n as u32);
    }
    assert(out@ =~= old(out)@ + signed_decimal(n as int));
}

/// A digit denotes how far it is from zero, and a digit that others follow counts
/// ten times as much for each of those.
pub proof fn digits_count_by_place(a: Seq<u8>, b: Seq<u8>, digit: u8)
    requires
        is_digit(digit),
    ensures
        digits_value(seq![digit]) == digit - '0' as u8,
        digits_value(a + b) == digits_value(a) * vstd::arithmetic::power::pow(10, b.len())
            + digits_value(b),
    decreases b.len(),
{
    reveal(vstd::arithmetic::power::pow);
    assert(seq![digit].drop_last() =~= Seq::<u8>::empty());
    assert(digits_value(seq![digit].drop_last()) == 0);
    if b.len() == 0 {
        assert(a + b =~= a);
        assert(vstd::arithmetic::power::pow(10, 0) == 1);
    } else {
        let head = b.drop_last();
        digits_count_by_place(a, head, digit);
        assert((a + b).drop_last() =~= a + head);
        let value = digits_value(a) as int;
        let power = vstd::arithmetic::power::pow(10, head.len());
        assert(vstd::arithmetic::power::pow(10, b.len()) == 10 * power);
        assert((value * power) * 10 == value * (10 * power)) by (nonlinear_arith);
    }
}

/// A text of a number: an optional plus sign, leading zeros and the decimal
/// notation.
pub open spec fn number_text(signed: bool, zeros: nat, n: u32) -> Seq<u8> {
    let sign = if signed {
        seq!['+' as u8]
    } else {
        Seq::empty()
    };
    sign + Seq::new(zeros, |i: int| '0' as u8) + decimal(n as nat)
}

/// A string of digits is the decimal notation of the number that it denotes,
/// behind some zeros.
proof fn lemma_leading_zeros(s: Seq<u8>) -> (zeros: nat)
    requires
        s.len() > 0,
        all_digits(s),
    ensures
        s == Seq::new(zeros, |i: int| ZERO) + decimal(digits_value(s)),
    decreases s.len(),
{
    let head = s.drop_last();
    let last = s.last();
    assert(is_digit(s[s.len() - 1]));
    if head.len() == 0 {
        assert(digits_value(head) == 0);
        assert(s =~= Seq::new(0, |i: int| ZERO) + decimal(digits_value(s)));
        0
    } else {
        assert forall|i: int| 0 <= i < head.len() implies is_digit(#[trigger] head[i]) by {
            assert(is_digit(s[i]));
        }
        let zeros = lemma_leading_zeros(head);
        let value = digits_value(head);
        let d = (last - ZERO) as nat;
        assert(digits_value(s) == value * 10 + d);
        assert(s =~= head.push(last));
        if value > 0 {
            assert(digits_value(s) / 10 == value);
            assert(digits_value(s) % 10 == d);
            assert(decimal(digits_value(s)) == decimal(value).push(last));
            assert(s =~= Seq::new(zeros, |i: int| ZERO) + decimal(digits_value(s)));
            zeros
        } else {
            assert(decimal(value) =~= seq![ZERO]);
            assert(decimal(digits_value(s)) =~= seq![last]);
            assert(s =~= Seq::new(zeros + 1, |i: int| ZERO) + decimal(digits_value(s)));
            zeros + 1
        }
    }
}

proof fn lemma_zeros_value(zeros: nat)
    ensures
        digits_value(Seq::new(zeros, |i: int| ZERO)) == 0,
    decreases zeros,
{
    let s = Seq::new(zeros, |i: int| ZERO);
    if zeros > 0 {
        lemma_zeros_value((zeros - 1) as nat);
        assert(s.drop_last() =~= Seq::new((zeros - 1) as nat, |i: int| ZERO));
    }
}

/// The texts of a number are parsed as that number, and no other texts are.
pub proof fn texts_of_number_are_parsed(s: Seq<u8>, n: u32)
    ensures
        parsed_u32(s) == Some(n) <==> exists|signed: bool, zeros: nat|
            s == #[trigger] number_text(signed, zeros, n),
{
    if parsed_u32(s) == Some(n) {
        let zeros = lemma_leading_zeros(after_sign(s));
        let signed = s.len() > 0 && s[0] == PLUS;
        let leading = Seq::new(zeros, |i: int| ZERO);
        assert(after_sign(s) == leading + decimal(n as nat));
        assert(leading =~= Seq::new(zeros, |i: int| '0' as u8));
        if signed {
            assert(s =~= seq![PLUS] + after_sign(s));
            assert(s =~= seq![PLUS] + leading + decimal(n as nat));
        } else {
            assert(s =~= Seq::<u8>::empty() + leading + decimal(n as nat));
        }
        assert(s == number_text(signed, zeros, n));
    }
    if exists|signed: bool, zeros: nat| s == #[trigger] number_text(signed, zeros, n) {
        let (signed, zeros) = choose|signed: bool, zeros: nat|
            s == #[trigger] number_text(signed, zeros, n);
        let leading = Seq::new(zeros, |i: int| ZERO);
        let digits = leading + decimal(n as nat);
        decimal_denotes(n as nat);
        assert forall|i: int| 0 <= i < digits.len() implies is_digit(#[trigger] digits[i]) by {
            if i >= zeros {
                assert(digits[i] == decimal(n as nat)[i - zeros]);
            }
        }
        assert(is_digit(digits[0]));
        assert(after_sign(s) =~= digits);
        lemma_zeros_value(zeros);
        digits_count_by_place(leading, decimal(n as nat), ZERO);
        let power = vstd::arithmetic::power::pow(10, decimal(n as nat).len());
        assert(0 * power == 0) by (nonlinear_arith);
    }
}

/// Different numbers have different decimal notations.
pub proof fn decimal_tells_numbers_apart(a: nat, b: nat)
    requires
        decimal(a) == decimal(b),
    ensures
        a == b,
{
    decimal_denotes(a);
    decimal_denotes(b);
}

/// A negative number is written as its opposite behind a minus sign, and any other
/// number in its decimal notation.
pub proof fn sign_stands_in_front(n: nat, i: int)
    ensures
        signed_decimal(n as int).len() == decimal(n).len(),
        0 <= i < decimal(n).len() ==> signed_decimal(n as int)[i] as u8 == decimal(n)[i],
        n > 0 ==> signed_decimal(-n) == seq!['-'] + signed_decimal(n as int),
{
    decimal_denotes(n);
    if 0 <= i < decimal(n).len() {
        assert(is_digit(decimal(n)[i]));
    }
}

} // verus!
