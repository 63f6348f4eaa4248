//! What digits and the bits of a number are worth.

use crate::style::{exponent, is_whole, significand};
use crate::text::{digit_char, digit_worth, digits_worth, number_read, padded_hex};
use vstd::arithmetic::power2::{lemma_pow2_adds, lemma_pow2_pos, pow2};
use vstd::prelude::*;

verus! {

/// The digits from nought to nine are worth what they are, and the letters from `a` to
/// `f` what comes after nine, small or capital. Nothing else is a digit.
pub proof fn law_digits_are_worth_what_they_are(n: nat, c: char)
    ensures
        n < 10 ==> digit_worth((48 + n) as char) == n && digit_char(n) == (48 + n) as char,
        n < 6 ==> digit_worth((97 + n) as char) == 10 + n && digit_worth((65 + n) as char) == 10 + n
            && digit_char((10 + n) as nat) == (97 + n) as char,
        !('0' <= c <= '9') && !('a' <= c <= 'f') && !('A' <= c <= 'F') ==> digit_worth(c) >= 16,
        'a' <= c <= 'f' || 'A' <= c <= 'F' ==> digit_worth(c) >= 10,
{
}

/// One digit more makes a number so many times greater, and adds what it is worth.
pub proof fn law_each_place_is_worth_more(digits: Seq<char>, c: char, radix: nat)
    ensures
        digits_worth(digits.push(c), radix) == digits_worth(digits, radix) * radix + digit_worth(c),
        digits_worth(Seq::<char>::empty(), radix) == 0,
{
    assert(digits.push(c).drop_last() =~= digits);
}

/// A text is a number where it is digits, a plus sign before them or none, and is not
/// too great. It is then worth what its digits are.
pub proof fn law_a_number_is_its_digits(digits: Seq<char>, radix: nat, max: nat)
    requires
        digits.len() > 0,
        digits[0] != '+',
    ensures
        number_read(digits, radix, max) is Some <==> digits_worth(digits, radix) <= max && forall|
            i: int,
        |
            0 <= i < digits.len() ==> digit_worth(#[trigger] digits[i]) < radix,
        number_read(digits, radix, max) matches Some(n) ==> n == digits_worth(digits, radix),
        number_read(seq!['+'] + digits, radix, max) == number_read(digits, radix, max),
        number_read(Seq::empty(), radix, max) is None,
        number_read(seq!['+'], radix, max) is None,
{
    assert((seq!['+'] + digits).skip(1) =~= digits);
    assert(seq!['+'].skip(1) =~= Seq::<char>::empty());
}

/// A number written to a width in sixteens has as many digits, the last being what is
/// over past sixteens.
pub proof fn law_a_width_is_kept(n: nat, width: nat)
    ensures
        padded_hex(n, width).len() == width,
        width > 0 ==> padded_hex(n, width).last() == digit_char(n % 16)
            && padded_hex(n, width).drop_last() == padded_hex(n / 16, (width - 1) as nat),
{
    crate::text::lemma_padded_hex(n, width);
    if width > 0 {
        assert(padded_hex(n, width).drop_last() =~= padded_hex(n / 16, (width - 1) as nat));
    }
}

/// The bits of a whole number are read as that number: of nought, and of any number by
/// its highest power of two and by what is over.
pub proof fn law_whole_numbers_are_read_from_their_bits(n: nat, k: nat, bits: u64)
    requires
        k <= 31,
        pow2(k) <= n < pow2(k + 1),
        n <= u32::MAX,
        bits == (1023 + k) * 0x10_0000_0000_0000 + (n - pow2(k)) * pow2((52 - k) as nat),
    ensures
        is_whole(bits, n as int),
        is_whole(0, 0),
{
    let over = n - pow2(k);
    let step = pow2((52 - k) as nat);
    let part = over * step;
    lemma_pow2_pos(k);
    lemma_pow2_pos((52 - k) as nat);
    lemma_pow2_adds(k, (52 - k) as nat);
    vstd::arithmetic::power2::lemma_pow2_unfold(k + 1);
    assert(pow2(52) == 0x10_0000_0000_0000) by {
        vstd::arithmetic::power2::lemma2_to64();
        lemma_pow2_adds(32, 20);
    }
    assert(pow2(k) * step == 0x10_0000_0000_0000);
    assert(0 <= part < 0x10_0000_0000_0000) by (nonlinear_arith)
        requires
            0 <= over < pow2(k),
            part == over * step,
            pow2(k) * step == 0x10_0000_0000_0000,
            step > 0,
    ;
    assert(n * step == 0x10_0000_0000_0000 + part) by (nonlinear_arith)
        requires
            over == n - pow2(k),
            part == over * step,
            pow2(k) * step == 0x10_0000_0000_0000,
    ;
    assert(exponent(bits) == 1023 + k);
    assert(significand(bits) == 0x10_0000_0000_0000 + part);
    assert((1075 - exponent(bits)) as nat == (52 - k) as nat);
}

} // verus!
