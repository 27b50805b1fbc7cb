//! The pixel stream: channels as bytes, and the text that carries them.
use vstd::prelude::*;
use vstd::arithmetic::power2::{lemma2_to64, lemma2_to64_rest, lemma_pow2_strictly_increases, pow2};
use vstd::bits::lemma_u64_shr_is_div;
use crate::scalar::{Scalar, FRACTION_SPAN};
use crate::utility::{clamp, clamped};
use crate::vec3::Color;

verus! {

/// The encoding of `0.999`, the brightest a channel gets.
pub const CHANNEL_CEILING_BITS: u64 = 0x3FEF_F7CE_D916_872B;

/// The byte of a color component: the component held to the interval from
/// `0` to `0.999`, times 256, without its fractional part. A NaN gives 0.
pub open spec fn channel_of(x: Scalar) -> int {
    let held = clamped(x, Scalar::spec_zero(), Scalar { bits: CHANNEL_CEILING_BITS });
    if held.nan() {
        0
    } else {
        held.floor_scaled(8)
    }
}

/// The decimal digits of a number, as ASCII, without leading zeros.
pub open spec fn decimal(n: nat) -> Seq<u8>
    decreases n,
{
    if n < 10 {
        seq![(48 + n) as u8]
    } else {
        decimal(n / 10).push((48 + n % 10) as u8)
    }
}

/// The stream's first three lines: the two characters that name the plain
/// pixmap format, the width and height, and the brightest channel value.
pub open spec fn header_text(width: nat, height: nat) -> Seq<u8> {
    seq![80u8, 51u8, 10u8] + decimal(width) + seq![32u8] + decimal(height) + seq![
        10u8,
        50u8,
        53u8,
        53u8,
        10u8,
    ]
}

/// One pixel's line: its three channel bytes in decimal, parted by spaces.
pub open spec fn pixel_text(color: Color) -> Seq<u8> {
    decimal(channel_of(color.0) as nat) + seq![32u8] + decimal(channel_of(color.1) as nat)
        + seq![32u8] + decimal(channel_of(color.2) as nat) + seq![10u8]
}

/// Every channel is a byte.
pub proof fn lemma_channel_is_byte(x: Scalar)
    ensures
        0 <= channel_of(x) <= 255,
{
    let held = clamped(x, Scalar::spec_zero(), Scalar { bits: CHANNEL_CEILING_BITS });
    if !held.nan() {
        lemma_floor_scaled_below_one(held);
    }
}

/// Below one, `floor_scaled(8)` drops all but the leading eight digits of
/// the significand, and nothing is left of a value below `2^-8`.
proof fn lemma_floor_scaled_below_one(y: Scalar)
    requires
        y.magnitude() < crate::scalar::ONE_BITS,
    ensures
        0 <= y.floor_scaled(8) <= 255,
        y.exponent() < 1015 ==> y.floor_scaled(8) == 0,
        y.exponent() >= 1015 ==> y.floor_scaled(8) == (FRACTION_SPAN + y.fraction()) / (pow2(
            (1067 - y.exponent()) as nat,
        ) as int),
        0 <= y.exponent() <= 1022,
        0 <= y.fraction() < FRACTION_SPAN,
{
    let e = y.exponent();
    let sig = y.significand();
    let shift = (-(y.scale() + 8)) as nat;
    lemma2_to64();
    lemma2_to64_rest();
    assert(45 <= shift);
    if shift > 53 {
        lemma_pow2_strictly_increases(53, shift);
    }
    if shift > 45 {
        lemma_pow2_strictly_increases(45, shift);
    }
    let d = pow2(shift) as int;
    assert(d >= 0x2000_0000_0000);
    assert(0 <= sig < 0x20_0000_0000_0000);
    assert(0 <= sig / d <= 255) by (nonlinear_arith)
        requires
            d >= 0x2000_0000_0000,
            0 <= sig < 0x20_0000_0000_0000,
    ;
    if e < 1015 {
        assert(shift >= 53);
        assert(d >= 0x20_0000_0000_0000);
        assert(sig / d == 0) by (nonlinear_arith)
            requires
                0 <= sig < d,
        ;
    }
}

/// The byte of a color component.
pub fn channel(x: Scalar) -> (c: u8)
    ensures
        c == channel_of(x),
{
    let held = clamp(x, Scalar::zero(), Scalar::from_bits(CHANNEL_CEILING_BITS));
    if held.is_nan() {
        return 0;
    }
    let m: u64 = held.magnitude_bits();
    proof {
        lemma_floor_scaled_below_one(held);
    }
    let e: u64 = m / FRACTION_SPAN;
    if e < 1015 {
        return 0;
    }
    let sig: u64 = FRACTION_SPAN + m % FRACTION_SPAN;
    let shift: u64 = 1067 - e;
    proof {
        lemma_u64_shr_is_div(sig, shift);
    }
    (sig >> shift) as u8
}

/// Appends the decimal digits of `n`.
pub fn push_decimal(out: &mut Vec<u8>, n: u64)
    ensures
        final(out)@ == old(out)@ + decimal(n as nat),
    decreases n,
{
    if n >= 10 {
        push_decimal(out, n / 10);
    }
    let digit: u8 = (n % 10) as u8;
    out.push(48 + digit);
    proof {
        assert(final(out)@ =~= old(out)@ + decimal(n as nat));
    }
}

/// The stream's header for an image of the given size.
pub fn header(width: u64, height: u64) -> (text: Vec<u8>)
    ensures
        text@ == header_text(width as nat, height as nat),
{
    let mut text: Vec<u8> = Vec::new();
    text.push(80);
    text.push(51);
    text.push(10);
    push_decimal(&mut text, width);
    text.push(32);
    push_decimal(&mut text, height);
    text.push(10);
    text.push(50);
    text.push(53);
    text.push(53);
    text.push(10);
    proof {
        assert(text@ =~= header_text(width as nat, height as nat));
    }
    text
}

/// The line of one pixel, from its averaged and gamma-corrected color.
pub fn pixel_line(color: Color) -> (text: Vec<u8>)
    ensures
        text@ == pixel_text(color),
{
    let mut text: Vec<u8> = Vec::new();
    let r: u8 = channel(color.x());
    let g: u8 = channel(color.y());
    let b: u8 = channel(color.z());
    push_decimal(&mut text, r as u64);
    text.push(32);
    push_decimal(&mut text, g as u64);
    text.push(32);
    push_decimal(&mut text, b as u64);
    text.push(10);
    proof {
        assert(text@ =~= pixel_text(color));
    }
    text
}

} // verus!
