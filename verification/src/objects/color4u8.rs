//! A colour of four 8-bit channels and the 32-bit word that a frame buffer holds for it.

use vstd::prelude::*;
use vstd::arithmetic::div_mod::{
    lemma_basic_div, lemma_div_is_ordered, lemma_div_multiples_vanish,
    lemma_div_multiples_vanish_quotient,
};
use vstd::arithmetic::power2::{
    lemma2_to64, lemma_pow2_adds, lemma_pow2_pos, lemma_pow2_strictly_increases, pow2,
};
use vstd::bits::lemma_u64_shr_is_div;
use crate::maths::scalar::{
    exponent, fraction, lemma_magnitude_order, lemma_one, magnitude, nan, scaled, unit,
    ONE,
};

verus! {

/// A colour of four channels: alpha, red, green and blue.
#[derive(Clone, Copy, Debug, PartialEq, Eq, Structural)]
pub struct Color4u8 {
    pub a: u8,
    pub r: u8,
    pub g: u8,
    pub b: u8,
}

/// The colour that a word of the frame buffer stands for: red in its lowest byte,
/// then green, then blue. The highest byte is not read, and the colour is opaque.
pub open spec fn unpacked(word: u32) -> Color4u8 {
    Color4u8 {
        a: 255,
        r: (word % 0x100) as u8,
        g: (word / 0x100 % 0x100) as u8,
        b: (word / 0x1_0000 % 0x100) as u8,
    }
}

/// A level held to the range of a byte.
pub open spec fn saturated(level: int) -> int {
    if level < 0 {
        0
    } else if level > 255 {
        255
    } else {
        level
    }
}

/// The byte for a light level given as the bit pattern of a single: 255 times the
/// level, rounded down and held to the range of a byte. So 0 gives 0, 1 gives 255,
/// and what lies outside saturates. NaN gives 0.
pub open spec fn level_byte(bits: u32) -> int {
    if nan(bits) {
        0
    } else {
        saturated(255 * scaled(bits) / (unit() as int))
    }
}

/// A brighter level never gives a darker byte.
pub proof fn lemma_level_byte_increases(dim: u32, bright: u32)
    requires
        !nan(dim),
        !nan(bright),
        scaled(dim) <= scaled(bright),
    ensures
        level_byte(dim) <= level_byte(bright),
{
    lemma_pow2_pos(149);
    lemma_div_is_ordered(255 * scaled(dim), 255 * scaled(bright), unit() as int);
}

/// Below one, 255 times the level is 255 times the significand, shifted down.
proof fn lemma_level_below_one(bits: u32, sig: int, k: nat)
    requires
        bits < ONE,
        exponent(bits) == 0 ==> k == 1 && sig == fraction(bits),
        exponent(bits) != 0 ==> k == exponent(bits) && sig == 0x80_0000 + fraction(bits),
    ensures
        k <= 126,
        255 * scaled(bits) / (unit() as int) == (255 * sig) / (pow2((150 - k) as nat) as int),
        0 <= (255 * sig) / (pow2((150 - k) as nat) as int) < 255,
{
    let low = pow2((k - 1) as nat) as int;
    let high = pow2((150 - k) as nat) as int;
    let top = 255 * sig;
    lemma_pow2_pos((k - 1) as nat);
    lemma_pow2_pos((150 - k) as nat);
    lemma_pow2_adds((k - 1) as nat, (150 - k) as nat);
    lemma2_to64();
    assert(magnitude(bits) == sig * low) by {
        if exponent(bits) == 0 {
            assert(sig * low == sig) by (nonlinear_arith)
                requires
                    low == 1,
            ;
        }
    }
    assert(255 * (sig * low) == low * top) by (nonlinear_arith)
        requires
            top == 255 * sig,
    ;
    lemma_div_multiples_vanish_quotient(low, top, high);
    if 150 - k > 24 {
        lemma_pow2_strictly_increases(24, (150 - k) as nat);
    }
    lemma_div_is_ordered(top, 255 * 0x100_0000 - 1, high);
    assert((255 * 0x100_0000 - 1) / high <= 254) by (nonlinear_arith)
        requires
            high >= 0x100_0000,
    ;
    lemma_div_is_ordered(0, top, high);
}

/// The byte for a light level.
fn f32_to_u8(v: u32) -> (byte: u8)
    ensures
        byte == level_byte(v),
{
    if v > 0x7f80_0000 {
        proof {
            if !nan(v) {
                lemma_pow2_pos(149);
                lemma_div_is_ordered(255 * scaled(v), 0, unit() as int);
            }
        }
        return 0;
    }
    if v >= ONE {
        proof {
            lemma_one();
            lemma_magnitude_order(ONE, v);
            lemma_pow2_pos(149);
            lemma_div_is_ordered(255 * (unit() as int), 255 * scaled(v), unit() as int);
            lemma_div_multiples_vanish(255, unit() as int);
        }
        return 255;
    }
    let e: u32 = v >> 23;
    let f: u32 = v & 0x7f_ffff;
    assert(e == v / 0x80_0000 && f == v % 0x80_0000) by (bit_vector)
        requires
            e == v >> 23,
            f == v & 0x7f_ffff,
    ;
    let sig: u64 = if e == 0 {
        f as u64
    } else {
        f as u64 + 0x80_0000
    };
    let k: u32 = if e == 0 {
        1
    } else {
        e
    };
    let shift: u64 = 150 - k as u64;
    proof {
        lemma_level_below_one(v, sig as int, k as nat);
        lemma2_to64();
    }
    if shift >= 32 {
        proof {
            if shift > 32 {
                lemma_pow2_strictly_increases(32, shift as nat);
            }
            lemma_basic_div(255 * sig, pow2(shift as nat) as int);
        }
        0
    } else {
        proof {
            lemma_u64_shr_is_div((255 * sig) as u64, shift);
        }
        ((255 * sig) >> shift) as u8
    }
}

impl Color4u8 {
    /// The word of the frame buffer for this colour: red in bits 0 to 7, green in
    /// bits 8 to 15, blue in bits 16 to 23. Alpha has no place in it.
    pub open spec fn packed(self) -> u32 {
        (self.r + 0x100 * self.g + 0x1_0000 * self.b) as u32
    }

    /// The colour with the given channels.
    pub fn new(r: u8, g: u8, b: u8, a: u8) -> (color: Self)
        ensures
            color == (Color4u8 { a, r, g, b }),
    {
        Self { a, r, g, b }
    }

    /// The colour for four light levels, each the bit pattern of a single: every
    /// channel is 255 times its level, rounded down and held to the range of a byte.
    pub fn from_f32s(r: u32, g: u32, b: u32, a: u32) -> (color: Self)
        ensures
            color.r == level_byte(r),
            color.g == level_byte(g),
            color.b == level_byte(b),
            color.a == level_byte(a),
    {
        Self { a: f32_to_u8(a), r: f32_to_u8(r), g: f32_to_u8(g), b: f32_to_u8(b) }
    }

    /// Packs the colour into a word of the frame buffer.
    pub fn as_u32(&self) -> (word: u32)
        ensures
            word == self.packed(),
    {
        let r: u32 = self.r as u32;
        let g: u32 = self.g as u32;
        let b: u32 = self.b as u32;
        assert(b << 16 | g << 8 | r == r + 0x100 * g + 0x1_0000 * b) by (bit_vector)
            requires
                r < 0x100,
                g < 0x100,
                b < 0x100,
        ;
        b << 16 | g << 8 | r
    }

    /// Unpacks a word of the frame buffer.
    pub fn from_u32(word: u32) -> (color: Self)
        ensures
            color == unpacked(word),
    {
        assert(word & 0xff == word % 0x100) by (bit_vector);
        assert((word >> 8) & 0xff == word / 0x100 % 0x100) by (bit_vector);
        assert((word >> 16) & 0xff == word / 0x1_0000 % 0x100) by (bit_vector);
        Self {
            a: 255,
            r: (word & 0xff) as u8,
            g: ((word >> 8) & 0xff) as u8,
            b: ((word >> 16) & 0xff) as u8,
        }
    }
}

/// Packing a colour and unpacking the word gives back its red, green and blue.
pub proof fn lemma_unpack_packed_channels(color: Color4u8)
    ensures
        unpacked(color.packed()).r == color.r,
        unpacked(color.packed()).g == color.g,
        unpacked(color.packed()).b == color.b,
{
    let r: u32 = color.r as u32;
    let g: u32 = color.g as u32;
    let b: u32 = color.b as u32;
    let word: u32 = color.packed();
    assert(word % 0x100 == r && word / 0x100 % 0x100 == g && word / 0x1_0000 % 0x100 == b)
        by (bit_vector)
        requires
            r < 0x100,
            g < 0x100,
            b < 0x100,
            word == r + 0x100 * g + 0x1_0000 * b,
    ;
}

/// Packing an opaque colour and unpacking the word gives back the colour.
pub proof fn lemma_unpack_packed(color: Color4u8)
    requires
        color.a == 255,
    ensures
        unpacked(color.packed()) == color,
{
    lemma_unpack_packed_channels(color);
}

/// Unpacking a word and packing the colour gives back the word's low 24 bits.
pub proof fn lemma_pack_unpacked(word: u32)
    ensures
        unpacked(word).packed() == word % 0x100_0000,
{
    assert(word % 0x100 + 0x100 * (word / 0x100 % 0x100) + 0x1_0000 * (word / 0x1_0000 % 0x100)
        == word % 0x100_0000) by (bit_vector);
}

} // verus!
