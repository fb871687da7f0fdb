//! The eight-bit floating point format of the machine: one sign bit, three
//! exponent bits and four mantissa bits.
//!
//! Numbers outside the packed format are held as [`Fixed`], a signed
//! fixed-point number with eight fraction bits. Every packed byte decodes to a
//! `Fixed` exactly, and so does every sum of two decoded bytes.

use vstd::prelude::*;
use vstd::arithmetic::power2::{pow2, lemma2_to64};
use vstd::bits::lemma_u16_shl_is_mul;
use vstd::pervasive::unreached;

verus! {

/// A signed fixed-point number with eight fraction bits: `raw / 256`.
#[derive(Debug, Clone, Copy, PartialEq, Eq, Structural)]
pub struct Fixed {
    /// The number in units of 1/256.
    pub raw: i16,
}

impl View for Fixed {
    type V = int;

    /// The number in units of 1/256, as a mathematical integer.
    open spec fn view(&self) -> int {
        self.raw as int
    }
}

/// An eight bit floating point value.
#[derive(Debug, Clone, Copy, PartialEq, Eq, Structural)]
pub struct Floating {
    /// The bits making up the sign bit, the exponent and the mantissa.
    pub value: u8,
}

/// The weight of the lowest mantissa bit at `exponent`, in units of 1/256:
/// two to the power `exponent + 4`, for the eight exponents from −4 to 3.
pub open spec fn unit(exponent: int) -> int
    recommends
        -4 <= exponent <= 3,
{
    if exponent >= 3 {
        128
    } else if exponent == 2 {
        64
    } else if exponent == 1 {
        32
    } else if exponent == 0 {
        16
    } else if exponent == -1 {
        8
    } else if exponent == -2 {
        4
    } else if exponent == -3 {
        2
    } else {
        1
    }
}

/// The units are the powers of two.
pub proof fn lemma_unit_is_power_of_two(exponent: int)
    requires
        -4 <= exponent <= 3,
    ensures
        unit(exponent) == pow2((exponent + 4) as nat),
{
    lemma2_to64();
}

impl Floating {
    /// The sign bit: 1 for a negative number, 0 otherwise.
    pub open spec fn spec_sign_bit(self) -> int {
        self.value as int / 128
    }

    /// The exponent, from −4 for the field `000` up to 3 for `111`.
    pub open spec fn spec_exponent(self) -> int {
        (self.value as int / 16) % 8 - 4
    }

    /// The four mantissa bits as a number below 16.
    pub open spec fn spec_mantissa(self) -> int {
        self.value as int % 16
    }

    /// The number that the byte stands for, in units of 1/256: the mantissa
    /// scaled by the exponent, negated where the sign bit is set.
    pub open spec fn spec_decode(self) -> int {
        let magnitude = self.spec_mantissa() * unit(self.spec_exponent());
        if self.spec_sign_bit() == 1 {
            -magnitude
        } else {
            magnitude
        }
    }

    /// The exponent that packs a number of the given magnitude (in units of
    /// 1/256): 3 for a magnitude of 4 or more, 2 from 2 on and 1 from 1 on,
    /// then 0, −1, −2 and −3 from 1/2, 1/4, 1/8 and 1/16 on, and −4 below
    /// that, zero included.
    pub open spec fn encoded_exponent(magnitude: int) -> int {
        if magnitude >= 1024 {
            3
        } else if magnitude >= 512 {
            2
        } else if magnitude >= 256 {
            1
        } else if magnitude >= 128 {
            0
        } else if magnitude >= 64 {
            -1
        } else if magnitude >= 32 {
            -2
        } else if magnitude >= 16 {
            -3
        } else {
            -4
        }
    }

    /// The mantissa that packs a number of the given magnitude (in units of
    /// 1/256). The magnitude is capped just below 8 and cut down to a multiple
    /// of 1/32, the lightest weight there is; the mantissa is how many times
    /// the unit of the chosen exponent fits in what is left.
    pub open spec fn encoded_mantissa(magnitude: int) -> int {
        let capped = if magnitude > 2047 {
            2047
        } else {
            magnitude
        };
        (capped - capped % 8) / unit(Self::encoded_exponent(magnitude))
    }

    /// The byte that packs `number` (in units of 1/256): the sign bit is set
    /// for a number below zero, the exponent field holds the exponent plus 4.
    pub open spec fn spec_encode(number: int) -> Floating {
        let magnitude = if number < 0 {
            -number
        } else {
            number
        };
        let sign: int = if number < 0 {
            1
        } else {
            0
        };
        Floating {
            value: (sign * 128 + (Self::encoded_exponent(magnitude) + 4) * 16
                + Self::encoded_mantissa(magnitude)) as u8,
        }
    }

    /// Gets the value of the sign bit.
    pub fn sign_bit(&self) -> (bit: u8)
        ensures
            bit as int == self.spec_sign_bit(),
    {
        let v: u8 = self.value;
        assert(v >> 7 == v / 128) by (bit_vector);
        v >> 7
    }

    /// Gets the value of the exponent.
    pub fn exponent(&self) -> (exponent: i8)
        ensures
            exponent as int == self.spec_exponent(),
    {
        let v: u8 = self.value;
        let bits: u8 = (v & 0x70) >> 4;
        assert((v & 0x70) >> 4 == (v / 16) % 8) by (bit_vector);
        match bits {
            0x07 => 3,
            0x06 => 2,
            0x05 => 1,
            0x04 => 0,
            0x03 => -1,
            0x02 => -2,
            0x01 => -3,
            0x00 => -4,
            _ => unreached(),
        }
    }

    /// Gets the mantissa.
    pub fn mantissa(&self) -> (mantissa: u8)
        ensures
            mantissa as int == self.spec_mantissa(),
    {
        let v: u8 = self.value;
        assert(v & 0x0F == v % 16) by (bit_vector);
        v & 0x0F
    }

    /// Decodes the [Floating] into a [Fixed].
    ///
    /// The top bits of the mantissa, as many as the exponent says, are the
    /// integer part; the bits below them are summed with the weights 1/2, 1/4
    /// and so on.
    pub fn decode(&self) -> (number: Fixed)
        ensures
            number@ == self.spec_decode(),
            -1920 <= number@ <= 1920,
    {
        let sign = self.sign_bit();
        let mantissa = self.mantissa();
        let exponent = self.exponent();
        let fraction_len: u8 = (4 - exponent) as u8;
        let int_part: u8 = if exponent <= 0 {
            0
        } else {
            mantissa >> fraction_len
        };
        let shifts: u8 = 8 - fraction_len;
        let fraction_bits: u8 = (mantissa << shifts) >> shifts;
        assert(fraction_bits < 16 && summed(fraction_bits, fraction_len, 0) == 0) by (bit_vector)
            requires
                mantissa < 16,
                1 <= fraction_len <= 8,
                shifts == 8 - fraction_len,
                fraction_bits == (mantissa << shifts) >> shifts,
        ;
        let mut sum: u16 = 0;
        let mut i: u8 = 1;
        while i <= fraction_len
            invariant
                1 <= i <= fraction_len + 1,
                fraction_len <= 8,
                fraction_bits < 16,
                sum == summed(fraction_bits, fraction_len, (i - 1) as u8),
            decreases fraction_len + 1 - i,
        {
            let bit: u8 = (fraction_bits >> (fraction_len - i)) & 0x01;
            let weight: u16 = 256u16 >> i;
            assert(bit as u16 * weight + sum == summed(fraction_bits, fraction_len, i) && bit
                as u16 * weight + sum <= 0x0F00) by (bit_vector)
                requires
                    1 <= i <= fraction_len <= 8,
                    fraction_bits < 16,
                    bit == (fraction_bits >> ((fraction_len - i) as u8)) & 0x01,
                    weight == 256u16 >> i,
                    sum == summed(fraction_bits, fraction_len, (i - 1) as u8),
            ;
            sum = sum + bit as u16 * weight;
            i += 1;
        }
        assert(sum == (fraction_bits as u16) << (shifts as u16)) by (bit_vector)
            requires
                1 <= fraction_len <= 8,
                shifts == 8 - fraction_len,
                sum == summed(fraction_bits, fraction_len, fraction_len),
        ;
        proof {
            lemma_split_mantissa(mantissa, exponent, int_part, fraction_bits, sum);
        }
        let abs: u16 = int_part as u16 * 256 + sum;
        if sign == 1 {
            Fixed { raw: -(abs as i16) }
        } else {
            Fixed { raw: abs as i16 }
        }
    }

    /// Encodes a [Fixed] into a [Floating].
    ///
    /// The weights 4, 2, 1, 1/2 and so on down to 1/32 are taken from the
    /// magnitude in turn, each where it still fits, and each one taken sets
    /// a bit; the mantissa is the first bit set and the three after it.
    ///
    /// Every number is packed, and none is rounded up. What lies below the
    /// mantissa's lowest bit is cut off, so a magnitude under 1/32 becomes
    /// zero with the sign of the number, and a magnitude of 8 or more becomes
    /// 7.5, the largest there is.
    pub fn encode(value: Fixed) -> (packed: Floating)
        ensures
            packed == Self::spec_encode(value@),
    {
        let wide: i32 = value.raw as i32;
        let sign: u8 = if wide < 0 {
            1
        } else {
            0
        };
        let magnitude: u16 = if wide < 0 {
            (-wide) as u16
        } else {
            wide as u16
        };

        let exponent_value: u8 = if magnitude >= 1024 {
            0x07
        } else if magnitude >= 512 {
            0x06
        } else if magnitude >= 256 {
            0x05
        } else if magnitude >= 128 {
            0x04
        } else if magnitude >= 64 {
            0x03
        } else if magnitude >= 32 {
            0x02
        } else if magnitude >= 16 {
            0x01
        } else {
            0x00
        };

        let mantissa: u8 = {
            let mut bits: u8 = 0b00000000;
            let mut running: u16 = magnitude;
            let mut shift: u8 = 7;
            let mut place: u8 = 0;
            assert(bits == leading(magnitude, 0) && shift == first_set(bits)) by (bit_vector)
                requires
                    bits == 0,
                    shift == 7,
            ;
            while place < 8
                invariant
                    place <= 8,
                    magnitude <= 32768,
                    bits == leading(magnitude, place),
                    running + bits * 8 == magnitude,
                    shift == first_set(bits),
                decreases 8 - place,
            {
                let weight: u16 = 1024u16 >> place;
                let ghost next = (place + 1) as u8;
                let ghost set = bits | (0x80u8 >> place);
                assert(weight <= 1024 && (running >= weight ==> leading(magnitude, next) == set
                    && set * 8 == bits * 8 + weight && first_set(set) == (if shift > place {
                    place
                } else {
                    shift
                })) && (running < weight ==> leading(magnitude, next) == bits)) by (bit_vector)
                    requires
                        place < 8,
                        magnitude <= 32768,
                        weight == 1024u16 >> place,
                        bits == leading(magnitude, place),
                        running + bits * 8 == magnitude,
                        shift == first_set(bits),
                        next == place + 1,
                        set == bits | (0x80u8 >> place),
                ;
                if running >= weight {
                    bits |= 0b10000000 >> place;
                    running -= weight;
                    if shift > place {
                        shift = place;
                    }
                }
                place += 1;
            }
            proof {
                lemma_left_aligned(magnitude, bits, shift);
            }
            (bits << shift) >> 4
        };

        let r: u8 = sign << 7;
        let exponent_bits: u8 = exponent_value << 4;
        let r: u8 = (r | exponent_bits) | mantissa;
        assert(r == sign * 128 + exponent_value * 16 + mantissa) by (bit_vector)
            requires
                sign <= 1,
                exponent_value <= 7,
                mantissa <= 15,
                r == ((sign << 7) | (exponent_value << 4)) | mantissa,
        ;
        Floating { value: r }
    }
}

/// Every byte decodes to a number between −7.5 and 7.5.
pub proof fn lemma_decode_bounds(packed: Floating)
    ensures
        -1920 <= packed.spec_decode() <= 1920,
{
    let mantissa = packed.spec_mantissa();
    let exponent = packed.spec_exponent();
    assert(0 <= mantissa <= 15);
    assert(1 <= unit(exponent) <= 128);
    assert(0 <= mantissa * unit(exponent) <= 1920) by (nonlinear_arith)
        requires
            0 <= mantissa <= 15,
            1 <= unit(exponent) <= 128,
    ;
}

/// The byte that packs a number holds its three parts in its fields: the sign
/// bit is set for a number below zero and for no other, and the exponent and
/// the mantissa are those that the magnitude gives.
pub proof fn lemma_encode_fields(number: int)
    ensures
        Floating::spec_encode(number).spec_sign_bit() == (if number < 0 {
            1int
        } else {
            0int
        }),
        Floating::spec_encode(number).spec_exponent() == Floating::encoded_exponent(
            if number < 0 {
                -number
            } else {
                number
            },
        ),
        Floating::spec_encode(number).spec_mantissa() == Floating::encoded_mantissa(
            if number < 0 {
                -number
            } else {
                number
            },
        ),
{
    let magnitude = if number < 0 {
        -number
    } else {
        number
    };
    lemma_mantissa_bounds(magnitude);
}

/// The mantissa of a magnitude is below 16, and from the exponent −3 on its
/// highest bit is set.
pub proof fn lemma_mantissa_bounds(magnitude: int)
    requires
        magnitude >= 0,
    ensures
        0 <= Floating::encoded_mantissa(magnitude) <= 15,
        magnitude >= 16 ==> Floating::encoded_mantissa(magnitude) >= 8,
{
}

/// Packing cuts off and never adds: the byte that packs a number decodes to a
/// number that lies between zero and the number packed.
pub proof fn lemma_encode_cuts_off(number: int)
    ensures
        number >= 0 ==> 0 <= Floating::spec_encode(number).spec_decode() <= number,
        number <= 0 ==> number <= Floating::spec_encode(number).spec_decode() <= 0,
{
    let magnitude = if number < 0 {
        -number
    } else {
        number
    };
    lemma_encode_fields(number);
    let exponent = Floating::encoded_exponent(magnitude);
    let mantissa = Floating::encoded_mantissa(magnitude);
    let capped = if magnitude > 2047 {
        2047
    } else {
        magnitude
    };
    let kept = capped - capped % 8;
    assert(0 <= kept <= magnitude);
    assert(0 <= mantissa * unit(exponent) <= kept) by (nonlinear_arith)
        requires
            mantissa == kept / unit(exponent),
            unit(exponent) >= 1,
            kept >= 0,
    ;
}

/// What packing cuts off is less than 1/32 or less than the weight of the
/// lowest mantissa bit, for every number whose magnitude is below 8.
pub proof fn lemma_encode_precision(number: int)
    requires
        -2048 < number < 2048,
    ensures
        ({
            let back = Floating::spec_encode(number).spec_decode();
            let lost = if number < 0 {
                back - number
            } else {
                number - back
            };
            let exponent = Floating::spec_encode(number).spec_exponent();
            0 <= lost && (lost < 8 || lost < unit(exponent))
        }),
{
    let magnitude = if number < 0 {
        -number
    } else {
        number
    };
    lemma_encode_fields(number);
    lemma_scaled(
        Floating::encoded_mantissa(magnitude),
        Floating::encoded_exponent(magnitude),
    );
}

/// The round trip: a byte whose number is a multiple of 1/32 decodes to a
/// number that is packed into a byte of the same number.
pub proof fn lemma_round_trip(packed: Floating)
    requires
        packed.spec_decode() % 8 == 0,
    ensures
        Floating::spec_encode(packed.spec_decode()).spec_decode() == packed.spec_decode(),
{
    let number = packed.spec_decode();
    let mantissa = packed.spec_mantissa();
    let exponent = packed.spec_exponent();
    let magnitude = mantissa * unit(exponent);
    lemma_scaled(mantissa, exponent);
    assert(0 <= magnitude <= 1920);
    assert(number == magnitude || number == -magnitude);
    assert(magnitude % 8 == 0);
    lemma_unit_divides(mantissa, exponent);
    let packing = Floating::encoded_exponent(magnitude);
    let kept = Floating::encoded_mantissa(magnitude);
    assert(kept == magnitude / unit(packing));
    lemma_scaled(kept, packing);
    assert(kept * unit(packing) == magnitude);
    lemma_encode_fields(number);
}

/// The unit of the exponent that packs a scaled mantissa divides it: a
/// mantissa has four bits, and so has no bit below the four that are kept.
proof fn lemma_unit_divides(mantissa: int, exponent: int)
    requires
        0 <= mantissa <= 15,
        -4 <= exponent <= 3,
    ensures
        ({
            let magnitude = mantissa * unit(exponent);
            let packing = unit(Floating::encoded_exponent(magnitude));
            (magnitude / packing) * packing == magnitude
        }),
{
    lemma_scaled(mantissa, exponent);
    let magnitude = mantissa * unit(exponent);
    let packing = unit(Floating::encoded_exponent(magnitude));
    if exponent == 3 {
        assert(magnitude == mantissa * 128);
        assert(packing == 128 || packing == 64 || packing == 32 || packing == 16 || magnitude
            == 0);
    } else if exponent == 2 {
        assert(magnitude == mantissa * 64);
        assert(packing == 64 || packing == 32 || packing == 16 || packing == 8 || magnitude
            == 0);
    } else if exponent == 1 {
        assert(magnitude == mantissa * 32);
        assert(packing == 32 || packing == 16 || packing == 8 || packing == 4 || magnitude
            == 0);
    } else if exponent == 0 {
        assert(magnitude == mantissa * 16);
        assert(packing == 16 || packing == 8 || packing == 4 || packing == 2 || magnitude == 0);
    } else if exponent == -1 {
        assert(magnitude == mantissa * 8);
        assert(packing == 8 || packing == 4 || packing == 2 || packing == 1);
    } else if exponent == -2 {
        assert(magnitude == mantissa * 4);
        assert(packing == 4 || packing == 2 || packing == 1);
    } else if exponent == -3 {
        assert(magnitude == mantissa * 2);
        assert(packing == 2 || packing == 1);
    } else {
        assert(magnitude == mantissa);
        assert(packing == 1);
    }
}

/// A mantissa times the unit of an exponent, exponent by exponent.
proof fn lemma_scaled(mantissa: int, exponent: int)
    ensures
        mantissa * unit(exponent) == if exponent >= 3 {
            mantissa * 128
        } else if exponent == 2 {
            mantissa * 64
        } else if exponent == 1 {
            mantissa * 32
        } else if exponent == 0 {
            mantissa * 16
        } else if exponent == -1 {
            mantissa * 8
        } else if exponent == -2 {
            mantissa * 4
        } else if exponent == -3 {
            mantissa * 2
        } else {
            mantissa
        },
{
}

/// The bits that the `taken` heaviest weights set for `magnitude`: the weights
/// run from 4 down to 1/32, so the bits are those of the magnitude in units of
/// 1/32, all of them set where the magnitude is 8 or more.
spec fn leading(magnitude: u16, taken: u8) -> u8 {
    let capped: u16 = if magnitude > 2047 {
        2047
    } else {
        magnitude
    };
    (((capped >> 3) >> ((8 - taken) as u16)) << ((8 - taken) as u16)) as u8
}

/// How far the highest set bit of `bits` lies below the top; 7 where no bit is
/// set.
spec fn first_set(bits: u8) -> u8 {
    if bits >= 128 {
        0
    } else if bits >= 64 {
        1
    } else if bits >= 32 {
        2
    } else if bits >= 16 {
        3
    } else if bits >= 8 {
        4
    } else if bits >= 4 {
        5
    } else if bits >= 2 {
        6
    } else {
        7
    }
}

/// The four highest bits from the first set bit on are the mantissa that
/// `encoded_mantissa` names.
proof fn lemma_left_aligned(magnitude: u16, bits: u8, shift: u8)
    requires
        magnitude <= 32768,
        bits == leading(magnitude, 8),
        shift == first_set(bits),
    ensures
        ((bits << shift) >> 4) as int == Floating::encoded_mantissa(magnitude as int),
        (bits << shift) >> 4 <= 15,
{
    let m: u8 = (bits << shift) >> 4;
    assert(m <= 15 && bits == (if magnitude > 2047 {
        255
    } else {
        magnitude / 8
    }) && (magnitude >= 1024 ==> m == bits / 16) && (512 <= magnitude < 1024 ==> m == bits / 8)
        && (256 <= magnitude < 512 ==> m == bits / 4) && (128 <= magnitude < 256 ==> m == bits
        / 2) && (64 <= magnitude < 128 ==> m == bits) && (32 <= magnitude < 64 ==> m == bits
        * 2) && (16 <= magnitude < 32 ==> m == bits * 4) && (magnitude < 16 ==> m == bits * 8))
        by (bit_vector)
        requires
            magnitude <= 32768,
            bits == leading(magnitude, 8),
            shift == first_set(bits),
            m == (bits << shift) >> 4,
    ;
    let capped: int = if magnitude > 2047 {
        2047
    } else {
        magnitude as int
    };
    let kept = capped - capped % 8;
    assert(kept == bits * 8);
}

/// The sum of the `taken` highest of the `len` fraction bits in `bits`, each
/// with its weight in units of 1/256.
spec fn summed(bits: u8, len: u8, taken: u8) -> u16 {
    ((bits as u16) >> ((len - taken) as u16)) << ((8 - taken) as u16)
}

/// The integer part and the summed fraction bits of a mantissa make up the
/// mantissa scaled by its exponent.
proof fn lemma_split_mantissa(mantissa: u8, exponent: i8, int_part: u8, fraction_bits: u8, sum: u16)
    requires
        mantissa < 16,
        -4 <= exponent <= 3,
        int_part == if exponent <= 0 { 0 } else { mantissa >> ((4 - exponent) as u8) },
        fraction_bits == (mantissa << ((4 + exponent) as u8)) >> ((4 + exponent) as u8),
        sum == (fraction_bits as u16) << ((4 + exponent) as u16),
    ensures
        int_part < 16,
        int_part * 256 + sum == mantissa * unit(exponent as int),
        int_part * 256 + sum <= 1920,
{
    lemma2_to64();
    let shift: u8 = (4 + exponent) as u8;
    assert(int_part < 16 && int_part as u16 * 256 + sum == (mantissa as u16) << (shift as u16)
        && (mantissa as u16) << (shift as u16) <= 1920) by (bit_vector)
        requires
            mantissa < 16,
            shift <= 7,
            int_part == if shift <= 4 { 0 } else { mantissa >> ((8 - shift) as u8) },
            fraction_bits == (mantissa << shift) >> shift,
            sum == (fraction_bits as u16) << (shift as u16),
    ;
    assert(mantissa * pow2(shift as nat) <= u16::MAX) by (nonlinear_arith)
        requires
            mantissa < 16,
            pow2(shift as nat) <= 128,
    ;
    lemma_u16_shl_is_mul(mantissa as u16, shift as u16);
}

} // verus!
