//! Bit fields of registers: a run of bits inside a few bytes.
//!
//! The bytes of a register are taken lowest first, and the bits of each
//! byte lowest first, so that bit `p` of a register is bit `p % 8` of its
//! byte `p / 8`.

use crate::bytes::{read_word, word_at, word_bytes, word_to_bytes};
use vstd::prelude::*;

verus! {

/// A field of a register: `size` bytes at `addr`, and within them, where
/// `bits` is given, the bits from the lower to the upper, both counted in.
#[derive(Copy, Clone, Debug, PartialEq, Eq)]
pub struct Field {
    pub addr: u64,
    pub size: usize,
    pub bits: Option<(u32, u32)>,
}

/// Whether bit `b` of the byte `x` is set.
pub open spec fn byte_bit(x: u8, b: int) -> bool {
    (x >> (b as u8)) & 1 == 1
}

/// Whether bit `p` of `bytes` is set; a bit that the bytes do not have is
/// not.
pub open spec fn bit_of(bytes: Seq<u8>, p: int) -> bool {
    if 0 <= p < 8 * bytes.len() {
        byte_bit(bytes[p / 8], p % 8)
    } else {
        false
    }
}

/// The byte whose lowest `n` bits are set.
pub open spec fn low_mask_spec(n: u8) -> u8 {
    ((((1u16 << (n as u16)) - 1) as u16) & 0xff) as u8
}

/// The byte whose lowest `n` bits are set.
pub fn low_mask(n: u8) -> (r: u8)
    requires
        n <= 8,
    ensures
        r == low_mask_spec(n),
        forall|b: int| 0 <= b < 8 ==> #[trigger] byte_bit(r, b) == (b < n),
{
    let wide: u16 = 1u16 << (n as u16);
    proof {
        assert(wide >= 1 && (wide - 1) as u16 & 0xff <= 0xff) by (bit_vector)
            requires
                wide == 1u16 << (n as u16),
                n <= 8,
        ;
    }
    let r = ((wide - 1) & 0xff) as u8;
    proof {
        assert forall|b: int| 0 <= b < 8 implies #[trigger] byte_bit(r, b) == (b < n) by {
            let bb = b as u8;
            assert(((r >> bb) & 1 == 1) == (bb < n)) by (bit_vector)
                requires
                    r == ((((1u16 << (n as u16)) - 1) as u16) & 0xff) as u8,
                    n <= 8,
                    bb < 8,
            ;
        }
    }
    r
}

/// Two bytes with the same bits are the same byte.
pub proof fn lemma_byte_ext(x: u8, y: u8)
    requires
        forall|b: int| 0 <= b < 8 ==> #[trigger] byte_bit(x, b) == byte_bit(y, b),
    ensures
        x == y,
{
    assert(byte_bit(x, 0) == byte_bit(y, 0));
    assert(byte_bit(x, 1) == byte_bit(y, 1));
    assert(byte_bit(x, 2) == byte_bit(y, 2));
    assert(byte_bit(x, 3) == byte_bit(y, 3));
    assert(byte_bit(x, 4) == byte_bit(y, 4));
    assert(byte_bit(x, 5) == byte_bit(y, 5));
    assert(byte_bit(x, 6) == byte_bit(y, 6));
    assert(byte_bit(x, 7) == byte_bit(y, 7));
    assert(x == y) by (bit_vector)
        requires
            ((x >> 0u8) & 1 == 1) == ((y >> 0u8) & 1 == 1),
            ((x >> 1u8) & 1 == 1) == ((y >> 1u8) & 1 == 1),
            ((x >> 2u8) & 1 == 1) == ((y >> 2u8) & 1 == 1),
            ((x >> 3u8) & 1 == 1) == ((y >> 3u8) & 1 == 1),
            ((x >> 4u8) & 1 == 1) == ((y >> 4u8) & 1 == 1),
            ((x >> 5u8) & 1 == 1) == ((y >> 5u8) & 1 == 1),
            ((x >> 6u8) & 1 == 1) == ((y >> 6u8) & 1 == 1),
            ((x >> 7u8) & 1 == 1) == ((y >> 7u8) & 1 == 1),
    ;
}

/// The bits of a byte put together from the high bits of `x`, moved down
/// by `s`, and the low bits of `hi`, moved up to fill the gap.
proof fn lemma_shift_down(x: u8, hi: u8, s: u8, b: u8)
    requires
        0 < s < 8,
        b < 8,
    ensures
        byte_bit((x >> s) | ((hi & low_mask_spec(s)) << ((8 - s) as u8)), b as int) == if b + s < 8 {
            byte_bit(x, b + s)
        } else {
            byte_bit(hi, b + s - 8)
        },
{
    let m = low_mask_spec(s);
    let y = (x >> s) | ((hi & m) << ((8 - s) as u8));
    let up = (b + s) as u8;
    assert(((y >> b) & 1 == 1) == (if up < 8 {
        (x >> up) & 1 == 1
    } else {
        (hi >> ((up - 8) as u8)) & 1 == 1
    })) by (bit_vector)
        requires
            0 < s < 8,
            b < 8,
            up == b + s,
            m == ((((1u16 << (s as u16)) - 1) as u16) & 0xff) as u8,
            y == (x >> s) | ((hi & m) << ((8 - s) as u8)),
    ;
}

/// No bit of the byte 0 is set.
proof fn lemma_zero_byte(b: u8)
    requires
        b < 8,
    ensures
        !byte_bit(0u8, b as int),
{
    assert((0u8 >> b) & 1 == 0) by (bit_vector)
        requires
            b < 8,
    ;
}

/// Moves the bits of `existing` down by `shift` places: bit `p` becomes
/// what bit `p + shift` was, and the bits at the top become 0.
pub fn right_shift(existing: &mut Vec<u8>, shift: u32)
    requires
        8 * old(existing)@.len() <= usize::MAX,
    ensures
        final(existing)@.len() == old(existing)@.len(),
        forall|p: int|
            0 <= p < 8 * old(existing)@.len() ==> #[trigger] bit_of(final(existing)@, p) == bit_of(
                old(existing)@,
                p + shift,
            ),
{
    let len = existing.len();
    let byte_shift = shift as usize / 8;
    let bit_shift = (shift as usize % 8) as u8;
    let ghost before = existing@;

    if shift as usize >= len * 8 {
        let mut i: usize = 0;
        while i < len
            invariant
                i <= len,
                existing@.len() == len,
                forall|j: int| 0 <= j < i ==> existing@[j] == 0,
            decreases len - i,
        {
            existing[i] = 0;
            i += 1;
        }
        proof {
            assert forall|p: int| 0 <= p < 8 * len implies #[trigger] bit_of(existing@, p) == bit_of(
                before,
                p + shift,
            ) by {
                lemma_zero_byte((p % 8) as u8);
            }
        }
        return ;
    }
    if byte_shift > 0 {
        let mut index: usize = 0;
        while index < len
            invariant
                index <= len,
                byte_shift < len,
                8 * len <= usize::MAX,
                existing@.len() == len,
                before.len() == len,
                forall|j: int|
                    0 <= j < index ==> existing@[j] == if j + byte_shift < len {
                        before[j + byte_shift]
                    } else {
                        0u8
                    },
                forall|j: int| index <= j < len ==> existing@[j] == before[j],
            decreases len - index,
        {
            let moved = if index + byte_shift < len {
                existing[index + byte_shift]
            } else {
                0
            };
            existing[index] = moved;
            index += 1;
        }
    }
    let ghost moved = existing@;
    proof {
        assert forall|j: int| 0 <= j < len implies moved[j] == if j + byte_shift < len {
            before[j + byte_shift]
        } else {
            0u8
        } by {}
    }
    if bit_shift > 0 {
        let mask = low_mask(bit_shift);
        let mut carry: u8 = 0;
        let mut i: usize = len;
        while i > 0
            invariant
                i <= len,
                0 < bit_shift < 8,
                mask == low_mask_spec(bit_shift),
                existing@.len() == len,
                moved.len() == len,
                forall|j: int| 0 <= j < i ==> existing@[j] == moved[j],
                carry == if i < len {
                    (moved[i as int] & mask) << ((8 - bit_shift) as u8)
                } else {
                    0u8
                },
                forall|j: int, b: int|
                    i <= j < len && 0 <= b < 8 ==> #[trigger] byte_bit(existing@[j], b) == if b
                        + bit_shift < 8 {
                        byte_bit(moved[j], b + bit_shift)
                    } else if j + 1 < len {
                        byte_bit(moved[j + 1], b + bit_shift - 8)
                    } else {
                        false
                    },
            decreases i,
        {
            i -= 1;
            let x = existing[i];
            let next_carry = (x & mask) << (8 - bit_shift);
            let y = (x >> bit_shift) | carry;
            existing[i] = y;
            proof {
                assert forall|b: int| 0 <= b < 8 implies #[trigger] byte_bit(y, b) == if b
                    + bit_shift < 8 {
                    byte_bit(moved[i as int], b + bit_shift)
                } else if i + 1 < len {
                    byte_bit(moved[i + 1], b + bit_shift - 8)
                } else {
                    false
                } by {
                    if i + 1 < len {
                        lemma_shift_down(x, moved[i + 1], bit_shift, b as u8);
                    } else {
                        lemma_shift_down(x, 0u8, bit_shift, b as u8);
                        assert((0u8 & mask) << ((8 - bit_shift) as u8) == 0) by (bit_vector);
                        if b + bit_shift >= 8 {
                            lemma_zero_byte((b + bit_shift - 8) as u8);
                        }
                    }
                }
            }
            carry = next_carry;
        }
    }
    proof {
        assert forall|p: int| 0 <= p < 8 * len implies #[trigger] bit_of(existing@, p) == bit_of(
            before,
            p + shift,
        ) by {
            lemma_shifted_bit(before, moved, existing@, shift as int, p);
        }
    }
}

/// Bit `p` after a shift by whole bytes and then by bits is bit
/// `p + shift` from before.
proof fn lemma_shifted_bit(before: Seq<u8>, moved: Seq<u8>, after: Seq<u8>, shift: int, p: int)
    requires
        before.len() == moved.len() == after.len(),
        0 <= shift < 8 * before.len(),
        0 <= p < 8 * before.len(),
        forall|j: int|
            0 <= j < before.len() ==> moved[j] == if j + shift / 8 < before.len() {
                before[j + shift / 8]
            } else {
                0u8
            },
        shift % 8 == 0 ==> after == moved,
        shift % 8 != 0 ==> forall|j: int, b: int|
            0 <= j < before.len() && 0 <= b < 8 ==> #[trigger] byte_bit(after[j], b) == if b + shift
                % 8 < 8 {
                byte_bit(moved[j], b + shift % 8)
            } else if j + 1 < before.len() {
                byte_bit(moved[j + 1], b + shift % 8 - 8)
            } else {
                false
            },
    ensures
        bit_of(after, p) == bit_of(before, p + shift),
{
    let len = before.len() as int;
    let j = p / 8;
    let b = p % 8;
    let sb = shift / 8;
    let sr = shift % 8;
    let q = p + shift;
    assert(p == 8 * j + b && shift == 8 * sb + sr);
    // The byte and the bit that the bit at `q` stood in.
    if b + sr < 8 {
        vstd::arithmetic::div_mod::lemma_fundamental_div_mod_converse(q, 8, j + sb, b + sr);
        if sr != 0 {
            assert(byte_bit(after[j], b) == byte_bit(moved[j], b + sr));
        }
        if j + sb >= len {
            lemma_zero_byte((b + sr) as u8);
            assert(moved[j] == 0u8);
        } else {
            assert(moved[j] == before[j + sb]);
        }
    } else {
        vstd::arithmetic::div_mod::lemma_fundamental_div_mod_converse(
            q,
            8,
            j + 1 + sb,
            b + sr - 8,
        );
        assert(sr != 0);
        assert(byte_bit(after[j], b) == if j + 1 < len {
            byte_bit(moved[j + 1], b + sr - 8)
        } else {
            false
        });
        if j + 1 < len {
            if j + 1 + sb >= len {
                lemma_zero_byte((b + sr - 8) as u8);
                assert(moved[j + 1] == 0u8);
            } else {
                assert(moved[j + 1] == before[j + 1 + sb]);
            }
        }
    }
}

/// The bits of a byte put together from the low bits of `x`, moved up by
/// `s`, and the high bits of `lo`, moved down to fill the gap.
proof fn lemma_shift_up(x: u8, lo: u8, s: u8, b: u8)
    requires
        0 < s < 8,
        b < 8,
    ensures
        byte_bit((x << s) | (lo >> ((8 - s) as u8)), b as int) == if b >= s {
            byte_bit(x, b - s)
        } else {
            byte_bit(lo, 8 - s + b)
        },
{
    let y = (x << s) | (lo >> ((8 - s) as u8));
    let from = if b >= s {
        (b - s) as u8
    } else {
        (8 - s + b) as u8
    };
    assert(((y >> b) & 1 == 1) == (if b >= s {
        (x >> from) & 1 == 1
    } else {
        (lo >> from) & 1 == 1
    })) by (bit_vector)
        requires
            0 < s < 8,
            b < 8,
            from == if b >= s {
                (b - s) as u8
            } else {
                (8 - s + b) as u8
            },
            y == (x << s) | (lo >> ((8 - s) as u8)),
    ;
}

/// Moves the bits of `existing` up by `shift` places: bit `p` becomes what
/// bit `p - shift` was, and the bits at the bottom become 0.
pub fn left_shift(existing: &mut Vec<u8>, shift: u32)
    requires
        8 * old(existing)@.len() <= usize::MAX,
    ensures
        final(existing)@.len() == old(existing)@.len(),
        forall|p: int|
            0 <= p < 8 * old(existing)@.len() ==> #[trigger] bit_of(final(existing)@, p) == bit_of(
                old(existing)@,
                p - shift,
            ),
{
    let len = existing.len();
    let byte_shift = shift as usize / 8;
    let bit_shift = (shift as usize % 8) as u8;
    let ghost before = existing@;

    if shift as usize >= len * 8 {
        let mut i: usize = 0;
        while i < len
            invariant
                i <= len,
                existing@.len() == len,
                forall|j: int| 0 <= j < i ==> existing@[j] == 0,
            decreases len - i,
        {
            existing[i] = 0;
            i += 1;
        }
        proof {
            assert forall|p: int| 0 <= p < 8 * len implies #[trigger] bit_of(existing@, p) == bit_of(
                before,
                p - shift,
            ) by {
                lemma_zero_byte((p % 8) as u8);
            }
        }
        return ;
    }
    if byte_shift > 0 {
        let mut index: usize = len;
        while index > 0
            invariant
                index <= len,
                byte_shift < len,
                existing@.len() == len,
                before.len() == len,
                forall|j: int|
                    index <= j < len ==> existing@[j] == if j >= byte_shift {
                        before[j - byte_shift]
                    } else {
                        0u8
                    },
                forall|j: int| 0 <= j < index ==> existing@[j] == before[j],
            decreases index,
        {
            index -= 1;
            let shifted = if index < byte_shift {
                0
            } else {
                existing[index - byte_shift]
            };
            existing[index] = shifted;
        }
    }
    let ghost moved = existing@;
    proof {
        assert forall|j: int| 0 <= j < len implies moved[j] == if j >= byte_shift {
            before[j - byte_shift]
        } else {
            0u8
        } by {}
    }
    if bit_shift > 0 {
        let mut carry: u8 = 0;
        let mut i: usize = 0;
        while i < len
            invariant
                i <= len,
                0 < bit_shift < 8,
                existing@.len() == len,
                moved.len() == len,
                forall|j: int| i <= j < len ==> existing@[j] == moved[j],
                carry == if i > 0 {
                    moved[i - 1] >> ((8 - bit_shift) as u8)
                } else {
                    0u8
                },
                forall|j: int, b: int|
                    0 <= j < i && 0 <= b < 8 ==> #[trigger] byte_bit(existing@[j], b) == if b
                        >= bit_shift {
                        byte_bit(moved[j], b - bit_shift)
                    } else if j > 0 {
                        byte_bit(moved[j - 1], 8 - bit_shift + b)
                    } else {
                        false
                    },
            decreases len - i,
        {
            let x = existing[i];
            let next_carry = x >> (8 - bit_shift);
            let y = (x << bit_shift) | carry;
            existing[i] = y;
            proof {
                assert forall|b: int| 0 <= b < 8 implies #[trigger] byte_bit(y, b) == if b
                    >= bit_shift {
                    byte_bit(moved[i as int], b - bit_shift)
                } else if i > 0 {
                    byte_bit(moved[i - 1], 8 - bit_shift + b)
                } else {
                    false
                } by {
                    if i > 0 {
                        lemma_shift_up(x, moved[i - 1], bit_shift, b as u8);
                    } else {
                        lemma_shift_up(x, 0u8, bit_shift, b as u8);
                        assert(0u8 >> ((8 - bit_shift) as u8) == 0) by (bit_vector);
                        if b < bit_shift {
                            lemma_zero_byte((8 - bit_shift + b) as u8);
                        }
                    }
                }
            }
            carry = next_carry;
            i += 1;
        }
    }
    proof {
        assert forall|p: int| 0 <= p < 8 * len implies #[trigger] bit_of(existing@, p) == bit_of(
            before,
            p - shift,
        ) by {
            lemma_raised_bit(before, moved, existing@, shift as int, p);
        }
    }
}

/// Bit `p` after a shift up by whole bytes and then by bits is bit
/// `p - shift` from before.
proof fn lemma_raised_bit(before: Seq<u8>, moved: Seq<u8>, after: Seq<u8>, shift: int, p: int)
    requires
        before.len() == moved.len() == after.len(),
        0 <= shift < 8 * before.len(),
        0 <= p < 8 * before.len(),
        forall|j: int|
            0 <= j < before.len() ==> moved[j] == if j >= shift / 8 {
                before[j - shift / 8]
            } else {
                0u8
            },
        shift % 8 == 0 ==> after == moved,
        shift % 8 != 0 ==> forall|j: int, b: int|
            0 <= j < before.len() && 0 <= b < 8 ==> #[trigger] byte_bit(after[j], b) == if b
                >= shift % 8 {
                byte_bit(moved[j], b - shift % 8)
            } else if j > 0 {
                byte_bit(moved[j - 1], 8 - shift % 8 + b)
            } else {
                false
            },
    ensures
        bit_of(after, p) == bit_of(before, p - shift),
{
    let len = before.len() as int;
    let j = p / 8;
    let b = p % 8;
    let sb = shift / 8;
    let sr = shift % 8;
    let q = p - shift;
    assert(p == 8 * j + b && shift == 8 * sb + sr);
    if b >= sr {
        // The bit comes from the same byte, after the byte shift.
        if j >= sb {
            vstd::arithmetic::div_mod::lemma_fundamental_div_mod_converse(q, 8, j - sb, b - sr);
            assert(moved[j] == before[j - sb]);
        } else {
            assert(q < 0);
            assert(moved[j] == 0u8);
            lemma_zero_byte((b - sr) as u8);
        }
        if sr != 0 {
            assert(byte_bit(after[j], b) == byte_bit(moved[j], b - sr));
        }
    } else {
        assert(sr != 0);
        assert(byte_bit(after[j], b) == if j > 0 {
            byte_bit(moved[j - 1], 8 - sr + b)
        } else {
            false
        });
        if j > 0 {
            if j - 1 >= sb {
                vstd::arithmetic::div_mod::lemma_fundamental_div_mod_converse(
                    q,
                    8,
                    j - 1 - sb,
                    8 - sr + b,
                );
                assert(moved[j - 1] == before[j - 1 - sb]);
            } else {
                assert(q < 0);
                assert(moved[j - 1] == 0u8);
                lemma_zero_byte((8 - sr + b) as u8);
            }
        } else {
            assert(q < 0);
        }
    }
}

/// The bits of `x & m` are those set in both.
proof fn lemma_and_bits(x: u8, m: u8, b: u8)
    requires
        b < 8,
    ensures
        byte_bit(x & m, b as int) == (byte_bit(x, b as int) && byte_bit(m, b as int)),
{
    assert((((x & m) >> b) & 1 == 1) == (((x >> b) & 1 == 1) && ((m >> b) & 1 == 1)))
        by (bit_vector)
        requires
            b < 8,
    ;
}

/// Clears, in the byte that holds bit `high_bit`, that bit and those above
/// it, and says how many bytes there are up to and with that byte. Bytes
/// beyond it stay as they are.
pub fn mask_off(existing: &mut Vec<u8>, high_bit: u32) -> (r: usize)
    requires
        8 * old(existing)@.len() <= usize::MAX,
    ensures
        final(existing)@.len() == old(existing)@.len(),
        r == if high_bit / 8 + 1 < old(existing)@.len() {
            (high_bit / 8 + 1) as int
        } else {
            old(existing)@.len() as int
        },
        forall|p: int|
            0 <= p < 8 * old(existing)@.len() ==> #[trigger] bit_of(final(existing)@, p) == (bit_of(
                old(existing)@,
                p,
            ) && !(high_bit <= p < 8 * (high_bit / 8) + 8)),
{
    let top_byte = high_bit as usize / 8;
    let top_bit = (high_bit % 8) as u8;
    let len = existing.len();
    let ghost before = existing@;
    if top_byte < len {
        let mask = low_mask(top_bit);
        let x = existing[top_byte];
        existing[top_byte] = x & mask;
        proof {
            assert forall|p: int| 0 <= p < 8 * len implies #[trigger] bit_of(existing@, p) == (
            bit_of(before, p) && !(high_bit <= p < 8 * (high_bit / 8) + 8)) by {
                if p / 8 == top_byte {
                    lemma_and_bits(x, mask, (p % 8) as u8);
                    assert(byte_bit(mask, p % 8) == (p % 8 < top_bit));
                }
            }
        }
    }
    if top_byte + 1 < len {
        top_byte + 1
    } else {
        len
    }
}

/// Takes the bits from `lower` to `upper` out of `existing`: they are moved
/// down to bit 0, and the result says how many of the bytes hold them.
/// Within those bytes every bit above the field is 0.
pub fn read_modify(existing: &mut Vec<u8>, lower: u32, upper: u32) -> (r: usize)
    requires
        upper >= lower,
        upper - lower < u32::MAX,
        old(existing)@.len() * 8 > upper,
        8 * old(existing)@.len() <= usize::MAX,
    ensures
        final(existing)@.len() == old(existing)@.len(),
        r == if (upper - lower + 1) / 8 + 1 < old(existing)@.len() {
            ((upper - lower + 1) / 8 + 1) as int
        } else {
            old(existing)@.len() as int
        },
        forall|p: int|
            0 <= p < 8 * r ==> #[trigger] bit_of(final(existing)@, p) == (p <= upper - lower
                && bit_of(old(existing)@, p + lower)),
        forall|p: int|
            0 <= p < 8 * old(existing)@.len() ==> #[trigger] bit_of(final(existing)@, p) == (bit_of(
                old(existing)@,
                p + lower,
            ) && !(upper - lower + 1 <= p < 8 * ((upper - lower + 1) / 8) + 8)),
{
    let ghost before = existing@;
    right_shift(existing, lower);
    let ghost shifted = existing@;
    let r = mask_off(existing, upper - lower + 1);
    proof {
        assert forall|p: int| 0 <= p < 8 * before.len() implies #[trigger] bit_of(existing@, p)
            == (bit_of(before, p + lower) && !(upper - lower + 1 <= p < 8 * ((upper - lower + 1)
            / 8) + 8)) by {
            assert(bit_of(shifted, p) == bit_of(before, p + lower));
        }
        assert forall|p: int| 0 <= p < 8 * r implies #[trigger] bit_of(existing@, p) == (p <= upper
            - lower && bit_of(before, p + lower)) by {
            assert(bit_of(shifted, p) == bit_of(before, p + lower));
        }
    }
    r
}

/// The bits of a byte that takes its lowest `n` bits from `v`, moved up by
/// `s`, over `carry`, and keeps the others.
proof fn lemma_merge_bits(old_byte: u8, v: u8, carry: u8, s: u8, n: u8, b: u8)
    requires
        s < 8,
        n <= 8,
        b < 8,
        carry & !low_mask_spec(s) == 0,
    ensures
        byte_bit(
            (((v << s) | carry) & low_mask_spec(n)) | (old_byte & !low_mask_spec(n)),
            b as int,
        ) == if b < n {
            if b < s {
                byte_bit(carry, b as int)
            } else {
                byte_bit(v, b - s)
            }
        } else {
            byte_bit(old_byte, b as int)
        },
{
    let ms = low_mask_spec(s);
    let mn = low_mask_spec(n);
    let y = (((v << s) | carry) & mn) | (old_byte & !mn);
    let down = if b >= s {
        (b - s) as u8
    } else {
        0u8
    };
    assert(((y >> b) & 1 == 1) == (if b < n {
        if b < s {
            (carry >> b) & 1 == 1
        } else {
            (v >> down) & 1 == 1
        }
    } else {
        (old_byte >> b) & 1 == 1
    })) by (bit_vector)
        requires
            s < 8,
            n <= 8,
            b < 8,
            down == if b >= s {
                (b - s) as u8
            } else {
                0u8
            },
            ms == ((((1u16 << (s as u16)) - 1) as u16) & 0xff) as u8,
            mn == ((((1u16 << (n as u16)) - 1) as u16) & 0xff) as u8,
            carry & !ms == 0,
            y == (((v << s) | carry) & mn) | (old_byte & !mn),
    ;
}

/// The bits of what a byte hands on to the next: its highest `s` bits,
/// moved down to bit 0.
proof fn lemma_carry_bits(v: u8, s: u8, b: u8)
    requires
        0 < s < 8,
        b < 8,
    ensures
        byte_bit((v >> ((8 - s) as u8)) & low_mask_spec(s), b as int) == (b < s && byte_bit(
            v,
            8 - s + b,
        )),
        ((v >> ((8 - s) as u8)) & low_mask_spec(s)) & !low_mask_spec(s) == 0,
{
    let ms = low_mask_spec(s);
    let c = (v >> ((8 - s) as u8)) & ms;
    let up = if b < s {
        (8 - s + b) as u8
    } else {
        0u8
    };
    assert((((c >> b) & 1 == 1) == (b < s && (v >> up) & 1 == 1)) && c & !ms == 0) by (bit_vector)
        requires
            0 < s < 8,
            b < 8,
            up == if b < s {
                (8 - s + b) as u8
            } else {
                0u8
            },
            ms == ((((1u16 << (s as u16)) - 1) as u16) & 0xff) as u8,
            c == (v >> ((8 - s) as u8)) & ms,
    ;
}

/// The low bits of a byte under a mask are its bits below the mask's
/// length, and no others.
proof fn lemma_low_bits(x: u8, s: u8, b: u8)
    requires
        s < 8,
        b < 8,
    ensures
        byte_bit(x & low_mask_spec(s), b as int) == (b < s && byte_bit(x, b as int)),
        (x & low_mask_spec(s)) & !low_mask_spec(s) == 0,
{
    let ms = low_mask_spec(s);
    assert(((((x & ms) >> b) & 1 == 1) == (b < s && (x >> b) & 1 == 1)) && (x & ms) & !ms == 0)
        by (bit_vector)
        requires
            s < 8,
            b < 8,
            ms == ((((1u16 << (s as u16)) - 1) as u16) & 0xff) as u8,
    ;
}

/// Byte `i` of `value`, or 0 where `value` has no such byte.
fn byte_or_zero(value: &[u8], i: usize) -> (r: u8)
    ensures
        r == if i < value@.len() {
            value@[i as int]
        } else {
            0u8
        },
        forall|b: int| 0 <= b < 8 ==> #[trigger] byte_bit(r, b) == bit_of(value@, 8 * i + b),
{
    let r = if i < value.len() {
        value[i]
    } else {
        0
    };
    proof {
        assert forall|b: int| 0 <= b < 8 implies #[trigger] byte_bit(r, b) == bit_of(
            value@,
            8 * i + b,
        ) by {
            if i >= value@.len() {
                lemma_zero_byte(b as u8);
            } else {
                assert((8 * i + b) / 8 == i && (8 * i + b) % 8 == b);
            }
        }
    }
    r
}

/// What the bits of `existing` are after `value` has been put into the
/// bits from `lower` to `upper`: there the bits of `value`, counted from
/// its bit 0, and 0 where `value` has no more; elsewhere what was there.
pub open spec fn field_written(before: Seq<u8>, value: Seq<u8>, lower: int, upper: int, p: int) -> bool {
    if lower <= p <= upper {
        bit_of(value, p - lower)
    } else {
        bit_of(before, p)
    }
}

/// Puts `value` into the bits of `existing` from `lower` to `upper`, both
/// counted in. No other bit changes.
pub fn write_modify(existing: &mut Vec<u8>, value: &[u8], lower: u32, upper: u32)
    requires
        upper >= lower,
        upper - lower < u32::MAX,
        old(existing)@.len() * 8 > upper,
        8 * old(existing)@.len() <= usize::MAX,
    ensures
        final(existing)@.len() == old(existing)@.len(),
        forall|p: int|
            0 <= p < 8 * old(existing)@.len() ==> #[trigger] bit_of(final(existing)@, p)
                == field_written(old(existing)@, value@, lower as int, upper as int, p),
{
    let ghost before = existing@;
    let len = existing.len();
    let width: u32 = upper - lower + 1;
    let mut shift_count: u32 = width;
    let mut read_ptr: usize = 0;
    let first: usize = (lower / 8) as usize;
    let mut write_ptr: usize = first;
    let write_shift: u8 = (lower % 8) as u8;
    let mut first_time_lengthen: u8 = write_shift;
    let low = low_mask(write_shift);
    let mut carry: u8 = existing[write_ptr] & low;
    proof {
        assert forall|b: int| 0 <= b < 8 implies #[trigger] byte_bit(carry, b) == (b < write_shift
            && byte_bit(before[first as int], b)) by {
            lemma_low_bits(before[first as int], write_shift, b as u8);
        }
        lemma_low_bits(before[first as int], write_shift, 0);
    }
    while shift_count > 0
        invariant
            upper >= lower,
            upper - lower < u32::MAX,
            len * 8 > upper,
            8 * len <= usize::MAX,
            width == upper - lower + 1,
            first == lower / 8,
            write_shift == lower % 8,
            low == low_mask_spec(write_shift),
            existing@.len() == len,
            before.len() == len,
            write_ptr == first + read_ptr,
            shift_count <= width,
            first_time_lengthen == if read_ptr == 0 {
                write_shift
            } else {
                0u8
            },
            // The bits written so far end where the next byte begins, or
            // with the field.
            width - shift_count == if read_ptr == 0 {
                0int
            } else if 8 * read_ptr - write_shift < width {
                8 * read_ptr - write_shift
            } else {
                width as int
            },
            shift_count > 0 ==> write_ptr < len,
            carry & !low == 0,
            forall|b: int|
                0 <= b < 8 ==> #[trigger] byte_bit(carry, b) == (b < write_shift && if read_ptr
                    == 0 {
                    byte_bit(before[first as int], b)
                } else {
                    bit_of(value@, 8 * read_ptr + b - write_shift)
                }),
            forall|p: int|
                0 <= p < 8 * len ==> #[trigger] bit_of(existing@, p) == if lower <= p < lower
                    + (width - shift_count) {
                    bit_of(value@, p - lower)
                } else {
                    bit_of(before, p)
                },
        decreases shift_count,
    {
        let v = byte_or_zero(value, read_ptr);
        let to_write = (v << write_shift) | carry;
        let ghost old_carry = carry;
        if write_shift > 0 {
            carry = (v >> (8 - write_shift)) & low;
        }
        let room: u32 = (8 - first_time_lengthen) as u32;
        let write_count: u32 = if shift_count < room {
            shift_count
        } else {
            room
        };
        let n: u8 = (write_count + first_time_lengthen as u32) as u8;
        let write_mask = low_mask(n);
        let ghost now = existing@;
        let ghost done = width - shift_count;
        let old_byte = existing[write_ptr];
        let new_byte = (to_write & write_mask) | (old_byte & !write_mask);
        existing[write_ptr] = new_byte;
        proof {
            assert(old_byte == before[write_ptr as int]) by {
                assert forall|b: int| 0 <= b < 8 implies #[trigger] byte_bit(old_byte, b)
                    == byte_bit(before[write_ptr as int], b) by {
                    let p = 8 * write_ptr + b;
                    assert(p / 8 == write_ptr && p % 8 == b);
                    assert(bit_of(now, p) == byte_bit(old_byte, b));
                    assert(bit_of(before, p) == byte_bit(before[write_ptr as int], b));
                    assert(!(lower <= p < lower + done));
                }
                lemma_byte_ext(old_byte, before[write_ptr as int]);
            }
            assert forall|b: int| 0 <= b < 8 implies #[trigger] byte_bit(carry, b) == (b
                < write_shift && bit_of(value@, 8 * (read_ptr + 1) + b - write_shift)) by {
                if write_shift > 0 {
                    lemma_carry_bits(v, write_shift, b as u8);
                    if b < write_shift {
                        assert(byte_bit(v, 8 - write_shift + b) == bit_of(
                            value@,
                            8 * read_ptr + (8 - write_shift + b),
                        ));
                    }
                }
            }
            if write_shift > 0 {
                lemma_carry_bits(v, write_shift, 0);
            }
            assert forall|p: int| 0 <= p < 8 * len implies #[trigger] bit_of(existing@, p) == if lower
                <= p < lower + (done + write_count) {
                bit_of(value@, p - lower)
            } else {
                bit_of(before, p)
            } by {
                if p / 8 == write_ptr {
                    let b = p % 8;
                    lemma_merge_bits(old_byte, v, old_carry, write_shift, n, b as u8);
                    if b < n {
                        if b >= write_shift {
                            assert(byte_bit(v, b - write_shift) == bit_of(
                                value@,
                                8 * read_ptr + (b - write_shift),
                            ));
                        }
                    }
                } else {
                    assert(bit_of(existing@, p) == bit_of(now, p));
                }
            }
        }
        first_time_lengthen = 0;
        read_ptr += 1;
        write_ptr += 1;
        shift_count -= write_count;
    }
}

/// What is written into a field and then read out of it is what was
/// written, as far as the field is wide.
pub proof fn lemma_field_round_trip(
    before: Seq<u8>,
    written: Seq<u8>,
    read: Seq<u8>,
    value: Seq<u8>,
    lower: int,
    upper: int,
)
    requires
        0 <= lower <= upper < 8 * before.len(),
        written.len() == before.len(),
        read.len() == before.len(),
        forall|p: int|
            0 <= p < 8 * before.len() ==> #[trigger] bit_of(written, p) == field_written(
                before,
                value,
                lower,
                upper,
                p,
            ),
        forall|p: int|
            0 <= p < 8 * before.len() ==> #[trigger] bit_of(read, p) == (bit_of(written, p + lower)
                && !(upper - lower + 1 <= p < 8 * ((upper - lower + 1) / 8) + 8)),
    ensures
        forall|p: int| 0 <= p <= upper - lower ==> #[trigger] bit_of(read, p) == bit_of(value, p),
{
    assert forall|p: int| 0 <= p <= upper - lower implies #[trigger] bit_of(read, p) == bit_of(
        value,
        p,
    ) by {
        assert(bit_of(written, p + lower) == field_written(before, value, lower, upper, p + lower));
    }
}

impl Field {
    /// Whether the bits of the field lie in a buffer of `len` bytes.
    pub open spec fn fits(&self, len: int) -> bool {
        match self.bits {
            Some((lower, upper)) => lower <= upper && upper - lower < u32::MAX && upper < 8 * len,
            None => true,
        }
    }

    /// Whether the bits of the field lie in a buffer of `len` bytes.
    pub fn fits_in(&self, len: usize) -> (r: bool)
        ensures
            r == self.fits(len as int),
    {
        match self.bits {
            Some((lower, upper)) => lower <= upper && upper - lower < u32::MAX && (upper as u64)
                / 8 < len as u64,
            None => true,
        }
    }
}

/// What is read of a field out of a buffer whose first bytes are the
/// field's: of a field of whole bytes those bytes; of a field of bits the
/// buffer with the field moved down to bit 0, and 0 above it up to the end
/// of the byte in which the field ends.
pub open spec fn field_read(field: Field, value: Seq<u8>, out: Seq<u8>) -> bool {
    match field.bits {
        None => out == value.take(field.size as int),
        Some((lower, upper)) => {
            &&& out.len() == value.len()
            &&& forall|p: int|
                0 <= p < 8 * value.len() ==> #[trigger] bit_of(out, p) == (bit_of(value, p + lower)
                    && !(upper - lower + 1 <= p < 8 * ((upper - lower + 1) / 8) + 8))
        },
    }
}

/// What is to be written to a register to put `value` into a field of it:
/// for a field of whole bytes the first bytes of `value`; for a field of
/// bits what the register held, with the bits of the field taken from
/// `value`.
pub open spec fn field_write(field: Field, existing: Seq<u8>, value: Seq<u8>, out: Seq<u8>) -> bool {
    match field.bits {
        None => out == value.take(field.size as int),
        Some((lower, upper)) => {
            &&& out.len() == existing.len()
            &&& forall|p: int|
                0 <= p < 8 * existing.len() ==> #[trigger] bit_of(out, p) == field_written(
                    existing,
                    value,
                    lower as int,
                    upper as int,
                    p,
                )
        },
    }
}

/// Copies the first `n` bytes of `bytes`.
fn take_bytes(bytes: &[u8], n: usize) -> (r: Vec<u8>)
    requires
        n <= bytes@.len(),
    ensures
        r@ == bytes@.take(n as int),
{
    let mut r: Vec<u8> = Vec::new();
    let mut i: usize = 0;
    while i < n
        invariant
            i <= n <= bytes@.len(),
            r@ == bytes@.take(i as int),
        decreases n - i,
    {
        r.push(bytes[i]);
        assert(r@ =~= bytes@.take(i + 1));
        i += 1;
    }
    r
}

/// Takes a field out of `value`, a buffer whose first `field.size` bytes
/// were read at the field's address. Nothing where the buffer is too short
/// for the field.
pub fn read_field(field: Field, value: Vec<u8>) -> (r: Option<Vec<u8>>)
    requires
        value@.len() >= field.size ==> field.fits(value@.len() as int),
        8 * value@.len() <= usize::MAX,
    ensures
        r is Some <==> value@.len() >= field.size,
        r matches Some(out) ==> field_read(field, value@, out@),
{
    if value.len() < field.size {
        return None;
    }
    match field.bits {
        Some((lower, upper)) => {
            let mut value = value;
            read_modify(&mut value, lower, upper);
            Some(value)
        },
        None => Some(take_bytes(value.as_slice(), field.size)),
    }
}

/// Says what to write at a field's address to put `value` into the field.
/// `existing` is what was read there just before; only a field of bits
/// needs it. Nothing where `value` is too short for the field.
pub fn write_field(field: Field, existing: Vec<u8>, value: &[u8]) -> (r: Option<Vec<u8>>)
    requires
        value@.len() >= field.size ==> field.fits(existing@.len() as int),
        8 * existing@.len() <= usize::MAX,
    ensures
        r is Some <==> value@.len() >= field.size,
        r matches Some(out) ==> field_write(field, existing@, value@, out@),
{
    if value.len() < field.size {
        return None;
    }
    match field.bits {
        Some((lower, upper)) => {
            let mut existing = existing;
            write_modify(&mut existing, value, lower, upper);
            Some(existing)
        },
        None => Some(take_bytes(value, field.size)),
    }
}

/// A buffer of `n` zero bytes.
fn zeros(n: usize) -> (r: Vec<u8>)
    ensures
        r@ == Seq::new(n as nat, |i: int| 0u8),
{
    let mut r: Vec<u8> = Vec::new();
    let mut i: usize = 0;
    while i < n
        invariant
            i <= n,
            r@ == Seq::new(i as nat, |i: int| 0u8),
        decreases n - i,
    {
        r.push(0);
        assert(r@ =~= Seq::new((i + 1) as nat, |i: int| 0u8));
        i += 1;
    }
    r
}

/// The four bytes that a read of a field of at most four bytes leaves in a
/// word: the bytes read, and zeros after them.
pub open spec fn padded_word(raw: Seq<u8>) -> Seq<u8> {
    Seq::new(
        4,
        |i: int|
            if i < raw.len() {
                raw[i]
            } else {
                0u8
            },
    )
}

/// Takes a field of at most four bytes out of `raw`, the bytes read at its
/// address, as a word. A field that is wider than a word gives 0.
pub fn read_field_u32(field: Field, raw: &[u8]) -> (r: u32)
    requires
        field.size <= 4 ==> raw@.len() == field.size && field.fits(4),
    ensures
        field.size > 4 ==> r == 0,
        field.size <= 4 ==> exists|out: Seq<u8>|
            #![trigger field_read(field, padded_word(raw@), out)]
            field_read(field, padded_word(raw@), out) && r == word_at(
                out + Seq::new(4, |i: int| 0u8),
                0,
            ),
{
    if field.size > 4 {
        return 0;
    }
    let mut output = zeros(4);
    let mut i: usize = 0;
    while i < raw.len()
        invariant
            i <= raw@.len() <= 4,
            output@.len() == 4,
            forall|k: int|
                0 <= k < 4 ==> output@[k] == if k < i {
                    raw@[k]
                } else {
                    0u8
                },
        decreases raw@.len() - i,
    {
        output[i] = raw[i];
        i += 1;
    }
    assert(output@ =~= padded_word(raw@));
    let ghost input = output@;
    match read_field(field, output) {
        Some(out) => {
            let ghost seen = out@;
            let mut word = out;
            let mut pad = zeros(4);
            word.append(&mut pad);
            assert(word@ =~= seen + Seq::new(4, |i: int| 0u8));
            assert(field_read(field, padded_word(raw@), seen));
            read_word(word.as_slice(), 0)
        },
        None => 0,
    }
}

/// Says what to write at a field's address to put the word `value` into
/// the field. `existing` is what was read there just before, four bytes.
pub fn write_field_u32(field: Field, existing: Vec<u8>, value: u32) -> (r: Option<Vec<u8>>)
    requires
        field.size <= 4 ==> field.fits(existing@.len() as int),
        8 * existing@.len() <= usize::MAX,
    ensures
        r is Some <==> field.size <= 4,
        r matches Some(out) ==> field_write(field, existing@, word_bytes(value), out@),
{
    let bytes = word_to_bytes(value);
    write_field(field, existing, bytes.as_slice())
}

/// Says what to write at a field's address to put `value` into the field.
/// `existing` is what was read there just before, `field.size` bytes.
pub fn write_field_vec(field: Field, existing: Vec<u8>, value: &[u8]) -> (r: Option<Vec<u8>>)
    requires
        value@.len() >= field.size ==> field.fits(existing@.len() as int),
        8 * existing@.len() <= usize::MAX,
    ensures
        r is Some <==> value@.len() >= field.size,
        r matches Some(out) ==> field_write(field, existing@, value@, out@),
{
    write_field(field, existing, value)
}

} // verus!
