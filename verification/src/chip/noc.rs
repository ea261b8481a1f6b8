//! Tile addresses on the two NOC fabrics, and the alignment each tile asks for.

use vstd::prelude::*;
use vstd::std_specs::cmp::PartialEqSpecImpl;
use vstd::std_specs::convert::FromSpecImpl;

verus! {

/// One of the two NOC fabrics. Each numbers the tiles in its own way.
#[derive(Clone, Copy, Debug, PartialEq, Eq, Hash, Structural)]
pub enum NocId {
    Noc0,
    Noc1,
}

impl NocId {
    /// The number the hardware knows the fabric by.
    pub open spec fn index_spec(self) -> int {
        match self {
            NocId::Noc0 => 0,
            NocId::Noc1 => 1,
        }
    }

    /// The number the hardware knows the fabric by.
    pub fn index(self) -> (r: u8)
        ensures
            r == self.index_spec(),
    {
        match self {
            NocId::Noc0 => 0,
            NocId::Noc1 => 1,
        }
    }
}

/// The coordinates of one physical tile, as each of the two fabrics sees it.
#[derive(Debug, Clone, Copy, Hash, Eq)]
pub struct NocAddress {
    pub n0: (u8, u8),
    pub n1: (u8, u8),
}

impl PartialEq for NocAddress {
    fn eq(&self, other: &Self) -> (r: bool) {
        self.n0.0 == other.n0.0 && self.n0.1 == other.n0.1 && self.n1.0 == other.n1.0
            && self.n1.1 == other.n1.1
    }
}

impl PartialEqSpecImpl for NocAddress {
    open spec fn obeys_eq_spec() -> bool {
        true
    }

    open spec fn eq_spec(&self, other: &Self) -> bool {
        *self == *other
    }
}

impl Default for NocAddress {
    fn default() -> (r: Self)
        ensures
            r == (NocAddress { n0: (0, 0), n1: (0, 0) }),
    {
        NocAddress { n0: (0, 0), n1: (0, 0) }
    }
}

/// The word a tile's identity travels in: one byte per coordinate, `n0.x`
/// lowest, then `n0.y`, `n1.x` and `n1.y`.
pub open spec fn pack_coords(x0: u8, y0: u8, x1: u8, y1: u8) -> u32 {
    (x0 as u32) | ((y0 as u32) << 8) | ((x1 as u32) << 16) | ((y1 as u32) << 24)
}

impl NocAddress {
    pub open spec fn get_spec(&self, noc_id: NocId) -> (u8, u8) {
        match noc_id {
            NocId::Noc0 => self.n0,
            NocId::Noc1 => self.n1,
        }
    }

    /// The coordinates under which fabric `noc_id` reaches this tile.
    #[verifier::when_used_as_spec(get_spec)]
    pub fn get(&self, noc_id: NocId) -> (r: (u8, u8))
        ensures
            r == self.get_spec(noc_id),
    {
        match noc_id {
            NocId::Noc0 => self.n0,
            NocId::Noc1 => self.n1,
        }
    }

    pub open spec fn packed(self) -> u32 {
        pack_coords(self.n0.0, self.n0.1, self.n1.0, self.n1.1)
    }

    pub open spec fn unpacked(value: u32) -> NocAddress {
        NocAddress {
            n0: ((value & 0xff) as u8, ((value >> 8) & 0xff) as u8),
            n1: (((value >> 16) & 0xff) as u8, ((value >> 24) & 0xff) as u8),
        }
    }
}

impl From<NocAddress> for u32 {
    fn from(value: NocAddress) -> (r: u32) {
        (value.n0.0 as u32) | ((value.n0.1 as u32) << 8) | ((value.n1.0 as u32) << 16) | ((
        value.n1.1 as u32) << 24)
    }
}

impl FromSpecImpl<NocAddress> for u32 {
    open spec fn obeys_from_spec() -> bool {
        true
    }

    open spec fn from_spec(value: NocAddress) -> u32 {
        value.packed()
    }
}

impl From<u32> for NocAddress {
    fn from(value: u32) -> (r: NocAddress) {
        NocAddress {
            n0: ((value & 0xff) as u8, ((value >> 8) & 0xff) as u8),
            n1: (((value >> 16) & 0xff) as u8, ((value >> 24) & 0xff) as u8),
        }
    }
}

impl FromSpecImpl<u32> for NocAddress {
    open spec fn obeys_from_spec() -> bool {
        true
    }

    open spec fn from_spec(value: u32) -> NocAddress {
        NocAddress::unpacked(value)
    }
}

/// Packing a tile's coordinates into a word and unpacking the word gives the
/// coordinates back.
pub proof fn lemma_pack_unpack(a: NocAddress)
    ensures
        NocAddress::unpacked(a.packed()) == a,
{
    let (x0, y0, x1, y1) = (a.n0.0, a.n0.1, a.n1.0, a.n1.1);
    let v = pack_coords(x0, y0, x1, y1);
    assert((v & 0xff) as u8 == x0 && ((v >> 8) & 0xff) as u8 == y0 && ((v >> 16) & 0xff) as u8
        == x1 && ((v >> 24) & 0xff) as u8 == y1) by (bit_vector)
        requires
            v == (x0 as u32) | ((y0 as u32) << 8) | ((x1 as u32) << 16) | ((y1 as u32) << 24),
    ;
}

/// Unpacking any word and packing the coordinates again gives the word back.
pub proof fn lemma_unpack_pack(value: u32)
    ensures
        NocAddress::unpacked(value).packed() == value,
{
    let a = NocAddress::unpacked(value);
    let (x0, y0, x1, y1) = (a.n0.0, a.n0.1, a.n1.0, a.n1.1);
    assert((x0 as u32) | ((y0 as u32) << 8) | ((x1 as u32) << 16) | ((y1 as u32) << 24) == value)
        by (bit_vector)
        requires
            x0 == (value & 0xff) as u8,
            y0 == ((value >> 8) & 0xff) as u8,
            x1 == ((value >> 16) & 0xff) as u8,
            y1 == ((value >> 24) & 0xff) as u8,
    ;
}

/// Whether `a` is one of the eight powers of two a byte can hold.
pub open spec fn is_pow2_u8(a: u8) -> bool {
    a == 1 || a == 2 || a == 4 || a == 8 || a == 16 || a == 32 || a == 64 || a == 128
}

/// The least multiple of `align` that is not below `addr`.
pub open spec fn align_up(addr: int, align: int) -> int {
    ((addr + align - 1) / align) * align
}

/// Clearing the low bits of `s` under a power-of-two mask gives a multiple of
/// the power that lies within it below `s`.
proof fn lemma_mask_low_bits(s: u64, a: u64)
    requires
        a == 1 || a == 2 || a == 4 || a == 8 || a == 16 || a == 32 || a == 64 || a == 128,
    ensures
        (s & !((a - 1) as u64)) % a == 0,
        s & !((a - 1) as u64) <= s,
        s - (s & !((a - 1) as u64)) < a,
{
    if a == 1 {
        assert((s & !0u64) % 1 == 0 && s & !0u64 <= s && s - (s & !0u64) < 1) by (bit_vector);
    } else if a == 2 {
        assert((s & !1u64) % 2 == 0 && s & !1u64 <= s && s - (s & !1u64) < 2) by (bit_vector);
    } else if a == 4 {
        assert((s & !3u64) % 4 == 0 && s & !3u64 <= s && s - (s & !3u64) < 4) by (bit_vector);
    } else if a == 8 {
        assert((s & !7u64) % 8 == 0 && s & !7u64 <= s && s - (s & !7u64) < 8) by (bit_vector);
    } else if a == 16 {
        assert((s & !15u64) % 16 == 0 && s & !15u64 <= s && s - (s & !15u64) < 16)
            by (bit_vector);
    } else if a == 32 {
        assert((s & !31u64) % 32 == 0 && s & !31u64 <= s && s - (s & !31u64) < 32)
            by (bit_vector);
    } else if a == 64 {
        assert((s & !63u64) % 64 == 0 && s & !63u64 <= s && s - (s & !63u64) < 64)
            by (bit_vector);
    } else {
        assert((s & !127u64) % 128 == 0 && s & !127u64 <= s && s - (s & !127u64) < 128)
            by (bit_vector);
    }
}

/// For a power of two, rounding up by masking is rounding up to a multiple.
pub proof fn lemma_mask_rounds_up(addr: u64, align: u8)
    requires
        is_pow2_u8(align),
        addr + align - 1 <= u64::MAX,
    ensures
        ((addr + (align as u64 - 1)) as u64) & !((align as u64 - 1) as u64) == align_up(
            addr as int,
            align as int,
        ),
        align_up(addr as int, align as int) % (align as int) == 0,
        addr <= align_up(addr as int, align as int) < addr + align,
{
    let a = align as u64;
    let s = (addr + (a - 1)) as u64;
    let r = s & !((a - 1) as u64);
    lemma_mask_low_bits(s, a);
    lemma_multiple_below(r as int, s as int, a as int);
}

/// A multiple of `a` that lies within `a` below `s` is `s` rounded down.
pub proof fn lemma_multiple_below(r: int, s: int, a: int)
    requires
        a > 0,
        r % a == 0,
        r <= s < r + a,
    ensures
        r == (s / a) * a,
{
    let q = r / a;
    vstd::arithmetic::div_mod::lemma_fundamental_div_mod(r, a);
    vstd::arithmetic::mul::lemma_mul_is_commutative(a, q);
    vstd::arithmetic::div_mod::lemma_fundamental_div_mod_converse(s, a, q, s - r);
}

/// An endpoint on the NOC: where it sits, and the alignment in bytes that
/// reads from it and writes to it must keep.
#[derive(Debug, Clone, Copy, Hash, Eq)]
pub struct Tile {
    pub addr: NocAddress,
    pub align_read: u8,
    pub align_write: u8,
}

impl PartialEq for Tile {
    fn eq(&self, other: &Self) -> (r: bool) {
        self.addr == other.addr && self.align_read == other.align_read && self.align_write
            == other.align_write
    }
}

impl PartialEqSpecImpl for Tile {
    open spec fn obeys_eq_spec() -> bool {
        true
    }

    open spec fn eq_spec(&self, other: &Self) -> bool {
        *self == *other
    }
}

impl Default for Tile {
    fn default() -> (r: Self)
        ensures
            r == (Tile { addr: NocAddress { n0: (0, 0), n1: (0, 0) }, align_read: 0, align_write: 0 }),
    {
        Tile { addr: NocAddress { n0: (0, 0), n1: (0, 0) }, align_read: 0, align_write: 0 }
    }
}

impl From<Tile> for NocAddress {
    fn from(value: Tile) -> (r: NocAddress) {
        value.addr
    }
}

impl FromSpecImpl<Tile> for NocAddress {
    open spec fn obeys_from_spec() -> bool {
        true
    }

    open spec fn from_spec(value: Tile) -> NocAddress {
        value.addr
    }
}

impl From<Tile> for u32 {
    fn from(value: Tile) -> (r: u32) {
        u32::from(value.addr)
    }
}

impl FromSpecImpl<Tile> for u32 {
    open spec fn obeys_from_spec() -> bool {
        true
    }

    open spec fn from_spec(value: Tile) -> u32 {
        value.addr.packed()
    }
}

impl Tile {
    /// Both alignments are powers of two.
    pub open spec fn wf(&self) -> bool {
        is_pow2_u8(self.align_read) && is_pow2_u8(self.align_write)
    }

    pub open spec fn get_spec(&self, noc_id: NocId) -> (u8, u8) {
        self.addr.get_spec(noc_id)
    }

    /// The coordinates under which fabric `noc_id` reaches this tile.
    #[verifier::when_used_as_spec(get_spec)]
    pub fn get(&self, noc_id: NocId) -> (r: (u8, u8))
        ensures
            r == self.get_spec(noc_id),
    {
        self.addr.get(noc_id)
    }

    /// Rounds `addr` up to an address that may be both read and written.
    pub fn align_rw_ptr(&self, addr: u64) -> (r: u64)
        requires
            self.wf(),
            addr + self.align_read - 1 <= u64::MAX,
            addr + self.align_write - 1 <= u64::MAX,
        ensures
            r == align_up(
                addr as int,
                if self.align_read >= self.align_write {
                    self.align_read as int
                } else {
                    self.align_write as int
                },
            ),
            r % (self.align_read as u64) == 0,
            r % (self.align_write as u64) == 0,
            addr <= r,
            r < addr + self.align_read || r < addr + self.align_write,
    {
        let r = self.align_read_ptr(addr);
        let w = self.align_write_ptr(addr);
        proof {
            if self.align_read >= self.align_write {
                lemma_nested_alignment(addr, self.align_read, self.align_write);
            } else {
                lemma_nested_alignment(addr, self.align_write, self.align_read);
            }
        }
        if r >= w {
            r
        } else {
            w
        }
    }

    /// Rounds `addr` up to the tile's write alignment.
    pub fn align_write_ptr(&self, addr: u64) -> (r: u64)
        requires
            is_pow2_u8(self.align_write),
            addr + self.align_write - 1 <= u64::MAX,
        ensures
            r == align_up(addr as int, self.align_write as int),
            r % (self.align_write as u64) == 0,
            addr <= r < addr + self.align_write,
    {
        proof {
            lemma_mask_rounds_up(addr, self.align_write);
        }
        let align = self.align_write as u64;
        (addr + (align - 1)) & !(align - 1)
    }

    /// Rounds `addr` up to the tile's read alignment.
    pub fn align_read_ptr(&self, addr: u64) -> (r: u64)
        requires
            is_pow2_u8(self.align_read),
            addr + self.align_read - 1 <= u64::MAX,
        ensures
            r == align_up(addr as int, self.align_read as int),
            r % (self.align_read as u64) == 0,
            addr <= r < addr + self.align_read,
    {
        proof {
            lemma_mask_rounds_up(addr, self.align_read);
        }
        let align = self.align_read as u64;
        (addr + (align - 1)) & !(align - 1)
    }
}

/// Of two powers of two the larger is a multiple of the smaller, so rounding
/// up to the larger also satisfies the smaller, and never gives less.
pub proof fn lemma_nested_alignment(addr: u64, big: u8, small: u8)
    requires
        is_pow2_u8(big),
        is_pow2_u8(small),
        small <= big,
        addr + big - 1 <= u64::MAX,
    ensures
        align_up(addr as int, small as int) <= align_up(addr as int, big as int),
        align_up(addr as int, big as int) % (small as int) == 0,
{
    lemma_mask_rounds_up(addr, big);
    lemma_mask_rounds_up(addr, small);
    let up = align_up(addr as int, big as int);
    let b = big as int;
    let s = small as int;
    let k = b / s;
    assert(b == s * k);
    let q = up / b;
    vstd::arithmetic::div_mod::lemma_fundamental_div_mod(up, b);
    assert(up == s * (k * q)) by (nonlinear_arith)
        requires
            up == b * q,
            b == s * k,
    ;
    vstd::arithmetic::div_mod::lemma_mod_multiples_basic(k * q, s);
    vstd::arithmetic::mul::lemma_mul_is_commutative(s, k * q);
    if up < align_up(addr as int, small as int) {
        // Both are multiples of `small` in `addr..addr + small`: they are equal.
        lemma_multiple_below(up, addr + s - 1, s);
    }
}

/// One operation on the NOC, as the host is to perform it.
#[derive(Debug, Clone, PartialEq, Eq)]
pub enum NocOp {
    /// Read `len` bytes from `addr` of a tile.
    Read { noc_id: NocId, tile: NocAddress, addr: u64, len: usize },
    /// Read the word at `addr` of a tile.
    Read32 { noc_id: NocId, tile: NocAddress, addr: u64 },
    /// Write `data` at `addr` of a tile.
    Write { noc_id: NocId, tile: NocAddress, addr: u64, data: Vec<u8> },
    /// Write the word `value` at `addr` of a tile.
    Write32 { noc_id: NocId, tile: NocAddress, addr: u64, value: u32 },
    /// Write `data` at `addr` of every tile of the broadcast rectangle.
    Broadcast { noc_id: NocId, addr: u64, data: Vec<u8> },
    /// Write the word `value` at `addr` of every tile of the broadcast
    /// rectangle.
    Broadcast32 { noc_id: NocId, addr: u64, value: u32 },
}

/// Whether the place `c` lies in the rectangle with the corners `start` and
/// `end`, whichever way round they are given.
pub open spec fn in_rect(c: (u8, u8), start: (u8, u8), end: (u8, u8)) -> bool {
    &&& (start.0 <= c.0 <= end.0 || end.0 <= c.0 <= start.0)
    &&& (start.1 <= c.1 <= end.1 || end.1 <= c.1 <= start.1)
}

} // verus!
