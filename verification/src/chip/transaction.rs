//! Reads and writes of byte ranges through windows.
//!
//! A window shows only part of a tile's memory, so a transfer is made in
//! pieces: a window is acquired for the address reached so far, as many
//! bytes are moved as the window shows and the transfer still needs, and so
//! on until the range is covered.

use crate::chip::noc::{in_rect, NocAddress, NocId};
use crate::chip::tlb::{hold_matches, Allocation, Window, WindowRequest};
use vstd::prelude::*;

verus! {

/// The memory of one tile: the byte at each address.
pub type Memory = Map<int, u8>;

/// The memory after `data` has been written from `addr` on.
pub open spec fn mem_write(mem: Memory, addr: int, data: Seq<u8>) -> Memory {
    Map::new(
        |a: int| mem.dom().contains(a) || addr <= a < addr + data.len(),
        |a: int|
            if addr <= a < addr + data.len() {
                data[a - addr]
            } else {
                mem[a]
            },
    )
}

/// The `len` bytes that the memory holds from `addr` on.
pub open spec fn mem_read(mem: Memory, addr: int, len: int) -> Seq<u8> {
    Seq::new(len as nat, |i: int| mem[addr + i])
}

/// A transfer of `len` bytes from or to address `addr` of a tile, of which
/// the first `done` bytes are moved.
#[derive(Clone, Copy, Debug, PartialEq, Eq, Structural)]
pub struct Transfer {
    pub addr: u64,
    pub len: usize,
    pub done: usize,
}

/// One piece of a transfer: `len` bytes, from `offset` on in the caller's
/// buffer, to be moved through host memory at `host_addr`.
#[derive(Clone, Copy, Debug, PartialEq, Eq, Structural)]
pub struct Chunk {
    pub host_addr: u64,
    pub offset: usize,
    pub len: usize,
}

impl Transfer {
    pub open spec fn wf(&self) -> bool {
        self.done <= self.len && self.addr + self.len <= u64::MAX
    }

    /// A transfer of which nothing is moved yet.
    pub fn new(addr: u64, len: usize) -> (r: Self)
        requires
            addr + len <= u64::MAX,
        ensures
            r == (Transfer { addr, len, done: 0 }),
            r.wf(),
    {
        Transfer { addr, len, done: 0 }
    }

    /// Whether the whole range is moved.
    pub fn is_done(&self) -> (r: bool)
        ensures
            r == (self.done == self.len),
    {
        self.done == self.len
    }

    /// How many bytes are still to be moved.
    pub fn remaining(&self) -> (r: usize)
        requires
            self.wf(),
        ensures
            r == self.len - self.done,
    {
        self.len - self.done
    }

    /// The address on the tile that the next piece starts at: a window is to
    /// be acquired for it.
    pub fn next_addr(&self) -> (r: u64)
        requires
            self.wf(),
        ensures
            r == self.addr + self.done,
    {
        self.addr + self.done as u64
    }

    /// The next piece, given the window acquired for `next_addr`: as many
    /// bytes as are left, but no more than the window shows.
    pub fn chunk(&self, window: &Allocation) -> (r: Chunk)
        requires
            self.wf(),
        ensures
            r.host_addr == window.base,
            r.offset == self.done,
            r.len == piece_len(self.len - self.done, window.size as int),
            r.offset + r.len <= self.len,
    {
        let remaining = self.len - self.done;
        let len = if (remaining as u64) < window.size {
            remaining
        } else {
            window.size as usize
        };
        Chunk { host_addr: window.base, offset: self.done, len }
    }

    /// Counts a piece as moved.
    pub fn advance(&mut self, chunk: &Chunk)
        requires
            old(self).wf(),
            chunk.offset == old(self).done,
            chunk.offset + chunk.len <= old(self).len,
        ensures
            *final(self) == (Transfer { done: (old(self).done + chunk.len) as usize, ..*old(self) }),
            final(self).wf(),
    {
        self.done = self.done + chunk.len;
    }
}

/// How many bytes a piece has: what is left, but no more than the window
/// shows.
pub open spec fn piece_len(remaining: int, window: int) -> int {
    if remaining < window {
        remaining
    } else {
        window
    }
}

/// How many of `len` bytes are moved once a window of each of the `sizes`
/// has been used in turn.
pub open spec fn moved(len: int, sizes: Seq<u64>) -> int
    decreases sizes.len(),
{
    if sizes.len() == 0 {
        0
    } else {
        let before = moved(len, sizes.drop_last());
        before + piece_len(len - before, sizes.last() as int)
    }
}

/// The memory of a tile after `data` has been written to `addr` piece by
/// piece, through windows of the `sizes` in turn.
pub open spec fn write_pieces(mem: Memory, addr: int, data: Seq<u8>, sizes: Seq<u64>) -> Memory
    decreases sizes.len(),
{
    if sizes.len() == 0 {
        mem
    } else {
        let before = moved(data.len() as int, sizes.drop_last());
        let n = piece_len(data.len() - before, sizes.last() as int);
        mem_write(
            write_pieces(mem, addr, data, sizes.drop_last()),
            addr + before,
            data.subrange(before, before + n),
        )
    }
}

/// The bytes read from `addr` piece by piece, through windows of the
/// `sizes` in turn, `len` bytes being asked for.
pub open spec fn read_pieces(mem: Memory, addr: int, len: int, sizes: Seq<u64>) -> Seq<u8>
    decreases sizes.len(),
{
    if sizes.len() == 0 {
        Seq::empty()
    } else {
        let before = moved(len, sizes.drop_last());
        let n = piece_len(len - before, sizes.last() as int);
        read_pieces(mem, addr, len, sizes.drop_last()) + mem_read(mem, addr + before, n)
    }
}

/// No more is moved than was asked for, and every window that shows at
/// least a byte moves the transfer on until it is done.
pub proof fn lemma_moved_bounds(len: int, sizes: Seq<u64>)
    requires
        0 <= len,
        forall|i: int| 0 <= i < sizes.len() ==> #[trigger] sizes[i] > 0,
    ensures
        0 <= moved(len, sizes) <= len,
        moved(len, sizes) == len || moved(len, sizes) >= sizes.len(),
    decreases sizes.len(),
{
    if sizes.len() > 0 {
        let head = sizes.drop_last();
        assert(forall|i: int| 0 <= i < head.len() ==> #[trigger] head[i] == sizes[i]);
        lemma_moved_bounds(len, head);
    }
}

/// Writing piece by piece writes the beginning of the data, as far as the
/// pieces reach, and nothing else.
pub proof fn lemma_write_pieces(mem: Memory, addr: int, data: Seq<u8>, sizes: Seq<u64>)
    requires
        forall|i: int| 0 <= i < sizes.len() ==> #[trigger] sizes[i] > 0,
    ensures
        write_pieces(mem, addr, data, sizes) == mem_write(
            mem,
            addr,
            data.take(moved(data.len() as int, sizes)),
        ),
    decreases sizes.len(),
{
    let len = data.len() as int;
    lemma_moved_bounds(len, sizes);
    if sizes.len() == 0 {
        assert(mem_write(mem, addr, data.take(0)) =~= mem);
    } else {
        let head = sizes.drop_last();
        assert(forall|i: int| 0 <= i < head.len() ==> #[trigger] head[i] == sizes[i]);
        lemma_write_pieces(mem, addr, data, head);
        lemma_moved_bounds(len, head);
        let before = moved(len, head);
        let n = piece_len(len - before, sizes.last() as int);
        assert(mem_write(
            mem_write(mem, addr, data.take(before)),
            addr + before,
            data.subrange(before, before + n),
        ) =~= mem_write(mem, addr, data.take(before + n)));
    }
}

/// Reading piece by piece reads the beginning of the range, as far as the
/// pieces reach.
pub proof fn lemma_read_pieces(mem: Memory, addr: int, len: int, sizes: Seq<u64>)
    requires
        0 <= len,
        forall|i: int| 0 <= i < sizes.len() ==> #[trigger] sizes[i] > 0,
    ensures
        read_pieces(mem, addr, len, sizes) == mem_read(mem, addr, moved(len, sizes)),
    decreases sizes.len(),
{
    lemma_moved_bounds(len, sizes);
    if sizes.len() == 0 {
        assert(mem_read(mem, addr, 0) =~= Seq::<u8>::empty());
    } else {
        let head = sizes.drop_last();
        assert(forall|i: int| 0 <= i < head.len() ==> #[trigger] head[i] == sizes[i]);
        lemma_read_pieces(mem, addr, len, head);
        lemma_moved_bounds(len, head);
        let before = moved(len, head);
        let n = piece_len(len - before, sizes.last() as int);
        assert(mem_read(mem, addr, before) + mem_read(mem, addr + before, n) =~= mem_read(
            mem,
            addr,
            before + n,
        ));
    }
}

/// What is written from an address on is what is read from there, whatever
/// the windows through which the one and the other passed, provided each
/// run of windows was long enough to cover the range.
pub proof fn lemma_write_read_round_trip(
    mem: Memory,
    addr: int,
    data: Seq<u8>,
    write_sizes: Seq<u64>,
    read_sizes: Seq<u64>,
)
    requires
        forall|i: int| 0 <= i < write_sizes.len() ==> #[trigger] write_sizes[i] > 0,
        forall|i: int| 0 <= i < read_sizes.len() ==> #[trigger] read_sizes[i] > 0,
        moved(data.len() as int, write_sizes) == data.len(),
        moved(data.len() as int, read_sizes) == data.len(),
    ensures
        read_pieces(
            write_pieces(mem, addr, data, write_sizes),
            addr,
            data.len() as int,
            read_sizes,
        ) == data,
{
    lemma_write_pieces(mem, addr, data, write_sizes);
    let written = write_pieces(mem, addr, data, write_sizes);
    lemma_read_pieces(written, addr, data.len() as int, read_sizes);
    assert(data.take(data.len() as int) =~= data);
    assert(mem_read(mem_write(mem, addr, data), addr, data.len() as int) =~= data);
}

/// A write, in however many pieces, leaves every byte outside its range as
/// it was: a value written next to others does not touch them.
pub proof fn lemma_write_keeps_neighbours(
    mem: Memory,
    addr: int,
    data: Seq<u8>,
    sizes: Seq<u64>,
    other: int,
)
    requires
        forall|i: int| 0 <= i < sizes.len() ==> #[trigger] sizes[i] > 0,
        other < addr || other >= addr + data.len(),
    ensures
        write_pieces(mem, addr, data, sizes).dom().contains(other) == mem.dom().contains(other),
        mem.dom().contains(other) ==> write_pieces(mem, addr, data, sizes)[other] == mem[other],
{
    lemma_write_pieces(mem, addr, data, sizes);
    lemma_moved_bounds(data.len() as int, sizes);
}

/// Of two writes that overlap, the later one counts where they overlap and
/// the earlier one where they do not.
pub proof fn lemma_overlapping_writes(
    mem: Memory,
    first_addr: int,
    first: Seq<u8>,
    second_addr: int,
    second: Seq<u8>,
    at: int,
)
    requires
        first_addr <= at < first_addr + first.len(),
    ensures
        mem_write(mem_write(mem, first_addr, first), second_addr, second)[at] == if second_addr
            <= at < second_addr + second.len() {
            second[at - second_addr]
        } else {
            first[at - first_addr]
        },
{
}

/// The address on the tile that a window programmed with region `region`
/// shows at host address `host`.
pub open spec fn shown_addr(w: Window, region: u64, host: int) -> int {
    region * w.size + (host - w.base)
}

/// A hold that serves a request shows the request's address first, at
/// least one byte, and nothing beyond its window.
pub proof fn lemma_hold_shows_request(w: Window, a: Allocation, request: WindowRequest)
    requires
        w.wf(),
        hold_matches(w, a, request),
    ensures
        shown_addr(w, request.config_spec(w.size).region, a.base as int) == request.addr,
        a.size > 0,
        a.base + a.size == w.base + w.size,
{
    vstd::arithmetic::div_mod::lemma_fundamental_div_mod(request.addr as int, w.size as int);
    vstd::arithmetic::mul::lemma_mul_is_commutative(
        w.size as int,
        (request.addr / w.size) as int,
    );
}

/// One more window moves the transfer on by one piece.
pub proof fn lemma_transfer_step(len: int, sizes: Seq<u64>, next: u64)
    ensures
        moved(len, sizes.push(next)) == moved(len, sizes) + piece_len(
            len - moved(len, sizes),
            next as int,
        ),
{
    assert(sizes.push(next).drop_last() =~= sizes);
}

/// The memory of the tiles of a chip. A tile is known by its two places,
/// one on each fabric: whichever fabric reaches it, it is the same memory.
pub type ChipMemory = Map<NocAddress, Memory>;

/// A place on a fabric is one tile: no two tiles of the chip share a place
/// on either fabric.
pub open spec fn one_tile_per_place(chip: ChipMemory) -> bool {
    forall|a: NocAddress, b: NocAddress, noc_id: NocId|
        chip.dom().contains(a) && chip.dom().contains(b) && #[trigger] a.get_spec(noc_id)
            == #[trigger] b.get_spec(noc_id) ==> a == b
}

/// The tile that fabric `noc_id` finds at `place`.
pub open spec fn tile_at(chip: ChipMemory, noc_id: NocId, place: (u8, u8)) -> NocAddress {
    choose|tile: NocAddress| chip.dom().contains(tile) && tile.get_spec(noc_id) == place
}

/// What a read of `len` bytes at `addr` gives, made over fabric `noc_id` of
/// the tile at `place`.
pub open spec fn fabric_read(
    chip: ChipMemory,
    noc_id: NocId,
    place: (u8, u8),
    addr: int,
    len: int,
) -> Seq<u8> {
    mem_read(chip[tile_at(chip, noc_id, place)], addr, len)
}

/// The memory of the tiles after `data` has been written from `addr` on
/// in every tile whose place on fabric `noc_id` lies in the rectangle with
/// the corners `start` and `end`.
pub open spec fn broadcast_write(
    chip: ChipMemory,
    noc_id: NocId,
    start: (u8, u8),
    end: (u8, u8),
    addr: int,
    data: Seq<u8>,
) -> ChipMemory {
    Map::new(
        |tile: NocAddress| chip.dom().contains(tile),
        |tile: NocAddress|
            if in_rect(tile.get_spec(noc_id), start, end) {
                mem_write(chip[tile], addr, data)
            } else {
                chip[tile]
            },
    )
}

/// A fabric finds at a tile's place that tile and no other.
pub proof fn lemma_tile_at_its_place(chip: ChipMemory, noc_id: NocId, tile: NocAddress)
    requires
        one_tile_per_place(chip),
        chip.dom().contains(tile),
    ensures
        tile_at(chip, noc_id, tile.get_spec(noc_id)) == tile,
{
    let found = tile_at(chip, noc_id, tile.get_spec(noc_id));
    assert(chip.dom().contains(found) && found.get_spec(noc_id) == tile.get_spec(noc_id));
}

/// After a broadcast over one fabric every tile of the rectangle holds what
/// was written, and every other tile is as it was, over whichever fabric
/// the tile is then read.
pub proof fn lemma_broadcast_write(
    chip: ChipMemory,
    written_over: NocId,
    start: (u8, u8),
    end: (u8, u8),
    addr: int,
    data: Seq<u8>,
    tile: NocAddress,
    read_over: NocId,
)
    requires
        one_tile_per_place(chip),
        chip.dom().contains(tile),
    ensures
        in_rect(tile.get_spec(written_over), start, end) ==> fabric_read(
            broadcast_write(chip, written_over, start, end, addr, data),
            read_over,
            tile.get_spec(read_over),
            addr,
            data.len() as int,
        ) == data,
        !in_rect(tile.get_spec(written_over), start, end) ==> forall|at: int, len: int|
            #[trigger] fabric_read(
                broadcast_write(chip, written_over, start, end, addr, data),
                read_over,
                tile.get_spec(read_over),
                at,
                len,
            ) == fabric_read(chip, read_over, tile.get_spec(read_over), at, len),
{
    let after = broadcast_write(chip, written_over, start, end, addr, data);
    assert(after.dom() =~= chip.dom());
    assert(one_tile_per_place(after));
    lemma_tile_at_its_place(chip, read_over, tile);
    lemma_tile_at_its_place(after, read_over, tile);
    if in_rect(tile.get_spec(written_over), start, end) {
        assert(mem_read(mem_write(chip[tile], addr, data), addr, data.len() as int) =~= data);
    }
}

} // verus!
