//! The address-translation windows through which the host reaches the NOC.
//!
//! A device has a small pool of windows. Each can be programmed to show one
//! region of one tile (or of a rectangle of tiles) in host memory. Callers
//! that want the same region share a window; the pool counts them, and the
//! window is free again when the last of them has let go.

use crate::chip::noc::NocId;
use crate::chip::Arch;
use vstd::prelude::*;

verus! {

/// How the writes through a window are ordered against each other.
#[derive(Clone, Copy, Debug, PartialEq, Eq, Hash, Structural)]
pub enum NocOrdering {
    Relaxed,
    Strict,
    Posted,
    PostedStrict,
}

/// What a caller wants to reach: a NOC address on a tile, or on every tile
/// of a rectangle, over one of the two fabrics.
#[derive(Clone, Copy, Debug, PartialEq, Eq, Hash, Structural)]
pub struct WindowRequest {
    pub addr: u64,
    pub x_end: u8,
    pub y_end: u8,
    pub x_start: u8,
    pub y_start: u8,
    pub noc_sel: u8,
    pub mcast: bool,
    pub ordering: NocOrdering,
    pub linked: bool,
    pub static_vc: u8,
}

/// What a window is programmed to show: as a request, but with the region
/// of the tile's memory in place of the address. Region `n` of a window of
/// `size` bytes starts at address `n * size`.
#[derive(Clone, Copy, Debug, PartialEq, Eq, Hash, Structural)]
pub struct WindowConfig {
    pub region: u64,
    pub x_end: u8,
    pub y_end: u8,
    pub x_start: u8,
    pub y_start: u8,
    pub noc_sel: u8,
    pub mcast: bool,
    pub ordering: NocOrdering,
    pub linked: bool,
    pub static_vc: u8,
}

/// One window of the pool.
#[derive(Clone, Copy, Debug, PartialEq, Eq, Hash, Structural)]
pub struct Window {
    /// The number the hardware knows the window by.
    pub index: u32,
    /// Where the window starts in host memory.
    pub base: u64,
    /// How many bytes it shows.
    pub size: u64,
    /// How many callers hold it.
    pub refs: u64,
    /// What it shows, while any caller holds it.
    pub target: Option<WindowConfig>,
}

/// A caller's hold on a window.
#[derive(Clone, Copy, Debug, PartialEq, Eq, Structural)]
pub struct Allocation {
    /// The place of the window in the pool.
    pub slot: usize,
    /// The number the hardware knows the window by.
    pub index: u32,
    /// Where in host memory the address asked for is to be found.
    pub base: u64,
    /// How many bytes from there on the window shows.
    pub size: u64,
    /// What the window must be programmed with before use; `None` where it
    /// shows the region already.
    pub program: Option<WindowConfig>,
}

/// The window that a device of each generation sets apart for the host when
/// the driver hands out none.
pub open spec fn hardcoded_index_spec(arch: Arch) -> u32 {
    match arch {
        Arch::Grayskull => 184,
        Arch::Wormhole => 184,
        Arch::Blackhole => 190,
    }
}

#[verifier::when_used_as_spec(hardcoded_index_spec)]
pub fn hardcoded_index(arch: Arch) -> (r: u32)
    ensures
        r == hardcoded_index_spec(arch),
{
    match arch {
        Arch::Grayskull => 184,
        Arch::Wormhole => 184,
        Arch::Blackhole => 190,
    }
}

/// The sizes at which a window of `size` bytes is asked of the driver, one
/// after the other: `size`, then half of it, and so on down to one byte.
pub open spec fn attempt_sizes(size: u64) -> Seq<u64>
    decreases size,
{
    if size == 0 {
        Seq::empty()
    } else {
        seq![size] + attempt_sizes(size / 2)
    }
}

/// The next size to ask the driver for after it refused `size`; `None`
/// when there is nothing smaller to ask for, and the hardcoded window is to
/// be used.
pub fn next_attempt(size: u64) -> (r: Option<u64>)
    ensures
        r == if attempt_sizes(size).len() >= 2 {
            Some(attempt_sizes(size)[1])
        } else {
            None
        },
{
    reveal_with_fuel(attempt_sizes, 3);
    let next = size >> 1;
    assert(size >> 1 == size / 2) by (bit_vector);
    if size == 0 || next == 0 {
        None
    } else {
        Some(next)
    }
}

impl WindowRequest {
    /// A request for one tile.
    pub fn unicast(noc_id: NocId, x: u8, y: u8, addr: u64, ordering: NocOrdering) -> (r: Self)
        ensures
            r == (WindowRequest {
                addr,
                x_end: x,
                y_end: y,
                x_start: 0,
                y_start: 0,
                noc_sel: noc_id.index_spec() as u8,
                mcast: false,
                ordering,
                linked: false,
                static_vc: 0,
            }),
    {
        WindowRequest {
            addr,
            x_end: x,
            y_end: y,
            x_start: 0,
            y_start: 0,
            noc_sel: noc_id.index(),
            mcast: false,
            ordering,
            linked: false,
            static_vc: 0,
        }
    }

    /// A request for every tile of the rectangle from `start` to `end`.
    pub fn multicast(
        noc_id: NocId,
        start: (u8, u8),
        end: (u8, u8),
        addr: u64,
        ordering: NocOrdering,
    ) -> (r: Self)
        ensures
            r == (WindowRequest {
                addr,
                x_end: end.0,
                y_end: end.1,
                x_start: start.0,
                y_start: start.1,
                noc_sel: noc_id.index_spec() as u8,
                mcast: true,
                ordering,
                linked: false,
                static_vc: 0,
            }),
    {
        WindowRequest {
            addr,
            x_end: end.0,
            y_end: end.1,
            x_start: start.0,
            y_start: start.1,
            noc_sel: noc_id.index(),
            mcast: true,
            ordering,
            linked: false,
            static_vc: 0,
        }
    }

    /// What a window of `size` bytes must show to serve this request.
    pub open spec fn config_spec(&self, size: u64) -> WindowConfig {
        WindowConfig {
            region: self.addr / size,
            x_end: self.x_end,
            y_end: self.y_end,
            x_start: self.x_start,
            y_start: self.y_start,
            noc_sel: self.noc_sel,
            mcast: self.mcast,
            ordering: self.ordering,
            linked: self.linked,
            static_vc: self.static_vc,
        }
    }

    pub fn config(&self, size: u64) -> (r: WindowConfig)
        requires
            size > 0,
        ensures
            r == self.config_spec(size),
    {
        WindowConfig {
            region: self.addr / size,
            x_end: self.x_end,
            y_end: self.y_end,
            x_start: self.x_start,
            y_start: self.y_start,
            noc_sel: self.noc_sel,
            mcast: self.mcast,
            ordering: self.ordering,
            linked: self.linked,
            static_vc: self.static_vc,
        }
    }
}

impl WindowConfig {
    /// Whether two configurations show the same thing. Where a window does
    /// not multicast, the corner at which a rectangle would start means
    /// nothing and is not compared.
    pub open spec fn same_target_spec(&self, other: &WindowConfig) -> bool {
        &&& self.region == other.region
        &&& self.x_end == other.x_end
        &&& self.y_end == other.y_end
        &&& self.noc_sel == other.noc_sel
        &&& self.mcast == other.mcast
        &&& self.ordering == other.ordering
        &&& self.linked == other.linked
        &&& self.static_vc == other.static_vc
        &&& (self.mcast ==> self.x_start == other.x_start && self.y_start == other.y_start)
    }

    #[verifier::when_used_as_spec(same_target_spec)]
    pub fn same_target(&self, other: &WindowConfig) -> (r: bool)
        ensures
            r == self.same_target_spec(other),
    {
        self.region == other.region && self.x_end == other.x_end && self.y_end == other.y_end
            && self.noc_sel == other.noc_sel && self.mcast == other.mcast && self.ordering
            == other.ordering && self.linked == other.linked && self.static_vc == other.static_vc
            && (!self.mcast || (self.x_start == other.x_start && self.y_start == other.y_start))
    }
}

impl Window {
    /// A window is held exactly while it shows something, and shows at
    /// least a byte.
    pub open spec fn wf(&self) -> bool {
        &&& self.size > 0
        &&& self.base + self.size <= u64::MAX
        &&& (self.refs == 0 <==> self.target is None)
    }

    /// Whether the window is held and shows what `request` asks for.
    pub open spec fn serves(&self, request: WindowRequest) -> bool {
        &&& self.refs > 0
        &&& self.target matches Some(t)
        &&& t.same_target_spec(&request.config_spec(self.size))
    }

    /// Whether nobody holds the window.
    pub open spec fn is_free(&self) -> bool {
        self.refs == 0
    }

    /// The hold on this window, at place `slot`, that serves `request`.
    pub open spec fn hold(&self, slot: int, request: WindowRequest, fresh: bool) -> Allocation {
        Allocation {
            slot: slot as usize,
            index: self.index,
            base: (self.base + request.addr % self.size) as u64,
            size: (self.size - request.addr % self.size) as u64,
            program: if fresh {
                Some(request.config_spec(self.size))
            } else {
                None
            },
        }
    }
}

/// Whether window `c` is the free window that fits a wish for `want` bytes
/// best: the smallest that is large enough or, where none is, the largest;
/// of equals the first.
pub open spec fn is_best_fit(windows: Seq<Window>, want: u64, c: int) -> bool {
    &&& 0 <= c < windows.len()
    &&& windows[c].is_free()
    &&& forall|j: int|
        0 <= j < windows.len() && (#[trigger] windows[j]).is_free() ==> better_or_same(
            windows[c],
            c,
            windows[j],
            j,
            want,
        )
}

/// Whether window `a` at place `i` fits a wish for `want` bytes at least as
/// well as window `b` at place `j`.
pub open spec fn better_or_same(a: Window, i: int, b: Window, j: int, want: u64) -> bool {
    if a.size >= want && b.size >= want {
        a.size < b.size || (a.size == b.size && i <= j)
    } else if a.size >= want {
        true
    } else if b.size >= want {
        false
    } else {
        a.size > b.size || (a.size == b.size && i <= j)
    }
}

/// Whether window `m` is the first that is held and serves `request`, and
/// can take one holder more.
pub open spec fn is_first_match(windows: Seq<Window>, request: WindowRequest, m: int) -> bool {
    &&& 0 <= m < windows.len()
    &&& windows[m].serves(request)
    &&& windows[m].refs < u64::MAX
    &&& forall|j: int|
        0 <= j < m ==> !((#[trigger] windows[j]).serves(request) && windows[j].refs < u64::MAX)
}

/// Whether some window can be shared for `request`.
pub open spec fn can_share(windows: Seq<Window>, request: WindowRequest) -> bool {
    exists|j: int| 0 <= j < windows.len() && (#[trigger] windows[j]).serves(request) && windows[j].refs < u64::MAX
}

/// Whether some window is free.
pub open spec fn has_free(windows: Seq<Window>) -> bool {
    exists|j: int| 0 <= j < windows.len() && (#[trigger] windows[j]).is_free()
}

/// The windows of one device.
#[derive(Clone, Debug, PartialEq, Eq)]
pub struct WindowPool {
    pub windows: Vec<Window>,
}

impl View for WindowPool {
    type V = Seq<Window>;

    open spec fn view(&self) -> Seq<Window> {
        self.windows@
    }
}

/// Why no window could be had.
#[derive(Clone, Copy, Debug, PartialEq, Eq, Structural)]
pub enum WindowError {
    /// Every window is held for something else: try again.
    Busy,
}

impl WindowPool {
    /// Every window of the pool is well formed.
    pub open spec fn wf(&self) -> bool {
        forall|i: int| 0 <= i < self@.len() ==> (#[trigger] self@[i]).wf()
    }

    /// A pool of one window.
    pub fn single(index: u32, base: u64, size: u64) -> (r: Self)
        requires
            size > 0,
            base + size <= u64::MAX,
        ensures
            r.wf(),
            r@ == seq![Window { index, base, size, refs: 0, target: None }],
    {
        let mut windows = Vec::new();
        windows.push(Window { index, base, size, refs: 0, target: None });
        WindowPool { windows }
    }

    /// A pool with no window yet.
    pub fn new() -> (r: Self)
        ensures
            r.wf(),
            r@.len() == 0,
    {
        WindowPool { windows: Vec::new() }
    }

    /// Adds a free window to the pool.
    pub fn add(&mut self, index: u32, base: u64, size: u64)
        requires
            old(self).wf(),
            size > 0,
            base + size <= u64::MAX,
        ensures
            final(self).wf(),
            final(self)@ == old(self)@.push(Window { index, base, size, refs: 0, target: None }),
    {
        self.windows.push(Window { index, base, size, refs: 0, target: None });
    }

    /// How many callers hold the window at `slot`.
    pub fn refs(&self, slot: usize) -> (r: u64)
        requires
            slot < self@.len(),
        ensures
            r == self@[slot as int].refs,
    {
        self.windows[slot].refs
    }

    /// Whether nobody holds the window at `slot`.
    pub fn is_free(&self, slot: usize) -> (r: bool)
        requires
            slot < self@.len(),
        ensures
            r == self@[slot as int].is_free(),
    {
        self.windows[slot].refs == 0
    }

    /// The first window that is held for what `request` asks, if any.
    fn find_match(&self, request: &WindowRequest) -> (r: Option<usize>)
        requires
            self.wf(),
        ensures
            r matches Some(m) ==> is_first_match(self@, *request, m as int),
            r is None ==> !can_share(self@, *request),
    {
        let mut i: usize = 0;
        while i < self.windows.len()
            invariant
                self.wf(),
                i <= self@.len(),
                forall|j: int|
                    0 <= j < i ==> !((#[trigger] self@[j]).serves(*request) && self@[j].refs
                        < u64::MAX),
            decreases self@.len() - i,
        {
            let w = &self.windows[i];
            assert(self@[i as int].wf());
            if w.refs > 0 && w.refs < u64::MAX {
                match &w.target {
                    Some(t) => {
                        if t.same_target(&request.config(w.size)) {
                            return Some(i);
                        }
                    },
                    None => {},
                }
            }
            i += 1;
        }
        None
    }

    /// The free window that fits a wish for `want` bytes best, if any.
    fn find_free(&self, want: u64) -> (r: Option<usize>)
        requires
            self.wf(),
        ensures
            r matches Some(c) ==> is_best_fit(self@, want, c as int),
            r is None ==> !has_free(self@),
    {
        let mut best: Option<usize> = None;
        let mut i: usize = 0;
        while i < self.windows.len()
            invariant
                self.wf(),
                i <= self@.len(),
                best matches Some(c) ==> c < i && is_best_fit(self@.take(i as int), want, c as int),
                best is None ==> forall|j: int| 0 <= j < i ==> !(#[trigger] self@[j]).is_free(),
            decreases self@.len() - i,
        {
            let w = &self.windows[i];
            let ghost before = self@.take(i as int);
            let ghost after = self@.take(i + 1);
            if w.refs == 0 {
                let take = match best {
                    None => true,
                    Some(c) => {
                        let b = &self.windows[c];
                        if b.size >= want {
                            w.size >= want && w.size < b.size
                        } else {
                            w.size > b.size
                        }
                    },
                };
                if take {
                    best = Some(i);
                }
            }
            proof {
                match best {
                    Some(c) => {
                        assert forall|j: int|
                            0 <= j < after.len() && (#[trigger] after[j]).is_free() implies better_or_same(
                            after[c as int],
                            c as int,
                            after[j],
                            j,
                            want,
                        ) by {
                            if j < i {
                                assert(before[j] == after[j]);
                            }
                        }
                    },
                    None => {},
                }
            }
            i += 1;
        }
        assert(self@.take(i as int) =~= self@);
        best
    }

    /// Gets the caller a window on what `request` asks for, at least one
    /// byte and if possible `size` bytes of it. A window that is held for
    /// the same thing is shared; else the free window that fits best is
    /// taken and must be programmed. Where every window is held for
    /// something else, the caller is told to try again.
    pub fn acquire(&mut self, request: &WindowRequest, size: u64) -> (r: Result<
        Allocation,
        WindowError,
    >)
        requires
            old(self).wf(),
        ensures
            final(self).wf(),
            final(self)@.len() == old(self)@.len(),
            r is Ok <==> can_share(old(self)@, *request) || has_free(old(self)@),
            r matches Ok(a) ==> {
                let s = a.slot as int;
                &&& 0 <= s < old(self)@.len()
                &&& if can_share(old(self)@, *request) {
                    &&& is_first_match(old(self)@, *request, s)
                    &&& a == old(self)@[s].hold(s, *request, false)
                    &&& final(self)@ == old(self)@.update(
                        s,
                        Window { refs: (old(self)@[s].refs + 1) as u64, ..old(self)@[s] },
                    )
                } else {
                    &&& is_best_fit(old(self)@, size, s)
                    &&& a == old(self)@[s].hold(s, *request, true)
                    &&& final(self)@ == old(self)@.update(
                        s,
                        Window {
                            refs: 1,
                            target: Some(request.config_spec(old(self)@[s].size)),
                            ..old(self)@[s]
                        },
                    )
                }
            },
            r is Err ==> final(self)@ == old(self)@,
            final(self)@ == pool_acquire(old(self)@, *request, size).0,
            r matches Ok(a) ==> pool_acquire(old(self)@, *request, size).1 == Some(a.slot as int),
            r matches Ok(a) ==> final(self).shows(a, *request) && a.size > 0,
            r is Err ==> pool_acquire(old(self)@, *request, size).1 is None,
    {
        let shared = self.find_match(request);
        let (slot, fresh) = match shared {
            Some(m) => (m, false),
            None => match self.find_free(size) {
                Some(c) => (c, true),
                None => {
                    return Err(WindowError::Busy);
                },
            },
        };
        proof {
            if fresh {
                lemma_best_fit_unique(
                    self@,
                    size,
                    slot as int,
                    choose|c: int| is_best_fit(self@, size, c),
                );
            } else {
                lemma_first_match_unique(
                    self@,
                    *request,
                    slot as int,
                    choose|m: int| is_first_match(self@, *request, m),
                );
            }
        }
        let w = self.windows[slot];
        assert(self@[slot as int].wf());
        let offset = request.addr % w.size;
        let config = request.config(w.size);
        let updated = if fresh {
            Window { refs: 1, target: Some(config), ..w }
        } else {
            Window { refs: w.refs + 1, ..w }
        };
        self.windows[slot] = updated;
        Ok(
            Allocation {
                slot,
                index: w.index,
                base: w.base + offset,
                size: w.size - offset,
                program: if fresh {
                    Some(config)
                } else {
                    None
                },
            },
        )
    }

    /// Lets go of a hold. The window is free again when its last holder has
    /// let go; the result says whether that has just happened. A hold on a
    /// window that nobody holds changes nothing.
    pub fn release(&mut self, allocation: Allocation) -> (freed: bool)
        requires
            old(self).wf(),
        ensures
            final(self).wf(),
            final(self)@ == pool_release(old(self)@, allocation.slot as int),
            freed == (allocation.slot < old(self)@.len() && old(self)@[allocation.slot as int].refs
                == 1),
    {
        let slot = allocation.slot;
        if slot >= self.windows.len() {
            return false;
        }
        let w = self.windows[slot];
        assert(self@[slot as int].wf());
        if w.refs == 0 {
            false
        } else if w.refs == 1 {
            self.windows[slot] = Window { refs: 0, target: None, ..w };
            true
        } else {
            self.windows[slot] = Window { refs: w.refs - 1, ..w };
            false
        }
    }
}

impl WindowPool {
    /// Whether the hold `a` shows what `request` asks for: the window is
    /// held for the request's target, and the hold starts at the request's
    /// address and ends with the window.
    pub open spec fn shows(&self, a: Allocation, request: WindowRequest) -> bool {
        &&& a.slot < self@.len()
        &&& self@[a.slot as int].serves(request)
        &&& hold_matches(self@[a.slot as int], a, request)
    }

    /// Checks a hold against the request it was acquired for.
    pub fn validate(&self, a: &Allocation, request: &WindowRequest) -> (r: bool)
        requires
            self.wf(),
        ensures
            r == self.shows(*a, *request),
    {
        if a.slot >= self.windows.len() {
            return false;
        }
        let w = &self.windows[a.slot];
        assert(self@[a.slot as int].wf());
        if w.refs == 0 {
            return false;
        }
        let serves = match &w.target {
            Some(t) => t.same_target(&request.config(w.size)),
            None => false,
        };
        let offset = request.addr % w.size;
        serves && a.index == w.index && a.base == w.base + offset && a.size == w.size - offset
    }
}

/// Whether the hold `a` on window `w` starts at the address of `request`
/// and ends with the window.
pub open spec fn hold_matches(w: Window, a: Allocation, request: WindowRequest) -> bool {
    &&& a.index == w.index
    &&& a.base == w.base + request.addr % w.size
    &&& a.size == w.size - request.addr % w.size
}

/// The pool after one holder of the window at `slot` has let go.
pub open spec fn pool_release(windows: Seq<Window>, slot: int) -> Seq<Window> {
    if 0 <= slot < windows.len() && windows[slot].refs > 0 {
        windows.update(
            slot,
            if windows[slot].refs == 1 {
                Window { refs: 0, target: None, ..windows[slot] }
            } else {
                Window { refs: (windows[slot].refs - 1) as u64, ..windows[slot] }
            },
        )
    } else {
        windows
    }
}

/// The pool after a caller has asked for a window on `request`, and the
/// place of the window it got: a held window that serves the request, with
/// one holder more; else the free window that fits best, freshly held;
/// else nothing, and the pool as it was.
pub open spec fn pool_acquire(windows: Seq<Window>, request: WindowRequest, size: u64) -> (
    Seq<Window>,
    Option<int>,
) {
    if can_share(windows, request) {
        let m = choose|m: int| is_first_match(windows, request, m);
        (
            windows.update(m, Window { refs: (windows[m].refs + 1) as u64, ..windows[m] }),
            Some(m),
        )
    } else if has_free(windows) {
        let c = choose|c: int| is_best_fit(windows, size, c);
        (
            windows.update(
                c,
                Window {
                    refs: 1,
                    target: Some(request.config_spec(windows[c].size)),
                    ..windows[c]
                },
            ),
            Some(c),
        )
    } else {
        (windows, None)
    }
}

/// Only one window is the first to serve a request.
pub proof fn lemma_first_match_unique(
    windows: Seq<Window>,
    request: WindowRequest,
    a: int,
    b: int,
)
    requires
        is_first_match(windows, request, a),
        is_first_match(windows, request, b),
    ensures
        a == b,
{
    if a < b {
        assert(!(windows[a].serves(request) && windows[a].refs < u64::MAX));
    } else if b < a {
        assert(!(windows[b].serves(request) && windows[b].refs < u64::MAX));
    }
}

/// Only one free window fits best.
pub proof fn lemma_best_fit_unique(windows: Seq<Window>, want: u64, a: int, b: int)
    requires
        is_best_fit(windows, want, a),
        is_best_fit(windows, want, b),
    ensures
        a == b,
{
    assert(better_or_same(windows[a], a, windows[b], b, want));
    assert(better_or_same(windows[b], b, windows[a], a, want));
}

/// The pool after `n` callers in a row have asked for a window on the same
/// request.
pub open spec fn acquire_n(windows: Seq<Window>, request: WindowRequest, size: u64, n: nat) -> Seq<
    Window,
>
    decreases n,
{
    if n == 0 {
        windows
    } else {
        pool_acquire(acquire_n(windows, request, size, (n - 1) as nat), request, size).0
    }
}

/// The pool after `n` holders of the window at `slot` have let go.
pub open spec fn release_n(windows: Seq<Window>, slot: int, n: nat) -> Seq<Window>
    decreases n,
{
    if n == 0 {
        windows
    } else {
        pool_release(release_n(windows, slot, (n - 1) as nat), slot)
    }
}

/// Whether every window of a pool is well formed.
pub open spec fn pool_wf(windows: Seq<Window>) -> bool {
    forall|i: int| 0 <= i < windows.len() ==> (#[trigger] windows[i]).wf()
}

/// The window at `c`, held by `n` callers for `request`.
pub open spec fn held_by(w: Window, request: WindowRequest, n: nat) -> Window {
    if n == 0 {
        Window { refs: 0, target: None, ..w }
    } else {
        Window { refs: n as u64, target: Some(request.config_spec(w.size)), ..w }
    }
}

/// While a window is held for a request by fewer callers than can be
/// counted, the next caller with the same request is given the same window.
proof fn lemma_acquire_shares(
    windows: Seq<Window>,
    request: WindowRequest,
    size: u64,
    c: int,
    k: nat,
)
    requires
        pool_wf(windows),
        0 <= c < windows.len(),
        !can_share(windows, request),
        is_best_fit(windows, size, c),
        k < u64::MAX,
    ensures
        pool_acquire(windows.update(c, held_by(windows[c], request, k)), request, size) == (
            windows.update(c, held_by(windows[c], request, k + 1)),
            Some(c),
        ),
{
    let now = windows.update(c, held_by(windows[c], request, k));
    assert(windows[c].wf());
    if k == 0 {
        assert(now =~= windows);
        lemma_best_fit_unique(windows, size, c, choose|x: int| is_best_fit(windows, size, x));
        assert(now.update(
            c,
            Window { refs: 1, target: Some(request.config_spec(now[c].size)), ..now[c] },
        ) =~= windows.update(c, held_by(windows[c], request, 1)));
    } else {
        assert(now[c].serves(request));
        assert forall|j: int| 0 <= j < c implies !((#[trigger] now[j]).serves(request) && now[j].refs
            < u64::MAX) by {
            assert(now[j] == windows[j]);
            assert(!(windows[j].serves(request) && windows[j].refs < u64::MAX));
        }
        assert(is_first_match(now, request, c));
        lemma_first_match_unique(now, request, c, choose|m: int| is_first_match(now, request, m));
        assert(now.update(c, Window { refs: (now[c].refs + 1) as u64, ..now[c] }) =~= windows.update(
            c,
            held_by(windows[c], request, k + 1),
        ));
    }
}

/// After `n` callers have asked for the same thing, one window is held by
/// all `n` of them.
proof fn lemma_acquire_n(windows: Seq<Window>, request: WindowRequest, size: u64, c: int, n: nat)
    requires
        pool_wf(windows),
        !can_share(windows, request),
        is_best_fit(windows, size, c),
        n < u64::MAX,
    ensures
        acquire_n(windows, request, size, n) == windows.update(c, held_by(windows[c], request, n)),
        n > 0 ==> pool_acquire(acquire_n(windows, request, size, (n - 1) as nat), request, size).1
            == Some(c),
    decreases n,
{
    assert(windows[c].wf());
    if n == 0 {
        assert(windows.update(c, held_by(windows[c], request, 0)) =~= windows);
    } else {
        lemma_acquire_n(windows, request, size, c, (n - 1) as nat);
        lemma_acquire_shares(windows, request, size, c, (n - 1) as nat);
    }
}

/// After `j` of `n` holders have let go, the window is held by the rest.
proof fn lemma_release_n(windows: Seq<Window>, request: WindowRequest, c: int, n: nat, j: nat)
    requires
        pool_wf(windows),
        0 <= c < windows.len(),
        windows[c].is_free(),
        j <= n < u64::MAX,
    ensures
        release_n(windows.update(c, held_by(windows[c], request, n)), c, j) == windows.update(
            c,
            held_by(windows[c], request, (n - j) as nat),
        ),
    decreases j,
{
    let held = windows.update(c, held_by(windows[c], request, n));
    if j > 0 {
        lemma_release_n(windows, request, c, n, (j - 1) as nat);
        let before = windows.update(c, held_by(windows[c], request, (n - j + 1) as nat));
        assert(pool_release(before, c) =~= windows.update(
            c,
            held_by(windows[c], request, (n - j) as nat),
        ));
    }
}

/// When `n` callers ask for a window on the same thing, one after the
/// other, and then let go, one after the other: all of them are given the
/// same window; it stays held until the last of them lets go; and then,
/// not before, it is free, and the pool is as it was.
pub proof fn lemma_window_ref_counting(
    windows: Seq<Window>,
    request: WindowRequest,
    size: u64,
    n: nat,
)
    requires
        pool_wf(windows),
        !can_share(windows, request),
        has_free(windows),
        0 < n < u64::MAX,
    ensures
        ({
            let c = choose|c: int| is_best_fit(windows, size, c);
            let held = acquire_n(windows, request, size, n);
            &&& is_best_fit(windows, size, c)
            &&& forall|k: nat|
                1 <= k <= n ==> #[trigger] pool_acquire(
                    acquire_n(windows, request, size, (k - 1) as nat),
                    request,
                    size,
                ).1 == Some(c)
            &&& held[c].refs == n
            &&& forall|j: nat| j < n ==> !(#[trigger] release_n(held, c, j))[c].is_free()
            &&& release_n(held, c, n)[c].is_free()
            &&& release_n(held, c, n) == windows
        }),
{
    lemma_some_best_fit(windows, size);
    let c = choose|c: int| is_best_fit(windows, size, c);
    let held = acquire_n(windows, request, size, n);
    assert(windows[c].wf());
    lemma_acquire_n(windows, request, size, c, n);
    assert forall|k: nat| 1 <= k <= n implies #[trigger] pool_acquire(
        acquire_n(windows, request, size, (k - 1) as nat),
        request,
        size,
    ).1 == Some(c) by {
        lemma_acquire_n(windows, request, size, c, k);
    }
    assert forall|j: nat| j < n implies !(#[trigger] release_n(held, c, j))[c].is_free() by {
        lemma_release_n(windows, request, c, n, j);
    }
    lemma_release_n(windows, request, c, n, n);
    assert(windows.update(c, held_by(windows[c], request, 0)) =~= windows);
}

/// Where a window is free, one of the free windows fits best.
pub proof fn lemma_some_best_fit(windows: Seq<Window>, want: u64)
    requires
        has_free(windows),
    ensures
        exists|c: int| is_best_fit(windows, want, c),
{
    lemma_best_fit_prefix(windows, want, windows.len() as int);
    assert(windows.take(windows.len() as int) =~= windows);
}

/// Among the first `n` windows, if one is free, one of the free fits best.
proof fn lemma_best_fit_prefix(windows: Seq<Window>, want: u64, n: int)
    requires
        0 <= n <= windows.len(),
    ensures
        has_free(windows.take(n)) ==> exists|c: int| is_best_fit(windows.take(n), want, c),
    decreases n,
{
    if n > 0 && has_free(windows.take(n)) {
        let now = windows.take(n);
        let before = windows.take(n - 1);
        lemma_best_fit_prefix(windows, want, n - 1);
        assert(forall|j: int| 0 <= j < n - 1 ==> before[j] == now[j]);
        if has_free(before) {
            let b = choose|c: int| is_best_fit(before, want, c);
            let last = n - 1;
            if now[last].is_free() && !better_or_same(now[b], b, now[last], last, want) {
                assert forall|j: int|
                    0 <= j < now.len() && (#[trigger] now[j]).is_free() implies better_or_same(
                    now[last],
                    last,
                    now[j],
                    j,
                    want,
                ) by {
                    if j < last {
                        assert(before[j].is_free());
                        assert(better_or_same(before[b], b, before[j], j, want));
                    }
                }
                assert(is_best_fit(now, want, last));
            } else {
                assert forall|j: int|
                    0 <= j < now.len() && (#[trigger] now[j]).is_free() implies better_or_same(
                    now[b],
                    b,
                    now[j],
                    j,
                    want,
                ) by {
                    if j < last {
                        assert(before[j].is_free());
                        assert(better_or_same(before[b], b, before[j], j, want));
                    }
                }
                assert(is_best_fit(now, want, b));
            }
        } else {
            let last = n - 1;
            let f = choose|j: int| 0 <= j < now.len() && (#[trigger] now[j]).is_free();
            if f < last {
                assert(before[f].is_free());
            }
            assert forall|j: int|
                0 <= j < now.len() && (#[trigger] now[j]).is_free() implies better_or_same(
                now[last],
                last,
                now[j],
                j,
                want,
            ) by {
                if j < last {
                    assert(before[j].is_free());
                }
            }
            assert(is_best_fit(now, want, last));
        }
    }
}

} // verus!
