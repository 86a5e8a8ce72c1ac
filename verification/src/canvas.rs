//! The canvas store: sole owner of the grid, its bounds-checked access, the
//! listener set, and the snapshot bytes that persistence reads and writes.
//!
//! Every operation that touches the grid is meant to be processed one at a
//! time, in arrival order, by a single exclusive owner; the surrounding layer
//! provides that discipline (a dedicated worker or a mutex around the store),
//! and in return every operation here is total, panic-free, and exactly
//! described by its contract.

use vstd::prelude::*;

use crate::config::CanvasConfig;
use crate::errors::{Axis, OutOfBounds, SizeMismatch};
use crate::{Color, Coord};

verus! {

/// The opaque identity of one live session's outbound channel. The store
/// holds these as non-owning references: membership only, no ordering
/// obligations, idempotent insert and remove.
#[derive(Clone, Copy, PartialEq, Eq, Structural, Debug)]
pub struct ListenerId(pub u64);

/// Request: read one cell.
#[derive(Clone, Copy, PartialEq, Eq, Structural, Debug)]
pub struct GetCell {
    pub x: Coord,
    pub y: Coord,
}

/// Request: a complete, consistent copy of the grid.
#[derive(Clone, Copy, PartialEq, Eq, Structural, Debug)]
pub struct GetCanvas;

/// Request: write one cell.
#[derive(Clone, Copy, PartialEq, Eq, Structural, Debug)]
pub struct UpdateCell {
    pub x: Coord,
    pub y: Coord,
    pub color: Color,
}

/// Notification: some client's write succeeded. Delivered to every listener
/// registered at the moment of the write, including the writer's own session.
#[derive(Clone, Copy, PartialEq, Eq, Structural, Debug)]
pub struct CellUpdated {
    pub x: Coord,
    pub y: Coord,
    pub color: Color,
}

/// Request: a session finished its handshake and wants broadcasts.
#[derive(Clone, Copy, PartialEq, Eq, Structural, Debug)]
pub struct ListenerConnected {
    pub addr: ListenerId,
}

/// Request: a session ended, by any path, and must stop receiving broadcasts.
#[derive(Clone, Copy, PartialEq, Eq, Structural, Debug)]
pub struct ListenerDisconnected {
    pub addr: ListenerId,
}

/// One successful write's fan-out: the notification, and the listeners
/// registered at the moment the write was applied. The surrounding layer
/// delivers the notification to each listener, dropping (never blocking on)
/// any whose channel has failed.
#[derive(Clone, Debug)]
pub struct Broadcast {
    pub listeners: Vec<ListenerId>,
    pub update: CellUpdated,
}

/// The grid after one write request: the addressed cell holds the new color
/// if the address is within bounds, and nothing changes otherwise.
pub open spec fn apply_update(w: u16, h: u16, g: Seq<u8>, u: UpdateCell) -> Seq<u8> {
    if in_bounds(w, h, u.x, u.y) {
        g.update(cell_index(w, u.x, u.y), u.color)
    } else {
        g
    }
}

/// A whole grid of `n` never-written cells.
pub open spec fn zero_grid(n: int) -> Seq<u8> {
    Seq::new(n as nat, |i: int| 0u8)
}

/// Whether `(x, y)` addresses a cell of a `w` by `h` grid.
pub open spec fn in_bounds(w: u16, h: u16, x: u16, y: u16) -> bool {
    x < w && y < h
}

/// The row-major position of `(x, y)` in a grid of width `w`.
pub open spec fn cell_index(w: u16, x: u16, y: u16) -> int {
    y * w + x
}

/// The failure an out-of-bounds address earns, x checked first.
pub open spec fn oob_failure(w: u16, h: u16, x: u16, y: u16) -> OutOfBounds {
    if x >= w {
        OutOfBounds { axis: Axis::X, limit: w, value: x }
    } else {
        OutOfBounds { axis: Axis::Y, limit: h, value: y }
    }
}

/// A cell address within bounds lies within the grid, and its position fits
/// in a `usize` on any machine: both factors fit in 16 bits.
pub proof fn lemma_index_in_range(w: u16, h: u16, x: u16, y: u16)
    requires
        in_bounds(w, h, x, y),
    ensures
        0 <= cell_index(w, x, y) < w * h,
        w * h <= usize::MAX,
{
    assert(y * w + x < w * h) by (nonlinear_arith)
        requires
            x < w,
            y < h,
    ;
    assert(w * h <= 65535 * 65535) by (nonlinear_arith)
        requires
            w <= 65535,
            h <= 65535,
    ;
}

/// Row-major addressing is injective: distinct in-bounds cells have distinct
/// positions.
pub proof fn lemma_index_injective(w: u16, h: u16, x1: u16, y1: u16, x2: u16, y2: u16)
    requires
        in_bounds(w, h, x1, y1),
        in_bounds(w, h, x2, y2),
        cell_index(w, x1, y1) == cell_index(w, x2, y2),
    ensures
        x1 == x2 && y1 == y2,
{
    assert(x1 == x2 && y1 == y2) by (nonlinear_arith)
        requires
            x1 < w,
            x2 < w,
            y1 * w + x1 == y2 * w + x2,
    ;
}

/// The canvas store. Owns the grid exclusively: no other component holds a
/// mutable reference to cell memory, and all mutation goes through
/// [`Canvas::update_cell`].
#[derive(Debug)]
pub struct Canvas {
    config: CanvasConfig,
    data: Vec<Color>,
    listeners: Vec<ListenerId>,
}

impl Canvas {
    /// The grid as the sequence of its cells in row-major order.
    pub closed spec fn grid(&self) -> Seq<u8> {
        self.data@
    }

    /// The configuration the store was created with.
    pub closed spec fn spec_config(&self) -> CanvasConfig {
        self.config
    }

    /// The grid's width in cells.
    pub open spec fn spec_width(&self) -> u16 {
        self.spec_config().width
    }

    /// The grid's height in cells.
    pub open spec fn spec_height(&self) -> u16 {
        self.spec_config().height
    }

    /// The registered listeners, in registration order.
    pub closed spec fn listeners(&self) -> Seq<ListenerId> {
        self.listeners@
    }

    /// The registered listeners as a set: registration is membership only.
    pub open spec fn listener_set(&self) -> Set<ListenerId> {
        self.listeners().to_set()
    }

    /// The color of the cell at `(x, y)`.
    pub open spec fn cell(&self, x: u16, y: u16) -> u8 {
        self.grid()[cell_index(self.spec_width(), x, y)]
    }

    /// The store's invariant: the grid is exactly one cell per address, and
    /// no listener is registered twice.
    pub closed spec fn wf(&self) -> bool {
        &&& self.data@.len() == self.config.spec_size()
        &&& forall|i: int, j: int|
            0 <= i < j < self.listeners@.len() ==> self.listeners@[i] != self.listeners@[j]
    }

    /// The width, for layers that need to echo it.
    pub fn width(&self) -> (w: u16)
        ensures
            w == self.spec_width(),
    {
        self.config.width
    }

    /// The height, for layers that need to echo it.
    pub fn height(&self) -> (h: u16)
        ensures
            h == self.spec_height(),
    {
        self.config.height
    }

    /// The configuration, for the layers that run persistence.
    pub fn config(&self) -> (c: &CanvasConfig)
        ensures
            *c == self.spec_config(),
    {
        &self.config
    }

    /// Builds the store from an existing backing snapshot, exactly `W*H`
    /// bytes in the same row-major order as the grid. Any other length is
    /// rejected; missing or unreadable files are the calling layer's failure
    /// before the bytes ever reach this function.
    pub fn load(config: CanvasConfig, data: Vec<u8>) -> (r: Result<Canvas, SizeMismatch>)
        ensures
            r matches Ok(c) ==> {
                &&& c.wf()
                &&& c.spec_config() == config
                &&& c.grid() == data@
                &&& c.listeners() == Seq::<ListenerId>::empty()
            },
            r is Ok <==> data@.len() == config.spec_size(),
            r matches Err(e) ==> e.expected == config.spec_size() && e.actual == data@.len(),
    {
        let expected = config.size();
        if data.len() != expected {
            return Err(SizeMismatch { expected, actual: data.len() });
        }
        Ok(Canvas { config, data, listeners: Vec::new() })
    }

    /// Builds a fresh store with every cell zero, for a first start with no
    /// snapshot to load.
    pub fn new(config: CanvasConfig) -> (c: Canvas)
        ensures
            c.wf(),
            c.spec_config() == config,
            c.grid() == zero_grid(config.spec_size()),
            c.listeners() == Seq::<ListenerId>::empty(),
    {
        let n = config.size();
        let mut data: Vec<u8> = Vec::new();
        while data.len() < n
            invariant
                data@.len() <= n,
                forall|i: int| 0 <= i < data@.len() ==> data@[i] == 0u8,
            decreases n - data@.len(),
        {
            data.push(0);
        }
        proof {
            assert(data@ =~= zero_grid(config.spec_size()));
        }
        Canvas { config, data, listeners: Vec::new() }
    }

    /// Checks a cell address against the grid's bounds, x first, and names
    /// the offending axis, its limit and the rejected value on failure.
    pub fn assert_in_bounds(&self, x: Coord, y: Coord) -> (r: Result<(), OutOfBounds>)
        ensures
            r is Ok <==> in_bounds(self.spec_width(), self.spec_height(), x, y),
            r matches Err(e) ==> e == oob_failure(self.spec_width(), self.spec_height(), x, y),
    {
        if x >= self.config.width {
            return Err(OutOfBounds { axis: Axis::X, limit: self.config.width, value: x });
        }
        if y >= self.config.height {
            return Err(OutOfBounds { axis: Axis::Y, limit: self.config.height, value: y });
        }
        Ok(())
    }

    /// Reads one cell: the color most recently written there, or 0 if the
    /// cell was never written. Never mutates state; fails exactly on an
    /// out-of-bounds address.
    pub fn get_cell(&self, msg: GetCell) -> (r: Result<Color, OutOfBounds>)
        requires
            self.wf(),
        ensures
            r matches Ok(c) ==> in_bounds(self.spec_width(), self.spec_height(), msg.x, msg.y)
                && c == self.cell(msg.x, msg.y),
            r is Ok <==> in_bounds(self.spec_width(), self.spec_height(), msg.x, msg.y),
            r matches Err(e) ==> e == oob_failure(
                self.spec_width(),
                self.spec_height(),
                msg.x,
                msg.y,
            ),
    {
        match self.assert_in_bounds(msg.x, msg.y) {
            Err(e) => Err(e),
            Ok(()) => {
                proof {
                    lemma_index_in_range(self.config.width, self.config.height, msg.x, msg.y);
                }
                let idx = (msg.y as usize) * (self.config.width as usize) + (msg.x as usize);
                Ok(self.data[idx])
            },
        }
    }

    /// A complete, consistent copy of the grid, as served to an out-of-band
    /// full-state query.
    pub fn get_canvas(&self, _msg: GetCanvas) -> (r: Vec<u8>)
        requires
            self.wf(),
        ensures
            r@ == self.grid(),
    {
        clone_bytes(&self.data)
    }

    /// Writes one cell and fans the write out. On success the cell holds the
    /// new color, every other cell is untouched, and the returned broadcast
    /// carries exactly one `CellUpdated` notification addressed to every
    /// listener registered at this moment — the writer's own session
    /// included. On an out-of-bounds address nothing changes at all.
    pub fn update_cell(&mut self, msg: UpdateCell) -> (r: Result<Broadcast, OutOfBounds>)
        requires
            old(self).wf(),
        ensures
            final(self).wf(),
            final(self).spec_config() == old(self).spec_config(),
            final(self).listeners() == old(self).listeners(),
            final(self).grid() == apply_update(
                old(self).spec_width(),
                old(self).spec_height(),
                old(self).grid(),
                msg,
            ),
            r is Ok <==> in_bounds(old(self).spec_width(), old(self).spec_height(), msg.x, msg.y),
            r matches Ok(b) ==> {
                &&& b.update == (CellUpdated { x: msg.x, y: msg.y, color: msg.color })
                &&& b.listeners@ == old(self).listeners()
                &&& forall|l: ListenerId|
                    b.listeners@.contains(l) <==> old(self).listener_set().contains(l)
            },
            r matches Err(e) ==> *final(self) == *old(self) && e == oob_failure(
                old(self).spec_width(),
                old(self).spec_height(),
                msg.x,
                msg.y,
            ),
    {
        match self.assert_in_bounds(msg.x, msg.y) {
            Err(e) => Err(e),
            Ok(()) => {
                proof {
                    lemma_index_in_range(self.config.width, self.config.height, msg.x, msg.y);
                }
                let idx = (msg.y as usize) * (self.config.width as usize) + (msg.x as usize);
                self.data.set(idx, msg.color);
                let listeners = clone_listeners(&self.listeners);
                Ok(
                    Broadcast {
                        listeners,
                        update: CellUpdated { x: msg.x, y: msg.y, color: msg.color },
                    },
                )
            },
        }
    }

    /// Registers a listener. Idempotent: registering an already-registered
    /// listener changes nothing.
    pub fn listener_connected(&mut self, msg: ListenerConnected)
        requires
            old(self).wf(),
        ensures
            final(self).wf(),
            final(self).spec_config() == old(self).spec_config(),
            final(self).grid() == old(self).grid(),
            final(self).listener_set() == old(self).listener_set().insert(msg.addr),
            old(self).listener_set().contains(msg.addr) ==> final(self).listeners() == old(
                self,
            ).listeners(),
            !old(self).listener_set().contains(msg.addr) ==> final(self).listeners() == old(
                self,
            ).listeners().push(msg.addr),
    {
        if !contains_listener(&self.listeners, msg.addr) {
            self.listeners.push(msg.addr);
            proof {
                let before = old(self).listeners();
                let after = self.listeners@;
                assert forall|l: ListenerId|
                    after.contains(l) <==> (before.contains(l) || l == msg.addr) by {
                    if before.contains(l) {
                        let k = choose|k: int| 0 <= k < before.len() && before[k] == l;
                        assert(after[k] == l);
                    }
                    if l == msg.addr {
                        assert(after[before.len() as int] == l);
                    }
                    if after.contains(l) {
                        let k = choose|k: int| 0 <= k < after.len() && after[k] == l;
                        if k < before.len() {
                            assert(before[k] == l);
                        }
                    }
                };
            }
        }
        proof {
            assert(self.listener_set() =~= old(self).listener_set().insert(msg.addr));
        }
    }

    /// Unregisters a listener. Idempotent and total: safe to call for a
    /// listener that was never registered or was already removed, as cleanup
    /// on every session exit path requires.
    pub fn listener_disconnected(&mut self, msg: ListenerDisconnected)
        requires
            old(self).wf(),
        ensures
            final(self).wf(),
            final(self).spec_config() == old(self).spec_config(),
            final(self).grid() == old(self).grid(),
            final(self).listener_set() == old(self).listener_set().remove(msg.addr),
            !final(self).listeners().contains(msg.addr),
            forall|l: ListenerId|
                l != msg.addr ==> (final(self).listeners().contains(l) <==> old(
                    self,
                ).listeners().contains(l)),
    {
        match index_of_listener(&self.listeners, msg.addr) {
            None => {
                proof {
                    assert(self.listener_set() =~= old(self).listener_set().remove(msg.addr));
                }
            },
            Some(i) => {
                let ghost before = self.listeners@;
                self.listeners.remove(i);
                proof {
                    let after = self.listeners@;
                    before.remove_ensures(i as int);
                    assert(!after.contains(msg.addr)) by {
                        assert forall|j: int| 0 <= j < after.len() implies after[j] != msg.addr by {
                            if j < i {
                                assert(after[j] == before[j]);
                            } else {
                                assert(after[j] == before[j + 1]);
                                assert(before[j + 1] != before[i as int]);
                            }
                        }
                    };
                    assert forall|l: ListenerId|
                        l != msg.addr implies (after.contains(l) <==> before.contains(l)) by {
                        if before.contains(l) {
                            let k = choose|k: int| 0 <= k < before.len() && before[k] == l;
                            if k < i {
                                assert(after[k] == l);
                            } else {
                                assert(k != i);
                                assert(after[k - 1] == l);
                            }
                        }
                        if after.contains(l) {
                            let k = choose|k: int| 0 <= k < after.len() && after[k] == l;
                            if k < i {
                                assert(before[k] == l);
                            } else {
                                assert(before[k + 1] == l);
                            }
                        }
                    };
                    assert forall|j1: int, j2: int|
                        0 <= j1 < j2 < after.len() implies after[j1] != after[j2] by {
                        if j2 < i {
                            assert(after[j1] == before[j1] && after[j2] == before[j2]);
                        } else if j1 < i {
                            assert(after[j1] == before[j1] && after[j2] == before[j2 + 1]);
                        } else {
                            assert(after[j1] == before[j1 + 1] && after[j2] == before[j2 + 1]);
                        }
                    };
                    assert(self.listener_set() =~= old(self).listener_set().remove(msg.addr));
                }
            },
        }
    }

    /// The byte sequence a save must write: the raw grid, row-major, no
    /// header, no checksum — exactly what [`Canvas::load`] accepts back.
    pub fn save(&self) -> (r: Vec<u8>)
        requires
            self.wf(),
        ensures
            r@ == self.grid(),
            r@.len() == self.spec_config().spec_size(),
    {
        clone_bytes(&self.data)
    }
}

// ---------------------------------------------------------------------------
// Laws of the store
// ---------------------------------------------------------------------------
/// The grid after a whole sequence of write requests, applied in order.
pub open spec fn apply_updates(w: u16, h: u16, g: Seq<u8>, us: Seq<UpdateCell>) -> Seq<u8>
    decreases us.len(),
{
    if us.len() == 0 {
        g
    } else {
        apply_update(w, h, apply_updates(w, h, g, us.drop_last()), us.last())
    }
}

/// The color of the most recent write request addressed to `(x, y)`, if any.
pub open spec fn last_write(us: Seq<UpdateCell>, x: u16, y: u16) -> Option<Color>
    decreases us.len(),
{
    if us.len() == 0 {
        None
    } else if us.last().x == x && us.last().y == y {
        Some(us.last().color)
    } else {
        last_write(us.drop_last(), x, y)
    }
}

/// Applying write requests never changes the grid's size.
pub proof fn lemma_apply_updates_len(w: u16, h: u16, g: Seq<u8>, us: Seq<UpdateCell>)
    requires
        g.len() == w * h,
    ensures
        apply_updates(w, h, g, us).len() == g.len(),
    decreases us.len(),
{
    if us.len() > 0 {
        lemma_apply_updates_len(w, h, g, us.drop_last());
        let u = us.last();
        if in_bounds(w, h, u.x, u.y) {
            lemma_index_in_range(w, h, u.x, u.y);
        }
    }
}

/// Reads see the latest write: for every valid address, the grid reached by
/// applying any sequence of write requests to a fresh all-zero grid holds,
/// at that address, the color of the most recent prior successful write to
/// it — or 0 if no write ever addressed it.
pub proof fn lemma_get_reflects_latest_set(w: u16, h: u16, us: Seq<UpdateCell>, x: u16, y: u16)
    requires
        in_bounds(w, h, x, y),
    ensures
        apply_updates(w, h, zero_grid(w * h), us)[cell_index(w, x, y)] == (match last_write(
            us,
            x,
            y,
        ) {
            Some(c) => c,
            None => 0u8,
        }),
    decreases us.len(),
{
    lemma_index_in_range(w, h, x, y);
    lemma_apply_updates_len(w, h, zero_grid(w * h), us);
    if us.len() == 0 {
    } else {
        let rest = us.drop_last();
        let u = us.last();
        lemma_get_reflects_latest_set(w, h, rest, x, y);
        lemma_apply_updates_len(w, h, zero_grid(w * h), rest);
        if in_bounds(w, h, u.x, u.y) {
            lemma_index_in_range(w, h, u.x, u.y);
            if u.x == x && u.y == y {
            } else {
                assert(cell_index(w, u.x, u.y) != cell_index(w, x, y)) by {
                    if cell_index(w, u.x, u.y) == cell_index(w, x, y) {
                        lemma_index_injective(w, h, u.x, u.y, x, y);
                    }
                };
            }
        }
    }
}

/// Read-after-write: a successful write, immediately read back at the same
/// address, returns the color just written.
pub proof fn lemma_read_after_write(w: u16, h: u16, g: Seq<u8>, u: UpdateCell)
    requires
        in_bounds(w, h, u.x, u.y),
        g.len() == w * h,
    ensures
        apply_update(w, h, g, u)[cell_index(w, u.x, u.y)] == u.color,
{
    lemma_index_in_range(w, h, u.x, u.y);
}

/// The notification a successful write request fans out.
pub open spec fn update_notification(u: UpdateCell) -> CellUpdated {
    CellUpdated { x: u.x, y: u.y, color: u.color }
}

/// The notifications produced by a sequence of write requests, in the order
/// the writes were applied.
pub open spec fn broadcasts_of(w: u16, h: u16, us: Seq<UpdateCell>) -> Seq<CellUpdated>
    decreases us.len(),
{
    if us.len() == 0 {
        Seq::empty()
    } else if in_bounds(w, h, us.last().x, us.last().y) {
        broadcasts_of(w, h, us.drop_last()).push(update_notification(us.last()))
    } else {
        broadcasts_of(w, h, us.drop_last())
    }
}

/// Broadcasts keep the order of the writes: the notifications of a sequence
/// of write requests are exactly the successful writes, each one
/// notification, in the same order the writes were applied.
pub proof fn lemma_broadcasts_in_order(w: u16, h: u16, us: Seq<UpdateCell>)
    ensures
        broadcasts_of(w, h, us) == us.filter(
            (|u: UpdateCell| in_bounds(w, h, u.x, u.y)),
        ).map_values((|u: UpdateCell| update_notification(u))),
    decreases us.len(),
{
    reveal(Seq::filter);
    let pred = (|u: UpdateCell| in_bounds(w, h, u.x, u.y));
    let note = (|u: UpdateCell| update_notification(u));
    if us.len() == 0 {
        assert(broadcasts_of(w, h, us) =~= us.filter(pred).map_values(note));
    } else {
        lemma_broadcasts_in_order(w, h, us.drop_last());
        assert(broadcasts_of(w, h, us) =~= us.filter(pred).map_values(note));
    }
}

/// What a load accepts: exactly a snapshot of the configured size, which
/// becomes the grid unchanged.
pub open spec fn load_grid(config: CanvasConfig, data: Seq<u8>) -> Option<Seq<u8>> {
    if data.len() == config.spec_size() {
        Some(data)
    } else {
        None
    }
}

/// Save/load round trip: the snapshot bytes of a well-formed canvas — which
/// [`Canvas::save`] returns as exactly the grid — are accepted by a load
/// under the same configuration and reproduce the grid byte for byte.
pub proof fn lemma_save_load_round_trip(c: Canvas)
    requires
        c.wf(),
    ensures
        load_grid(c.spec_config(), c.grid()) == Some(c.grid()),
{
}

/// What well-formedness guarantees publicly: the grid holds exactly one
/// byte per cell of the configured dimensions.
pub proof fn lemma_wf_grid_size(c: Canvas)
    requires
        c.wf(),
    ensures
        c.grid().len() == c.spec_config().spec_size(),
{
}

/// A departed listener receives no further broadcasts, while every other
/// registered listener keeps receiving them: after removal, the listener set
/// — to which [`Canvas::update_cell`] addresses every notification — no
/// longer holds the departed listener and still holds every other one.
pub proof fn lemma_departed_listener(
    registered: Set<ListenerId>,
    departed: ListenerId,
    other: ListenerId,
)
    requires
        other != departed,
        registered.contains(other),
    ensures
        !registered.remove(departed).contains(departed),
        registered.remove(departed).contains(other),
{
}

/// The position of `id`'s first occurrence in `v`, if any.
fn index_of_listener(v: &Vec<ListenerId>, id: ListenerId) -> (r: Option<usize>)
    ensures
        r matches Some(i) ==> i < v@.len() && v@[i as int] == id && (forall|j: int|
            0 <= j < i ==> v@[j] != id),
        r is None ==> !v@.contains(id),
{
    let mut i: usize = 0;
    while i < v.len()
        invariant
            i <= v@.len(),
            forall|j: int| 0 <= j < i ==> v@[j] != id,
        decreases v@.len() - i,
    {
        if v[i] == id {
            return Some(i);
        }
        i = i + 1;
    }
    None
}

/// Whether `id` is among `v`'s elements.
fn contains_listener(v: &Vec<ListenerId>, id: ListenerId) -> (r: bool)
    ensures
        r == v@.contains(id),
{
    let mut i: usize = 0;
    while i < v.len()
        invariant
            i <= v@.len(),
            forall|j: int| 0 <= j < i ==> v@[j] != id,
        decreases v@.len() - i,
    {
        if v[i] == id {
            return true;
        }
        i = i + 1;
    }
    false
}

/// A copy of a listener vector, element for element.
fn clone_listeners(v: &Vec<ListenerId>) -> (r: Vec<ListenerId>)
    ensures
        r@ == v@,
{
    let mut r: Vec<ListenerId> = Vec::new();
    let mut i: usize = 0;
    while i < v.len()
        invariant
            i <= v@.len(),
            r@ == v@.subrange(0, i as int),
        decreases v@.len() - i,
    {
        r.push(v[i]);
        i = i + 1;
        proof {
            assert(r@ =~= v@.subrange(0, i as int));
        }
    }
    proof {
        assert(r@ =~= v@);
    }
    r
}

/// A copy of a byte vector, element for element.
fn clone_bytes(v: &Vec<u8>) -> (r: Vec<u8>)
    ensures
        r@ == v@,
{
    let mut r: Vec<u8> = Vec::new();
    let mut i: usize = 0;
    while i < v.len()
        invariant
            i <= v@.len(),
            r@ == v@.subrange(0, i as int),
        decreases v@.len() - i,
    {
        r.push(v[i]);
        i = i + 1;
        proof {
            assert(r@ =~= v@.subrange(0, i as int));
        }
    }
    proof {
        assert(r@ =~= v@);
    }
    r
}

} // verus!
