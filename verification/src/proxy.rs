//! The bus manager and the proxy handles it hands out.
//!
//! [`I2cBusManager`] owns the one physical bus instance, stored behind a
//! [`BusMutex`]. [`I2cProxy`] is a cheap, copyable, stateless handle;
//! every one of its operations opens the manager's critical section, checks
//! the bus out, delegates to the bus's own operation, and restores
//! everything on the way out. The result and the bus's new state are exactly
//! those of invoking the bus directly — the handle is transparent.
//!
//! The manager keeps a ghost history of critical-section events. Its
//! invariant, [`sequential_access`], states the arbitration guarantee:
//! every raw-bus operation lies inside a critical section of its own, and
//! sections never nest or overlap, however many handles interleave their
//! calls.

use vstd::prelude::*;

use crate::bus::{BusOp, I2cBus, I2cRead, I2cWrite, I2cWriteRead};
use crate::mutex::BusMutex;

verus! {

/// One entry of the manager's ghost critical-section history.
pub enum CsEvent {
    /// The critical section was opened.
    Enter,
    /// A raw bus operation was performed.
    Bus(BusOp),
    /// The critical section was closed.
    Exit,
}

/// Whether, replaying `log` from outside any critical section, position `i`
/// is reached with a critical section open.
pub open spec fn inside_at(log: Seq<CsEvent>, i: int) -> bool
    decreases i,
{
    if i <= 0 {
        false
    } else {
        match log[i - 1] {
            CsEvent::Enter => true,
            CsEvent::Exit => false,
            CsEvent::Bus(_) => inside_at(log, i - 1),
        }
    }
}

/// Whether the event at position `i` of `log` respects the critical-section
/// discipline: sections never open twice, never close while closed, and
/// every raw-bus operation happens inside an open section.
pub open spec fn event_ok(log: Seq<CsEvent>, i: int) -> bool {
    match log[i] {
        CsEvent::Enter => !inside_at(log, i),
        CsEvent::Exit => inside_at(log, i),
        CsEvent::Bus(_) => inside_at(log, i),
    }
}

/// The arbitration guarantee over a whole history: raw-bus operations are
/// strictly sequential — each lies inside its own critical section, and no
/// two critical sections overlap or nest.
pub open spec fn sequential_access(log: Seq<CsEvent>) -> bool {
    forall|i: int| 0 <= i < log.len() ==> #[trigger] event_ok(log, i)
}

/// Whether the history ends outside any critical section.
pub open spec fn cs_closed(log: Seq<CsEvent>) -> bool {
    !inside_at(log, log.len() as int)
}

/// The complete history fragment of one handle operation: open the critical
/// section, perform exactly one raw bus operation, close the section.
pub open spec fn episode(op: BusOp) -> Seq<CsEvent> {
    seq![CsEvent::Enter, CsEvent::Bus(op), CsEvent::Exit]
}

proof fn lemma_inside_at_prefix(l1: Seq<CsEvent>, l2: Seq<CsEvent>, i: int)
    requires
        0 <= i <= l1.len(),
        l1.len() <= l2.len(),
        forall|j: int| 0 <= j < l1.len() ==> l1[j] == l2[j],
    ensures
        inside_at(l1, i) == inside_at(l2, i),
    decreases i,
{
    if i > 0 {
        lemma_inside_at_prefix(l1, l2, i - 1);
    }
}

/// Appending one complete handle operation to a well-formed history keeps
/// it well-formed: the new section opens from outside, contains exactly its
/// one bus operation, and closes again.
pub proof fn lemma_sequential_append_episode(log: Seq<CsEvent>, op: BusOp)
    requires
        sequential_access(log),
        cs_closed(log),
    ensures
        sequential_access(log + episode(op)),
        cs_closed(log + episode(op)),
{
    let l2 = log + episode(op);
    let n = log.len() as int;
    assert(l2[n] == CsEvent::Enter);
    assert(l2[n + 1] == CsEvent::Bus(op));
    assert(l2[n + 2] == CsEvent::Exit);
    lemma_inside_at_prefix(log, l2, n);
    assert forall|i: int| 0 <= i < l2.len() implies #[trigger] event_ok(l2, i) by {
        if i < n {
            assert(event_ok(log, i));
            lemma_inside_at_prefix(log, l2, i);
        } else {
            assert(inside_at(l2, n) == inside_at(log, n));
            assert(inside_at(l2, n + 1));
            assert(inside_at(l2, n + 2));
        }
    }
    assert(!inside_at(l2, n + 3));
}

/// The history produced by an arbitrary sequence of handle operations, in
/// the order the arbitration layer serialises them.
pub open spec fn history_of(ops: Seq<BusOp>) -> Seq<CsEvent>
    decreases ops.len(),
{
    if ops.len() == 0 {
        Seq::empty()
    } else {
        history_of(ops.drop_last()) + episode(ops.last())
    }
}

/// Each handle operation extends the history by exactly its own episode —
/// the form in which every proxy operation's `ensures` reports the
/// manager's log, so a caller can maintain `cs_log() == history_of(ops)`
/// across any sequence of operations.
pub proof fn lemma_history_extends(ops: Seq<BusOp>, op: BusOp)
    ensures
        history_of(ops.push(op)) == history_of(ops) + episode(op),
{
    assert(ops.push(op).drop_last() =~= ops);
}

/// However many handles exist and however their operations interleave, the
/// raw bus sees only sequential, non-overlapping invocations: the history
/// of any sequence of handle operations satisfies [`sequential_access`].
pub proof fn lemma_interleaving_sequential(ops: Seq<BusOp>)
    ensures
        sequential_access(history_of(ops)),
        cs_closed(history_of(ops)),
    decreases ops.len(),
{
    if ops.len() == 0 {
        assert(inside_at(Seq::<CsEvent>::empty(), 0) == false);
    } else {
        lemma_interleaving_sequential(ops.drop_last());
        lemma_sequential_append_episode(history_of(ops.drop_last()), ops.last());
    }
}

/// The Bus Manager: the owner of the one physical bus instance.
///
/// The manager is created once, after the bus peripheral is initialised,
/// and has to stay alive longer than all devices making use of the bus. Its
/// only mutable state is the bus value behind the mutual-exclusion
/// primitive; which primitive is used is the caller's choice through `M`.
pub struct I2cBusManager<M: BusMutex<T>, T> {
    mutex: M,
    cs_log: Ghost<Seq<CsEvent>>,
    bus_type: core::marker::PhantomData<T>,
}

/// A proxy through which one device driver uses the shared bus.
///
/// Handles are stateless and interchangeable; creating or destroying one
/// has no effect on the bus. A handle offers whichever of the write, read
/// and write-read operations the underlying bus type supports.
#[derive(Clone, Copy)]
pub struct I2cProxy;

impl<M: BusMutex<T>, T> I2cBusManager<M, T> {
    /// The managed bus value.
    pub closed spec fn bus(&self) -> T {
        self.mutex.stored().unwrap()
    }

    /// The ghost history of critical-section events this manager has seen.
    pub closed spec fn cs_log(&self) -> Seq<CsEvent> {
        self.cs_log@
    }

    /// The manager is at rest: no critical section is open and the bus
    /// value is in its slot.
    pub closed spec fn available(&self) -> bool {
        &&& !self.mutex.held()
        &&& self.mutex.stored() is Some
    }

    /// Well-formedness: the manager is at rest and its history satisfies
    /// the arbitration guarantee. Construction establishes this and every
    /// handle operation preserves it.
    pub closed spec fn wf(&self) -> bool {
        &&& self.available()
        &&& sequential_access(self.cs_log())
        &&& cs_closed(self.cs_log())
    }

    /// Create a new bus manager from the given peripheral, consuming it.
    pub fn new(i: T) -> (m: Self)
        ensures
            m.wf(),
            m.bus() == i,
            m.cs_log() == Seq::<CsEvent>::empty(),
    {
        let m = I2cBusManager {
            mutex: M::create(i),
            cs_log: Ghost(Seq::empty()),
            bus_type: core::marker::PhantomData,
        };
        proof {
            assert(inside_at(Seq::<CsEvent>::empty(), 0) == false);
        }
        m
    }

    /// Acquire a handle on this bus for one device.
    ///
    /// May be called any number of times; it touches neither the manager
    /// nor the bus, so acquiring a handle has no observable effect on the
    /// underlying bus.
    pub fn acquire(&self) -> (handle: I2cProxy) {
        I2cProxy
    }

    /// Whether the manager is at rest right now. Mirrors, at run time, the
    /// part of [`Self::wf`] that a caller outside the verified world can
    /// still check defensively before an operation.
    pub fn is_available(&self) -> (r: bool)
        ensures
            r == self.available(),
    {
        self.mutex.at_rest()
    }

    /// Give the bus peripheral back, consuming the manager.
    pub fn release(self) -> (bus: T)
        requires
            self.available(),
        ensures
            bus == self.bus(),
    {
        let mut m = self;
        let entered = m.mutex.try_enter();
        assert(entered);
        m.mutex.take()
    }
}

impl I2cProxy {
    /// Write `data` to the device at address `addr` over the shared bus.
    ///
    /// The operation runs inside the manager's critical section and is
    /// transparent: its result and the bus's new state are exactly those of
    /// invoking the bus directly.
    pub fn write<M: BusMutex<T>, T: I2cWrite>(
        &self,
        mgr: &mut I2cBusManager<M, T>,
        addr: u8,
        data: &[u8],
    ) -> (r: Result<(), T::Error>)
        requires
            old(mgr).wf(),
        ensures
            final(mgr).wf(),
            final(mgr).bus().ops() == old(mgr).bus().ops().push(
                BusOp::Write { addr, data: data@ },
            ),
            r == old(mgr).bus().write_result(addr, data@),
            final(mgr).cs_log() == old(mgr).cs_log() + episode(BusOp::Write { addr, data: data@ }),
    {
        let ghost op = BusOp::Write { addr, data: data@ };
        let ghost log0 = mgr.cs_log@;
        let entered = mgr.mutex.try_enter();
        assert(entered);
        let mut bus = mgr.mutex.take();
        let r = bus.write(addr, data);
        mgr.mutex.put(bus);
        mgr.mutex.exit();
        proof {
            mgr.cs_log@ = log0 + episode(op);
            lemma_sequential_append_episode(log0, op);
        }
        r
    }

    /// Read `buffer.len()` bytes from the device at address `addr` over the
    /// shared bus into `buffer`. On failure the buffer is left unchanged.
    ///
    /// Runs inside the manager's critical section; transparent in the same
    /// sense as [`Self::write`].
    pub fn read<M: BusMutex<T>, T: I2cRead>(
        &self,
        mgr: &mut I2cBusManager<M, T>,
        addr: u8,
        buffer: &mut Vec<u8>,
    ) -> (r: Result<(), T::Error>)
        requires
            old(mgr).wf(),
        ensures
            final(mgr).wf(),
            final(mgr).bus().ops() == old(mgr).bus().ops().push(
                BusOp::Read { addr, len: old(buffer)@.len() },
            ),
            match old(mgr).bus().read_result(addr, old(buffer)@.len()) {
                Ok(data) => {
                    &&& r is Ok
                    &&& final(buffer)@ == data
                    &&& final(buffer)@.len() == old(buffer)@.len()
                },
                Err(e) => {
                    &&& r == Result::<(), T::Error>::Err(e)
                    &&& final(buffer)@ == old(buffer)@
                },
            },
            final(mgr).cs_log() == old(mgr).cs_log() + episode(
                BusOp::Read { addr, len: old(buffer)@.len() },
            ),
    {
        let ghost op = BusOp::Read { addr, len: buffer@.len() };
        let ghost log0 = mgr.cs_log@;
        let entered = mgr.mutex.try_enter();
        assert(entered);
        let mut bus = mgr.mutex.take();
        let r = bus.read(addr, buffer);
        mgr.mutex.put(bus);
        mgr.mutex.exit();
        proof {
            mgr.cs_log@ = log0 + episode(op);
            lemma_sequential_append_episode(log0, op);
        }
        r
    }

    /// Write `data` to the device at address `addr`, then read
    /// `buffer.len()` bytes back, in one transaction over the shared bus.
    /// On failure the buffer is left unchanged.
    ///
    /// Runs inside the manager's critical section; transparent in the same
    /// sense as [`Self::write`].
    pub fn write_read<M: BusMutex<T>, T: I2cWriteRead>(
        &self,
        mgr: &mut I2cBusManager<M, T>,
        addr: u8,
        data: &[u8],
        buffer: &mut Vec<u8>,
    ) -> (r: Result<(), T::Error>)
        requires
            old(mgr).wf(),
        ensures
            final(mgr).wf(),
            final(mgr).bus().ops() == old(mgr).bus().ops().push(
                BusOp::WriteRead { addr, data: data@, len: old(buffer)@.len() },
            ),
            match old(mgr).bus().write_read_result(addr, data@, old(buffer)@.len()) {
                Ok(out) => {
                    &&& r is Ok
                    &&& final(buffer)@ == out
                    &&& final(buffer)@.len() == old(buffer)@.len()
                },
                Err(e) => {
                    &&& r == Result::<(), T::Error>::Err(e)
                    &&& final(buffer)@ == old(buffer)@
                },
            },
            final(mgr).cs_log() == old(mgr).cs_log() + episode(
                BusOp::WriteRead { addr, data: data@, len: old(buffer)@.len() },
            ),
    {
        let ghost op = BusOp::WriteRead { addr, data: data@, len: buffer@.len() };
        let ghost log0 = mgr.cs_log@;
        let entered = mgr.mutex.try_enter();
        assert(entered);
        let mut bus = mgr.mutex.take();
        let r = bus.write_read(addr, data, buffer);
        mgr.mutex.put(bus);
        mgr.mutex.exit();
        proof {
            mgr.cs_log@ = log0 + episode(op);
            lemma_sequential_append_episode(log0, op);
        }
        r
    }
}

} // verus!
