//! The bus address scanner.
//!
//! A one-shot diagnostic over direct, low-level access to the bus
//! peripheral: for every candidate address it issues a start condition for
//! a one-byte write transaction, then polls the status flags. If the busy
//! flag clears before anything else, the address did not respond; if the
//! transmit-ready flag rises, the address acknowledged, and the scanner
//! writes a single dummy byte and waits for transfer-complete so the bus is
//! not left in a half-finished transaction. Addresses 0x00–0x03 are
//! reserved by the protocol and are never probed.
//!
//! The protocol itself puts no bound on how long the busy flag may stay
//! set; a wedged peripheral would stall the scan. The [`ScanBus`] model
//! makes the (finite, but arbitrarily large) number of polls until the
//! status becomes decisive explicit as the ghost measure `poll_bound`,
//! which is what lets the polling loops be verified at all.

use vstd::prelude::*;

verus! {

/// Where the bus is within one probe transaction.
#[derive(Clone, Copy)]
pub enum ProbePhase {
    /// No transaction is open.
    Idle,
    /// A start condition addressed to `addr` has been issued and the
    /// outcome is not yet settled.
    Addressed { addr: u8 },
    /// The dummy data byte has been written to `addr`; the transfer is
    /// completing.
    Data { addr: u8 },
}

/// The address a non-idle phase is addressed to.
pub open spec fn phase_addr(p: ProbePhase) -> u8 {
    match p {
        ProbePhase::Idle => 0,
        ProbePhase::Addressed { addr } => addr,
        ProbePhase::Data { addr } => addr,
    }
}

/// One read of the bus peripheral's status flags.
#[derive(Clone, Copy)]
pub struct ScanStatus {
    /// A transaction is in progress.
    pub busy: bool,
    /// The peripheral acknowledged and the transmitter is ready for a data
    /// byte.
    pub txis: bool,
    /// The transfer has completed.
    pub tc: bool,
}

/// Direct register-style access to the bus peripheral, as the scanner
/// needs it: issuing a start condition, reading the status flags, and
/// writing one data byte.
///
/// `acks` is the fixed fact of which addresses acknowledge; `probes` and
/// `cleanup_writes` are ghost logs of every start condition issued and
/// every data byte written. `poll_bound` bounds the polls remaining before
/// the status flags become decisive for the current phase.
pub trait ScanBus: Sized {
    /// Whether a device at `addr` acknowledges its address.
    spec fn acks(&self, addr: u8) -> bool;

    /// Where the bus is within the probe transaction.
    spec fn phase(&self) -> ProbePhase;

    /// Every address a start condition has been issued for, in order.
    spec fn probes(&self) -> Seq<u8>;

    /// Every data byte written, with the address it went to, in order.
    spec fn cleanup_writes(&self) -> Seq<(u8, u8)>;

    /// Ghost bound on the polls remaining before the status becomes
    /// decisive for the current phase.
    spec fn poll_bound(&self) -> nat;

    /// Issue a start condition for a one-byte, non-auto-ending write
    /// transaction addressed to `addr`.
    fn start_probe(&mut self, addr: u8)
        requires
            old(self).phase() == ProbePhase::Idle,
        ensures
            final(self).phase() == (ProbePhase::Addressed { addr }),
            final(self).probes() == old(self).probes().push(addr),
            final(self).cleanup_writes() == old(self).cleanup_writes(),
            forall|a: u8| #[trigger] final(self).acks(a) == old(self).acks(a),
    ;

    /// Read the status flags once.
    ///
    /// While a probe is addressed, a cleared busy flag settles the probe as
    /// not acknowledged, and a raised transmit-ready flag settles it as
    /// acknowledged; any other reading leaves the probe open and consumes
    /// one unit of the poll bound. After the data byte, a raised
    /// transfer-complete flag closes the transaction.
    fn read_status(&mut self) -> (st: ScanStatus)
        ensures
            final(self).probes() == old(self).probes(),
            final(self).cleanup_writes() == old(self).cleanup_writes(),
            forall|a: u8| #[trigger] final(self).acks(a) == old(self).acks(a),
            match old(self).phase() {
                ProbePhase::Idle => final(self).phase() == ProbePhase::Idle,
                ProbePhase::Addressed { addr } => {
                    &&& (!st.busy ==> !old(self).acks(addr) && final(self).phase()
                        == ProbePhase::Idle)
                    &&& (st.txis ==> old(self).acks(addr) && st.busy && final(self).phase()
                        == old(self).phase())
                    &&& (st.busy && !st.txis ==> final(self).phase() == old(self).phase()
                        && final(self).poll_bound() < old(self).poll_bound())
                },
                ProbePhase::Data { addr } => {
                    &&& (st.tc ==> final(self).phase() == ProbePhase::Idle)
                    &&& (!st.tc ==> final(self).phase() == old(self).phase()
                        && final(self).poll_bound() < old(self).poll_bound())
                },
            },
    ;

    /// Write one data byte into the open, acknowledged transaction.
    fn write_data(&mut self, b: u8)
        requires
            old(self).phase() matches ProbePhase::Addressed { addr } && old(self).acks(addr),
        ensures
            final(self).phase() == (ProbePhase::Data { addr: phase_addr(old(self).phase()) }),
            final(self).probes() == old(self).probes(),
            final(self).cleanup_writes() == old(self).cleanup_writes().push(
                (phase_addr(old(self).phase()), b),
            ),
            forall|a: u8| #[trigger] final(self).acks(a) == old(self).acks(a),
    ;

    /// Wait out the fixed inter-probe bus recovery time. Has no observable
    /// effect on the bus.
    fn recovery_delay(&mut self)
        ensures
            final(self).phase() == old(self).phase(),
            final(self).probes() == old(self).probes(),
            final(self).cleanup_writes() == old(self).cleanup_writes(),
            forall|a: u8| #[trigger] final(self).acks(a) == old(self).acks(a),
            final(self).poll_bound() == old(self).poll_bound(),
    ;
}

/// The classification of one bus address after a scan.
#[derive(Clone, Copy, PartialEq, Eq, Debug)]
pub enum ScanOutcome {
    /// The address acknowledged.
    Present,
    /// The address did not respond.
    Absent,
    /// The address is reserved by the protocol and was never probed.
    Skipped,
}

/// The first probed address.
pub open spec fn first_probed() -> int {
    0x04
}

/// One past the last probed address.
pub open spec fn addr_limit() -> int {
    0x78
}

/// The classification a scan of `b` owes address `i`.
pub open spec fn outcome_at<B: ScanBus>(b: B, i: int) -> ScanOutcome {
    if i < first_probed() {
        ScanOutcome::Skipped
    } else if b.acks(i as u8) {
        ScanOutcome::Present
    } else {
        ScanOutcome::Absent
    }
}

/// The start conditions a scan issues for addresses below `n`: one per
/// non-reserved address, in ascending order.
pub open spec fn probes_upto(n: int) -> Seq<u8>
    decreases n,
{
    if n <= first_probed() {
        Seq::empty()
    } else {
        probes_upto(n - 1).push((n - 1) as u8)
    }
}

/// The dummy cleanup writes a scan of `b` performs for addresses below
/// `n`: exactly one zero byte per acknowledging non-reserved address, in
/// ascending order.
pub open spec fn cleanups_upto<B: ScanBus>(b: B, n: int) -> Seq<(u8, u8)>
    decreases n,
{
    if n <= first_probed() {
        Seq::empty()
    } else if b.acks((n - 1) as u8) {
        cleanups_upto(b, n - 1).push(((n - 1) as u8, 0u8))
    } else {
        cleanups_upto(b, n - 1)
    }
}

/// How many of the cleanup writes in `s` went to address `a`.
pub open spec fn cleanups_to(s: Seq<(u8, u8)>, a: u8) -> nat
    decreases s.len(),
{
    if s.len() == 0 {
        0
    } else {
        cleanups_to(s.drop_last(), a) + (if s.last().0 == a {
            1nat
        } else {
            0nat
        })
    }
}

proof fn lemma_cleanups_upto_count<B: ScanBus>(b: B, a: u8, n: int)
    requires
        n <= 256,
    ensures
        cleanups_to(cleanups_upto(b, n), a) == (if first_probed() <= a as int && (a as int) < n
            && b.acks(a) {
            1nat
        } else {
            0nat
        }),
        forall|j: int|
            0 <= j < cleanups_upto(b, n).len() ==> (#[trigger] cleanups_upto(b, n)[j]).1 == 0,
    decreases n,
{
    if n > first_probed() {
        lemma_cleanups_upto_count(b, a, n - 1);
        if b.acks((n - 1) as u8) {
            assert(cleanups_upto(b, n).drop_last() =~= cleanups_upto(b, n - 1));
            assert(cleanups_upto(b, n).last() == ((n - 1) as u8, 0u8));
        }
    }
}

/// A scan issues exactly one dummy cleanup write — a single zero byte —
/// per acknowledging probed address, and none for any address that does
/// not acknowledge or is reserved.
pub proof fn lemma_one_cleanup_per_ack<B: ScanBus>(b: B, a: u8)
    ensures
        cleanups_to(cleanups_upto(b, addr_limit()), a) == (if first_probed() <= a as int && (
        a as int) < addr_limit() && b.acks(a) {
            1nat
        } else {
            0nat
        }),
        forall|j: int|
            0 <= j < cleanups_upto(b, addr_limit()).len() ==> (#[trigger] cleanups_upto(
                b,
                addr_limit(),
            )[j]).1 == 0,
{
    lemma_cleanups_upto_count(b, a, addr_limit());
}

/// Probe one address: issue the start condition, poll until the outcome
/// settles, and, if the address acknowledged, write the dummy cleanup byte
/// and wait for transfer-complete so the bus is left idle.
fn probe_address<B: ScanBus>(bus: &mut B, addr: u8) -> (present: bool)
    requires
        old(bus).phase() == ProbePhase::Idle,
    ensures
        final(bus).phase() == ProbePhase::Idle,
        forall|a: u8| #[trigger] final(bus).acks(a) == old(bus).acks(a),
        present == old(bus).acks(addr),
        final(bus).probes() == old(bus).probes().push(addr),
        final(bus).cleanup_writes() == (if old(bus).acks(addr) {
            old(bus).cleanup_writes().push((addr, 0u8))
        } else {
            old(bus).cleanup_writes()
        }),
{
    let ghost b0 = *bus;
    bus.start_probe(addr);
    let mut present: bool = false;
    loop
        invariant_except_break
            bus.phase() == (ProbePhase::Addressed { addr }),
            forall|a: u8| #[trigger] bus.acks(a) == b0.acks(a),
            bus.probes() == b0.probes().push(addr),
            bus.cleanup_writes() == b0.cleanup_writes(),
        ensures
            bus.phase() == ProbePhase::Idle,
            forall|a: u8| #[trigger] bus.acks(a) == b0.acks(a),
            present == b0.acks(addr),
            bus.probes() == b0.probes().push(addr),
            bus.cleanup_writes() == (if b0.acks(addr) {
                b0.cleanup_writes().push((addr, 0u8))
            } else {
                b0.cleanup_writes()
            }),
        decreases bus.poll_bound(),
    {
        let st = bus.read_status();
        if !st.busy {
            // The busy flag cleared before an acknowledgment: not found.
            present = false;
            break;
        }
        if st.txis {
            // The address acknowledged: found. Complete the transaction
            // with a dummy byte so the next probe starts from a clean bus.
            bus.write_data(0x00);
            loop
                invariant_except_break
                    bus.phase() == (ProbePhase::Data { addr }),
                    forall|a: u8| #[trigger] bus.acks(a) == b0.acks(a),
                    bus.probes() == b0.probes().push(addr),
                    bus.cleanup_writes() == b0.cleanup_writes().push((addr, 0u8)),
                ensures
                    bus.phase() == ProbePhase::Idle,
                    forall|a: u8| #[trigger] bus.acks(a) == b0.acks(a),
                    bus.probes() == b0.probes().push(addr),
                    bus.cleanup_writes() == b0.cleanup_writes().push((addr, 0u8)),
                decreases bus.poll_bound(),
            {
                let st2 = bus.read_status();
                if st2.tc {
                    break;
                }
            }
            present = true;
            break;
        }
    }
    present
}

/// Scan the whole address space.
///
/// Every address 0x00–0x77 resolves to a classification: 0x00–0x03 are
/// reserved and reported as skipped without any bus activity; each other
/// address is probed once and reported present exactly when it
/// acknowledges. Each acknowledging address receives exactly one dummy
/// cleanup write of a zero byte, and non-acknowledging addresses receive
/// none. A fixed recovery delay follows each probe.
pub fn scan<B: ScanBus>(bus: &mut B) -> (report: Vec<ScanOutcome>)
    requires
        old(bus).phase() == ProbePhase::Idle,
    ensures
        final(bus).phase() == ProbePhase::Idle,
        forall|a: u8| #[trigger] final(bus).acks(a) == old(bus).acks(a),
        report@.len() == addr_limit(),
        forall|i: int| 0 <= i < addr_limit() ==> #[trigger] report@[i] == outcome_at(*old(bus), i),
        final(bus).probes() == old(bus).probes() + probes_upto(addr_limit()),
        final(bus).cleanup_writes() == old(bus).cleanup_writes() + cleanups_upto(
            *old(bus),
            addr_limit(),
        ),
{
    let ghost b0 = *bus;
    let mut report: Vec<ScanOutcome> = Vec::new();
    let mut addr: u8 = 0;
    while addr < 0x78
        invariant
            addr <= 0x78,
            bus.phase() == ProbePhase::Idle,
            forall|a: u8| #[trigger] bus.acks(a) == b0.acks(a),
            report@.len() == addr as int,
            forall|i: int| 0 <= i < addr as int ==> #[trigger] report@[i] == outcome_at(b0, i),
            bus.probes() == b0.probes() + probes_upto(addr as int),
            bus.cleanup_writes() == b0.cleanup_writes() + cleanups_upto(b0, addr as int),
        decreases 0x78 - addr as int,
    {
        if addr < 0x04 {
            // Reserved by the protocol: report without any bus activity.
            report.push(ScanOutcome::Skipped);
        } else {
            let ghost pre = *bus;
            let present = probe_address(bus, addr);
            if present {
                report.push(ScanOutcome::Present);
            } else {
                report.push(ScanOutcome::Absent);
            }
            bus.recovery_delay();
            proof {
                assert(pre.acks(addr) == b0.acks(addr));
                assert(bus.probes() =~= b0.probes() + probes_upto(addr as int + 1));
                assert(bus.cleanup_writes() =~= b0.cleanup_writes() + cleanups_upto(
                    b0,
                    addr as int + 1,
                ));
            }
        }
        addr = addr + 1;
    }
    report
}

/// Group a scan report into display rows of sixteen addresses: seven full
/// rows and a final half row, 120 entries in all. The grouping is purely a
/// presentation convention.
pub fn scan_rows(report: &Vec<ScanOutcome>) -> (rows: Vec<Vec<ScanOutcome>>)
    requires
        report@.len() == addr_limit(),
    ensures
        rows@.len() == 8,
        forall|r: int| 0 <= r < 7 ==> #[trigger] rows@[r]@.len() == 16,
        rows@[7]@.len() == 8,
        forall|r: int, c: int|
            0 <= r < 8 && 0 <= c < rows@[r]@.len() ==> #[trigger] rows@[r]@[c] == report@[16 * r
                + c],
{
    let mut rows: Vec<Vec<ScanOutcome>> = Vec::new();
    let mut r: usize = 0;
    while r < 8
        invariant
            r <= 8,
            report@.len() == addr_limit(),
            rows@.len() == r as int,
            forall|k: int| 0 <= k < r as int && k < 7 ==> #[trigger] rows@[k]@.len() == 16,
            r as int == 8 ==> rows@[7]@.len() == 8,
            forall|k: int, c: int|
                0 <= k < r as int && 0 <= c < rows@[k]@.len() ==> #[trigger] rows@[k]@[c]
                    == report@[16 * k + c],
        decreases 8 - r as int,
    {
        let width: usize = if r < 7 {
            16
        } else {
            8
        };
        let mut row: Vec<ScanOutcome> = Vec::new();
        let mut c: usize = 0;
        while c < width
            invariant
                c <= width,
                r < 8,
                width == (if r < 7 {
                    16int
                } else {
                    8int
                }),
                report@.len() == addr_limit(),
                row@.len() == c as int,
                forall|j: int| 0 <= j < c as int ==> #[trigger] row@[j] == report@[16 * r as int
                    + j],
            decreases width - c as int,
        {
            row.push(report[16 * r + c]);
            c = c + 1;
        }
        rows.push(row);
        r = r + 1;
    }
    rows
}

} // verus!
