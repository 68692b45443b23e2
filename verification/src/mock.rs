//! Deterministic mock buses.
//!
//! On a host there is no bus peripheral, so the library ships two fully
//! verified stand-ins. [`MockI2cBus`] implements the transaction contract
//! of [`crate::bus`]: it acknowledges a configured set of addresses,
//! answers reads with a fixed byte pattern, and records every call it
//! receives in order. [`MockScanBus`] implements the low-level
//! [`crate::i2cdetect::ScanBus`] contract with immediately decisive status
//! flags. Both expose their state as public fields so a test can inspect
//! exactly what the bus saw.

use vstd::prelude::*;

use crate::bus::{BusOp, I2cBus, I2cRead, I2cWrite, I2cWriteRead};
use crate::i2cdetect::{phase_addr, ProbePhase, ScanBus, ScanStatus};

verus! {

/// The mock driver's transaction error: the addressed device did not
/// acknowledge.
#[derive(Clone, Copy, PartialEq, Eq, Debug)]
pub enum MockI2cError {
    Nack,
}

/// One call the mock transaction bus received, with the data it carried.
#[derive(PartialEq, Eq, Debug)]
pub enum MockOp {
    /// A write of `data` to `addr`.
    Write { addr: u8, data: Vec<u8> },
    /// A read of `len` bytes from `addr`.
    Read { addr: u8, len: usize },
    /// A combined write-then-read on `addr`.
    WriteRead { addr: u8, data: Vec<u8>, len: usize },
}

impl View for MockOp {
    type V = BusOp;

    open spec fn view(&self) -> BusOp {
        match self {
            MockOp::Write { addr, data } => BusOp::Write { addr: *addr, data: data@ },
            MockOp::Read { addr, len } => BusOp::Read { addr: *addr, len: *len as nat },
            MockOp::WriteRead { addr, data, len } => BusOp::WriteRead {
                addr: *addr,
                data: data@,
                len: *len as nat,
            },
        }
    }
}

/// Whether `v` holds `x`, by a linear search.
pub fn contains_addr(v: &Vec<u8>, x: u8) -> (found: bool)
    ensures
        found == v@.contains(x),
{
    let mut i: usize = 0;
    while i < v.len()
        invariant
            i <= v@.len(),
            forall|j: int| 0 <= j < i as int ==> v@[j] != x,
        decreases v@.len() - i as int,
    {
        if v[i] == x {
            assert(v@.contains(x)) by {
                assert(v@[i as int] == x);
            }
            return true;
        }
        i = i + 1;
    }
    assert(!v@.contains(x));
    false
}

/// The byte at position `i` of any read the mock answers from `addr`.
pub open spec fn mock_read_byte(addr: u8, i: int) -> u8 {
    (((addr as int) + (i % 256)) % 256) as u8
}

fn read_byte_at(addr: u8, i: usize) -> (b: u8)
    ensures
        b == mock_read_byte(addr, i as int),
{
    (((addr as usize) + (i % 256)) % 256) as u8
}

/// A deterministic mock transaction bus.
///
/// Writes and reads addressed to an acknowledging address succeed; all
/// others fail with [`MockI2cError::Nack`]. A read of `n` bytes from
/// `addr` delivers [`mock_read_byte`]`(addr, 0..n)`. Every call is
/// recorded in `log`, successful or not, in the order received.
pub struct MockI2cBus {
    /// The addresses that acknowledge.
    pub acked: Vec<u8>,
    /// Every call received, in order.
    pub log: Vec<MockOp>,
}

impl MockI2cBus {
    /// The set of acknowledging addresses, as a predicate.
    pub open spec fn spec_acks(&self, addr: u8) -> bool {
        self.acked@.contains(addr)
    }

    /// A fresh mock acknowledging exactly the given addresses, with an
    /// empty call log.
    pub fn new(acked: Vec<u8>) -> (m: Self)
        ensures
            m.acked@ == acked@,
            m.ops() == Seq::<BusOp>::empty(),
            m.log@.len() == 0,
    {
        let m = MockI2cBus { acked, log: Vec::new() };
        proof {
            assert(m.ops() =~= Seq::<BusOp>::empty());
        }
        m
    }

    /// How many calls the bus has received so far.
    pub fn op_count(&self) -> (n: usize)
        ensures
            n == self.ops().len(),
    {
        self.log.len()
    }
}

impl I2cBus for MockI2cBus {
    type Error = MockI2cError;

    open spec fn ops(&self) -> Seq<BusOp> {
        self.log@.map_values(|op: MockOp| op@)
    }
}

impl I2cWrite for MockI2cBus {
    open spec fn write_result(&self, addr: u8, data: Seq<u8>) -> Result<(), MockI2cError> {
        if self.spec_acks(addr) {
            Ok(())
        } else {
            Err(MockI2cError::Nack)
        }
    }

    fn write(&mut self, addr: u8, data: &[u8]) -> (r: Result<(), MockI2cError>)
        ensures
            final(self).acked@ == old(self).acked@,
    {
        let hit = contains_addr(&self.acked, addr);
        let mut copy: Vec<u8> = Vec::new();
        copy.extend_from_slice(data);
        proof {
            assert(copy@ =~= data@);
        }
        self.log.push(MockOp::Write { addr, data: copy });
        proof {
            assert(self.ops() =~= old(self).ops().push(BusOp::Write { addr, data: data@ }));
        }
        if hit {
            Ok(())
        } else {
            Err(MockI2cError::Nack)
        }
    }
}

impl I2cRead for MockI2cBus {
    open spec fn read_result(&self, addr: u8, len: nat) -> Result<Seq<u8>, MockI2cError> {
        if self.spec_acks(addr) {
            Ok(Seq::new(len, |i: int| mock_read_byte(addr, i)))
        } else {
            Err(MockI2cError::Nack)
        }
    }

    fn read(&mut self, addr: u8, buffer: &mut Vec<u8>) -> (r: Result<(), MockI2cError>)
        ensures
            final(self).acked@ == old(self).acked@,
    {
        let hit = contains_addr(&self.acked, addr);
        let n = buffer.len();
        self.log.push(MockOp::Read { addr, len: n });
        proof {
            assert(self.ops() =~= old(self).ops().push(BusOp::Read { addr, len: n as nat }));
        }
        if hit {
            let mut out: Vec<u8> = Vec::new();
            let mut i: usize = 0;
            while i < n
                invariant
                    i <= n,
                    out@.len() == i as int,
                    forall|j: int| 0 <= j < i as int ==> #[trigger] out@[j] == mock_read_byte(
                        addr,
                        j,
                    ),
                decreases n - i as int,
            {
                let b = read_byte_at(addr, i);
                out.push(b);
                i = i + 1;
            }
            *buffer = out;
            proof {
                assert(buffer@ =~= Seq::new(n as nat, |i: int| mock_read_byte(addr, i)));
            }
            Ok(())
        } else {
            Err(MockI2cError::Nack)
        }
    }
}

impl I2cWriteRead for MockI2cBus {
    open spec fn write_read_result(&self, addr: u8, data: Seq<u8>, len: nat) -> Result<
        Seq<u8>,
        MockI2cError,
    > {
        if self.spec_acks(addr) {
            Ok(Seq::new(len, |i: int| mock_read_byte(addr, i)))
        } else {
            Err(MockI2cError::Nack)
        }
    }

    fn write_read(&mut self, addr: u8, data: &[u8], buffer: &mut Vec<u8>) -> (r: Result<
        (),
        MockI2cError,
    >)
        ensures
            final(self).acked@ == old(self).acked@,
    {
        let hit = contains_addr(&self.acked, addr);
        let n = buffer.len();
        let mut copy: Vec<u8> = Vec::new();
        copy.extend_from_slice(data);
        proof {
            assert(copy@ =~= data@);
        }
        self.log.push(MockOp::WriteRead { addr, data: copy, len: n });
        proof {
            assert(self.ops() =~= old(self).ops().push(
                BusOp::WriteRead { addr, data: data@, len: n as nat },
            ));
        }
        if hit {
            let mut out: Vec<u8> = Vec::new();
            let mut i: usize = 0;
            while i < n
                invariant
                    i <= n,
                    out@.len() == i as int,
                    forall|j: int| 0 <= j < i as int ==> #[trigger] out@[j] == mock_read_byte(
                        addr,
                        j,
                    ),
                decreases n - i as int,
            {
                let b = read_byte_at(addr, i);
                out.push(b);
                i = i + 1;
            }
            *buffer = out;
            proof {
                assert(buffer@ =~= Seq::new(n as nat, |i: int| mock_read_byte(addr, i)));
            }
            Ok(())
        } else {
            Err(MockI2cError::Nack)
        }
    }
}

/// A deterministic mock of the low-level scan interface.
///
/// Its status flags are immediately decisive: an addressed probe reads as
/// acknowledged or aborted on the first poll, and a written data byte
/// completes on the first poll, so its `poll_bound` is always zero.
pub struct MockScanBus {
    /// The addresses that acknowledge.
    pub acked: Vec<u8>,
    /// Where the bus is within the probe transaction.
    pub probe_phase: ProbePhase,
    /// Every address a start condition was issued for, in order.
    pub probed: Vec<u8>,
    /// Every data byte written, with the address it went to, in order.
    pub written: Vec<(u8, u8)>,
}

impl MockScanBus {
    /// A fresh, idle mock acknowledging exactly the given addresses.
    pub fn new(acked: Vec<u8>) -> (m: Self)
        ensures
            m.phase() == ProbePhase::Idle,
            m.probes() == Seq::<u8>::empty(),
            m.cleanup_writes() == Seq::<(u8, u8)>::empty(),
            forall|a: u8| #[trigger] m.acks(a) == acked@.contains(a),
    {
        MockScanBus {
            acked,
            probe_phase: ProbePhase::Idle,
            probed: Vec::new(),
            written: Vec::new(),
        }
    }
}

impl ScanBus for MockScanBus {
    open spec fn acks(&self, addr: u8) -> bool {
        self.acked@.contains(addr)
    }

    open spec fn phase(&self) -> ProbePhase {
        self.probe_phase
    }

    open spec fn probes(&self) -> Seq<u8> {
        self.probed@
    }

    open spec fn cleanup_writes(&self) -> Seq<(u8, u8)> {
        self.written@
    }

    open spec fn poll_bound(&self) -> nat {
        0
    }

    fn start_probe(&mut self, addr: u8) {
        self.probe_phase = ProbePhase::Addressed { addr };
        self.probed.push(addr);
    }

    fn read_status(&mut self) -> (st: ScanStatus) {
        match self.probe_phase {
            ProbePhase::Idle => ScanStatus { busy: false, txis: false, tc: false },
            ProbePhase::Addressed { addr } => {
                if contains_addr(&self.acked, addr) {
                    ScanStatus { busy: true, txis: true, tc: false }
                } else {
                    self.probe_phase = ProbePhase::Idle;
                    ScanStatus { busy: false, txis: false, tc: false }
                }
            },
            ProbePhase::Data { addr: _ } => {
                self.probe_phase = ProbePhase::Idle;
                ScanStatus { busy: false, txis: false, tc: true }
            },
        }
    }

    fn write_data(&mut self, b: u8) {
        if let ProbePhase::Addressed { addr } = self.probe_phase {
            self.probe_phase = ProbePhase::Data { addr };
            self.written.push((addr, b));
            proof {
                assert(phase_addr(old(self).phase()) == addr);
            }
        } else {
            proof {
                assert(false);
            }
        }
    }

    fn recovery_delay(&mut self) {
    }
}

} // verus!
