//! The transaction contract that device drivers expect from an I2C bus.
//!
//! The capability set is split into three narrow traits — [`I2cWrite`],
//! [`I2cRead`] and [`I2cWriteRead`] — over a common base [`I2cBus`], so a
//! handle can offer exactly the subset of operations its underlying bus
//! supports. Each trait models the bus by the ghost log of raw operations it
//! has performed ([`BusOp`]) and by a result function of the pre-call state,
//! which makes every operation's outcome fully determined by the state the
//! bus was in when the operation started.

use vstd::prelude::*;

verus! {

/// One completed raw operation of a bus, as recorded in its ghost log.
pub enum BusOp {
    /// A write of `data` to the device at `addr`.
    Write { addr: u8, data: Seq<u8> },
    /// A read of `len` bytes from the device at `addr`.
    Read { addr: u8, len: nat },
    /// A combined write-then-read transaction on the device at `addr`.
    WriteRead { addr: u8, data: Seq<u8>, len: nat },
}

/// The base capability: a bus has a driver-specific error type and a ghost
/// log of the raw operations it has performed, in order.
pub trait I2cBus: Sized {
    /// The driver-specific transaction error, passed through verbatim to
    /// callers.
    type Error;

    /// The raw operations this bus has performed, oldest first. Every
    /// attempted transaction is recorded, whether it succeeded or failed.
    spec fn ops(&self) -> Seq<BusOp>;
}

/// The write capability: a one-shot write transaction to one device.
pub trait I2cWrite: I2cBus {
    /// The outcome a write of `data` to `addr` has, as a function of the
    /// state the bus is in when the write starts.
    spec fn write_result(&self, addr: u8, data: Seq<u8>) -> Result<(), Self::Error>;

    /// Write `data` to the device at address `addr`.
    fn write(&mut self, addr: u8, data: &[u8]) -> (r: Result<(), Self::Error>)
        ensures
            final(self).ops() == old(self).ops().push(BusOp::Write { addr, data: data@ }),
            r == old(self).write_result(addr, data@),
    ;
}

/// The read capability: a one-shot read transaction from one device.
pub trait I2cRead: I2cBus {
    /// The outcome a read of `len` bytes from `addr` has: either the bytes
    /// delivered, or the driver's error. A successful result has exactly
    /// `len` bytes.
    spec fn read_result(&self, addr: u8, len: nat) -> Result<Seq<u8>, Self::Error>;

    /// Read `buffer.len()` bytes from the device at address `addr` into
    /// `buffer`. On failure the buffer is left unchanged.
    fn read(&mut self, addr: u8, buffer: &mut Vec<u8>) -> (r: Result<(), Self::Error>)
        ensures
            final(self).ops() == old(self).ops().push(
                BusOp::Read { addr, len: old(buffer)@.len() },
            ),
            match old(self).read_result(addr, old(buffer)@.len()) {
                Ok(data) => {
                    &&& r is Ok
                    &&& final(buffer)@ == data
                    &&& final(buffer)@.len() == old(buffer)@.len()
                },
                Err(e) => {
                    &&& r == Result::<(), Self::Error>::Err(e)
                    &&& final(buffer)@ == old(buffer)@
                },
            },
    ;
}

/// The combined capability: a write followed by a read, in one transaction.
pub trait I2cWriteRead: I2cBus {
    /// The outcome a write of `data` followed by a read of `len` bytes has,
    /// as a function of the pre-call state. A successful result has exactly
    /// `len` bytes.
    spec fn write_read_result(&self, addr: u8, data: Seq<u8>, len: nat) -> Result<
        Seq<u8>,
        Self::Error,
    >;

    /// Write `data` to the device at address `addr`, then, without releasing
    /// the bus, read `buffer.len()` bytes back into `buffer`. On failure the
    /// buffer is left unchanged.
    fn write_read(&mut self, addr: u8, data: &[u8], buffer: &mut Vec<u8>) -> (r: Result<
        (),
        Self::Error,
    >)
        ensures
            final(self).ops() == old(self).ops().push(
                BusOp::WriteRead { addr, data: data@, len: old(buffer)@.len() },
            ),
            match old(self).write_read_result(addr, data@, old(buffer)@.len()) {
                Ok(data) => {
                    &&& r is Ok
                    &&& final(buffer)@ == data
                    &&& final(buffer)@.len() == old(buffer)@.len()
                },
                Err(e) => {
                    &&& r == Result::<(), Self::Error>::Err(e)
                    &&& final(buffer)@ == old(buffer)@
                },
            },
    ;
}

} // verus!
