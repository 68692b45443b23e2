//! A shared-bus arbitration layer for a two-wire serial (I2C) bus, together
//! with a bus address scanner.
//!
//! One physical bus peripheral is owned by a [`proxy::I2cBusManager`], which
//! hands out any number of lightweight [`proxy::I2cProxy`] handles. Every
//! operation performed through a handle runs inside a critical section of the
//! manager's mutual-exclusion primitive, so the raw bus only ever sees
//! sequential, non-overlapping transactions. The scanner probes every legal
//! bus address with raw start-condition signalling and classifies it as
//! present, absent, or reserved.

pub mod bus;
pub mod i2cdetect;
pub mod mock;
pub mod mutex;
pub mod proxy;
