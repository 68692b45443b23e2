//! Tests of the arbitration layer: manager, handles, and the
//! mutual-exclusion primitive, against the deterministic mock bus.

use shared_bus::bus::{I2cRead, I2cWrite, I2cWriteRead};
use shared_bus::mock::{MockI2cBus, MockI2cError, MockOp};
use shared_bus::mutex::{BusMutex, CriticalSectionMutex};
use shared_bus::proxy::I2cBusManager;

type Manager = I2cBusManager<CriticalSectionMutex<MockI2cBus>, MockI2cBus>;

fn acked_bus() -> MockI2cBus {
    MockI2cBus::new(vec![0x20, 0x21])
}

#[test]
fn handle_is_transparent_for_write() {
    // The same calls, once directly on the mock, once through a handle.
    let mut direct = acked_bus();
    let r1 = direct.write(0x20, &[0x01, 0x02]);
    let r2 = direct.write(0x55, &[0x03]);

    let mut mgr = Manager::new(acked_bus());
    let handle = mgr.acquire();
    let p1 = handle.write(&mut mgr, 0x20, &[0x01, 0x02]);
    let p2 = handle.write(&mut mgr, 0x55, &[0x03]);
    let proxied = mgr.release();

    assert_eq!(r1, p1);
    assert_eq!(r2, p2);
    assert_eq!(r1, Ok(()));
    assert_eq!(r2, Err(MockI2cError::Nack));
    assert_eq!(direct.log, proxied.log);
}

#[test]
fn handle_is_transparent_for_read() {
    let mut direct = acked_bus();
    let mut direct_buf = vec![0u8; 4];
    let r = direct.read(0x21, &mut direct_buf);

    let mut mgr = Manager::new(acked_bus());
    let handle = mgr.acquire();
    let mut proxy_buf = vec![0u8; 4];
    let p = handle.read(&mut mgr, 0x21, &mut proxy_buf);
    let proxied = mgr.release();

    assert_eq!(r, p);
    assert_eq!(r, Ok(()));
    assert_eq!(direct_buf, proxy_buf);
    // The mock's read pattern is the address plus the byte position.
    assert_eq!(direct_buf, vec![0x21, 0x22, 0x23, 0x24]);
    assert_eq!(direct.log, proxied.log);
}

#[test]
fn handle_is_transparent_for_write_read() {
    let mut direct = acked_bus();
    let mut direct_buf = vec![0u8; 3];
    let r = direct.write_read(0x20, &[0x0F], &mut direct_buf);

    let mut mgr = Manager::new(acked_bus());
    let handle = mgr.acquire();
    let mut proxy_buf = vec![0u8; 3];
    let p = handle.write_read(&mut mgr, 0x20, &[0x0F], &mut proxy_buf);
    let proxied = mgr.release();

    assert_eq!(r, p);
    assert_eq!(r, Ok(()));
    assert_eq!(direct_buf, proxy_buf);
    assert_eq!(direct_buf, vec![0x20, 0x21, 0x22]);
    assert_eq!(direct.log, proxied.log);
}

#[test]
fn errors_pass_through_verbatim() {
    let mut mgr = Manager::new(acked_bus());
    let handle = mgr.acquire();
    let mut buf = vec![0xAAu8; 2];
    assert_eq!(handle.write(&mut mgr, 0x40, &[0x00]), Err(MockI2cError::Nack));
    assert_eq!(handle.read(&mut mgr, 0x41, &mut buf), Err(MockI2cError::Nack));
    assert_eq!(
        handle.write_read(&mut mgr, 0x42, &[0x00], &mut buf),
        Err(MockI2cError::Nack)
    );
    // A failed read leaves the buffer untouched.
    assert_eq!(buf, vec![0xAA, 0xAA]);
    // Failed transactions are still seen (and counted) by the bus.
    let bus = mgr.release();
    assert_eq!(bus.log.len(), 3);
}

#[test]
fn interleaved_handles_reach_the_bus_sequentially() {
    // Three handles interleave their operations; the bus must see exactly
    // one well-formed raw operation per call, in issue order, with no
    // overlap or duplication.
    let mut mgr = Manager::new(acked_bus());
    let h1 = mgr.acquire();
    let h2 = mgr.acquire();
    let h3 = mgr.acquire();

    let mut buf = vec![0u8; 2];
    h1.write(&mut mgr, 0x20, &[0x01]).unwrap();
    h2.read(&mut mgr, 0x21, &mut buf).unwrap();
    h3.write_read(&mut mgr, 0x20, &[0x02], &mut buf).unwrap();
    let _ = h2.write(&mut mgr, 0x30, &[0x03]);

    let bus = mgr.release();
    let expected = vec![
        MockOp::Write { addr: 0x20, data: vec![0x01] },
        MockOp::Read { addr: 0x21, len: 2 },
        MockOp::WriteRead { addr: 0x20, data: vec![0x02], len: 2 },
        MockOp::Write { addr: 0x30, data: vec![0x03] },
    ];
    assert_eq!(bus.log, expected);
}

#[test]
fn acquiring_handles_does_not_touch_the_bus() {
    let mut mgr = Manager::new(acked_bus());
    let _h1 = mgr.acquire();
    let _h2 = mgr.acquire();
    let _h3 = mgr.acquire();
    assert!(mgr.is_available());
    let bus = mgr.release();
    assert_eq!(bus.op_count(), 0);
    assert!(bus.log.is_empty());
}

#[test]
fn reentrant_lock_attempt_is_detected() {
    let mut mutex: CriticalSectionMutex<u32> = CriticalSectionMutex::create(42);
    assert!(mutex.try_enter());
    // A second acquisition while the section is open is the reentrancy
    // fault; it must fail rather than proceed as if safe.
    assert!(!mutex.try_enter());
    // The wrapped value is intact and the protocol still works.
    let v = mutex.take();
    assert_eq!(v, 42);
    mutex.put(v + 1);
    mutex.exit();
    assert!(mutex.try_enter());
    assert_eq!(mutex.take(), 43);
}

#[test]
fn empty_payloads_are_legal_transactions() {
    let mut mgr = Manager::new(acked_bus());
    let handle = mgr.acquire();
    let mut empty_buf: Vec<u8> = Vec::new();
    assert_eq!(handle.write(&mut mgr, 0x20, &[]), Ok(()));
    assert_eq!(handle.read(&mut mgr, 0x20, &mut empty_buf), Ok(()));
    assert!(empty_buf.is_empty());
    let bus = mgr.release();
    assert_eq!(
        bus.log,
        vec![
            MockOp::Write { addr: 0x20, data: vec![] },
            MockOp::Read { addr: 0x20, len: 0 },
        ]
    );
}

#[test]
fn manager_reports_availability() {
    let mgr = Manager::new(acked_bus());
    assert!(mgr.is_available());
}

#[test]
fn mutex_trait_roundtrip_preserves_value() {
    let mut mutex: CriticalSectionMutex<Vec<u8>> = BusMutex::create(vec![1, 2, 3]);
    assert!(mutex.at_rest());
    assert!(mutex.try_enter());
    let v = mutex.take();
    assert_eq!(v, vec![1, 2, 3]);
    mutex.put(v);
    mutex.exit();
    assert!(mutex.at_rest());
}
