//! Tests of the address scanner against the deterministic mock of the
//! low-level bus interface.

use shared_bus::i2cdetect::{scan, scan_rows, ScanOutcome};
use shared_bus::mock::MockScanBus;

#[test]
fn scanner_classifies_every_address() {
    let mut bus = MockScanBus::new(vec![0x39, 0x38]);
    let report = scan(&mut bus);
    assert_eq!(report.len(), 120);
    for (i, outcome) in report.iter().enumerate() {
        let expected = if i < 0x04 {
            ScanOutcome::Skipped
        } else if i == 0x38 || i == 0x39 {
            ScanOutcome::Present
        } else {
            ScanOutcome::Absent
        };
        assert_eq!(*outcome, expected);
    }
}

#[test]
fn scanner_rows_group_sixteen_columns() {
    let mut bus = MockScanBus::new(vec![0x39, 0x38]);
    let report = scan(&mut bus);
    let rows = scan_rows(&report);
    assert_eq!(rows.len(), 8);
    for (r, row) in rows.iter().enumerate() {
        let width = if r < 7 { 16 } else { 8 };
        assert_eq!(row.len(), width);
        for (c, outcome) in row.iter().enumerate() {
            assert_eq!(*outcome, report[16 * r + c]);
        }
    }
}

#[test]
fn scanner_probes_every_legal_address_once() {
    let mut bus = MockScanBus::new(vec![0x39, 0x38]);
    scan(&mut bus);
    // Reserved addresses see no bus activity at all; every other address
    // gets exactly one start condition, in ascending order.
    assert_eq!(bus.probed.len(), 0x78 - 0x04);
    for (i, addr) in bus.probed.iter().enumerate() {
        assert_eq!(*addr as usize, 0x04 + i);
    }
}

#[test]
fn scanner_issues_one_cleanup_write_per_acknowledging_address() {
    let mut bus = MockScanBus::new(vec![0x39, 0x38]);
    scan(&mut bus);
    // Exactly one dummy zero byte per acknowledging address, in scan
    // order, and none for any address that did not respond.
    assert_eq!(bus.written, vec![(0x38, 0x00), (0x39, 0x00)]);
}

#[test]
fn scanner_with_silent_bus_finds_nothing() {
    let mut bus = MockScanBus::new(vec![]);
    let report = scan(&mut bus);
    assert_eq!(report.len(), 120);
    for (i, outcome) in report.iter().enumerate() {
        let expected = if i < 0x04 { ScanOutcome::Skipped } else { ScanOutcome::Absent };
        assert_eq!(*outcome, expected);
    }
    assert!(bus.written.is_empty());
}

#[test]
fn scanner_ignores_acknowledgers_outside_the_probed_range() {
    // Reserved and out-of-range addresses are never probed, even if a
    // device there would acknowledge.
    let mut bus = MockScanBus::new(vec![0x00, 0x03, 0x7A]);
    let report = scan(&mut bus);
    for (i, outcome) in report.iter().enumerate() {
        let expected = if i < 0x04 { ScanOutcome::Skipped } else { ScanOutcome::Absent };
        assert_eq!(*outcome, expected);
    }
    assert!(bus.written.is_empty());
}
