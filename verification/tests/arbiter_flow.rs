//! End-to-end flows of the arbiter against a scripted hardware double.

use crc_arbiter::alg::{CrcAlg, ReturnCode};
use crc_arbiter::arbiter::{Crc, CrcUnit, Delivery};
use crc_arbiter::store::ClientStore;

/// A hardware double: answers `compute` from a fixed script of statuses,
/// in order, and records every call it receives.
struct ScriptedUnit {
    script: Vec<ReturnCode>,
    next: usize,
    computes: Vec<(u32, CrcAlg)>,
    disables: usize,
    version: u32,
}

impl ScriptedUnit {
    fn new(script: Vec<ReturnCode>) -> ScriptedUnit {
        ScriptedUnit { script, next: 0, computes: Vec::new(), disables: 0, version: 0x2020 }
    }
}

impl CrcUnit for ScriptedUnit {
    fn compute(&mut self, buffer: u32, alg: CrcAlg) -> ReturnCode {
        self.computes.push((buffer, alg));
        let r = self.script[self.next];
        self.next += 1;
        r
    }

    fn get_version(&mut self) -> u32 {
        self.version
    }

    fn disable(&mut self) {
        self.disables += 1;
    }
}

fn arbiter_with(script: Vec<ReturnCode>) -> Crc<ScriptedUnit> {
    Crc::new(ScriptedUnit::new(script), ClientStore::new(8))
}

fn register(crc: &mut Crc<ScriptedUnit>, id: u32, buffer: u32, callback: u32) {
    assert_eq!(crc.allow(id, 0, buffer), ReturnCode::Success);
    assert_eq!(crc.subscribe(id, 0, callback), ReturnCode::Success);
}

#[test]
fn probe_reports_presence() {
    let mut crc = arbiter_with(vec![]);
    let (r, dels) = crc.command(0, 0, 1);
    assert_eq!(r, ReturnCode::Success);
    assert!(dels.is_empty());
    assert_eq!(crc.serving_app, None);
}

#[test]
fn version_comes_from_hardware() {
    let mut crc = arbiter_with(vec![]);
    let (r, dels) = crc.command(1, 0, 1);
    assert_eq!(r, ReturnCode::SuccessWithValue { value: 0x2020 });
    assert!(dels.is_empty());
}

#[test]
fn unknown_command_not_supported() {
    let mut crc = arbiter_with(vec![]);
    let (r, dels) = crc.command(3, 0, 1);
    assert_eq!(r, ReturnCode::NotSupported);
    assert!(dels.is_empty());
    let (r7, _) = crc.command(7, 2, 1);
    assert_eq!(r7, ReturnCode::NotSupported);
}

#[test]
fn unknown_allow_and_subscribe_slots_not_supported() {
    let mut crc = arbiter_with(vec![]);
    assert_eq!(crc.allow(1, 1, 10), ReturnCode::NotSupported);
    assert_eq!(crc.subscribe(1, 3, 20), ReturnCode::NotSupported);
    assert_eq!(crc.apps.records.len(), 0);
}

#[test]
fn single_request_success_flow() {
    let mut crc = arbiter_with(vec![ReturnCode::Success]);
    register(&mut crc, 1, 10, 200);
    let (r, dels) = crc.command(2, 0, 1);
    assert_eq!(r, ReturnCode::Success);
    assert!(dels.is_empty());
    assert_eq!(crc.serving_app, Some(1));
    assert_eq!(crc.crc_unit.computes, vec![(10, CrcAlg::Crc32)]);
    assert_eq!(crc.apps.records[0].waiting, Some(CrcAlg::Crc32));

    let dels = crc.receive_result(0xDEADBEEF);
    assert_eq!(
        dels,
        vec![Delivery { callback: 200, status: ReturnCode::Success, value: 0xDEADBEEF, extra: 0 }]
    );
    assert_eq!(crc.serving_app, None);
    assert_eq!(crc.apps.records[0].waiting, None);
    assert_eq!(crc.apps.records[0].buffer, Some(10));
    assert_eq!(crc.apps.records[0].callback, Some(200));
    // Nothing left to run: the unit was powered down.
    assert_eq!(crc.crc_unit.disables, 1);
}

#[test]
fn second_request_while_pending_is_busy() {
    let mut crc = arbiter_with(vec![ReturnCode::Success]);
    register(&mut crc, 2, 11, 201);
    let (r, _) = crc.command(2, 0, 2);
    assert_eq!(r, ReturnCode::Success);
    let (again, dels) = crc.command(2, 1, 2);
    assert_eq!(again, ReturnCode::Busy);
    assert!(dels.is_empty());
    // No state change: the first request is still the pending one.
    assert_eq!(crc.apps.records[0].waiting, Some(CrcAlg::Crc32));
    assert_eq!(crc.serving_app, Some(2));
    assert_eq!(crc.crc_unit.computes.len(), 1);
}

#[test]
fn invalid_selector_rejected_without_mutation() {
    let mut crc = arbiter_with(vec![]);
    register(&mut crc, 3, 12, 202);
    let (r, dels) = crc.command(2, 7, 3);
    assert_eq!(r, ReturnCode::InvalidArgument);
    assert!(dels.is_empty());
    assert_eq!(crc.apps.records[0].waiting, None);
    assert_eq!(crc.apps.records[0].buffer, Some(12));
    assert_eq!(crc.apps.records[0].callback, Some(202));
    assert_eq!(crc.serving_app, None);
    assert_eq!(crc.crc_unit.computes.len(), 0);
}

#[test]
fn submission_needs_buffer_and_callback() {
    let mut crc = arbiter_with(vec![]);
    // Unknown client: nothing registered at all.
    let (unknown, _) = crc.command(2, 0, 9);
    assert_eq!(unknown, ReturnCode::InvalidArgument);
    assert_eq!(crc.apps.records.len(), 0);
    // Only a buffer.
    assert_eq!(crc.allow(4, 0, 13), ReturnCode::Success);
    let (no_callback, _) = crc.command(2, 0, 4);
    assert_eq!(no_callback, ReturnCode::InvalidArgument);
    // Only a callback.
    assert_eq!(crc.subscribe(5, 0, 203), ReturnCode::Success);
    let (no_buffer, _) = crc.command(2, 0, 5);
    assert_eq!(no_buffer, ReturnCode::InvalidArgument);
    assert_eq!(crc.serving_app, None);
    assert_eq!(crc.crc_unit.computes.len(), 0);
}

#[test]
fn rejected_start_gets_failure_callback_and_powers_down() {
    let mut crc = arbiter_with(vec![ReturnCode::Busy]);
    register(&mut crc, 6, 14, 204);
    let (r, dels) = crc.command(2, 4, 6);
    // Submission itself was accepted; the hardware then rejected the start.
    assert_eq!(r, ReturnCode::Success);
    assert_eq!(
        dels,
        vec![Delivery { callback: 204, status: ReturnCode::Busy, value: 0, extra: 0 }]
    );
    assert_eq!(crc.apps.records[0].waiting, None);
    assert_eq!(crc.apps.records[0].buffer, Some(14));
    assert_eq!(crc.serving_app, None);
    assert_eq!(crc.crc_unit.disables, 1);
}

#[test]
fn rejected_client_does_not_block_next_eligible() {
    // One request runs; two more queue up behind it. On completion the
    // re-scan offers the first queued request, the hardware rejects it,
    // and the scan goes on to start the next one.
    let mut crc = arbiter_with(vec![ReturnCode::Success, ReturnCode::Busy, ReturnCode::Success]);
    register(&mut crc, 1, 10, 210);
    register(&mut crc, 2, 20, 220);
    register(&mut crc, 3, 30, 230);
    let (ra, _) = crc.command(2, 0, 1);
    assert_eq!(ra, ReturnCode::Success);
    assert_eq!(crc.serving_app, Some(1));
    let (rd, dels_d) = crc.command(2, 1, 2);
    assert_eq!(rd, ReturnCode::Success);
    assert!(dels_d.is_empty());
    let (re, dels_e) = crc.command(2, 2, 3);
    assert_eq!(re, ReturnCode::Success);
    assert!(dels_e.is_empty());
    assert_eq!(crc.crc_unit.computes, vec![(10, CrcAlg::Crc32)]);

    let dels = crc.receive_result(0x1234);
    assert_eq!(
        dels,
        vec![
            Delivery { callback: 210, status: ReturnCode::Success, value: 0x1234, extra: 0 },
            Delivery { callback: 220, status: ReturnCode::Busy, value: 0, extra: 0 },
        ]
    );
    assert_eq!(crc.serving_app, Some(3));
    assert_eq!(crc.apps.records[0].waiting, None);
    assert_eq!(crc.apps.records[1].waiting, None);
    assert_eq!(crc.apps.records[2].waiting, Some(CrcAlg::Raw16));
    assert_eq!(
        crc.crc_unit.computes,
        vec![(10, CrcAlg::Crc32), (20, CrcAlg::Crc32C), (30, CrcAlg::Raw16)]
    );
    assert_eq!(crc.crc_unit.disables, 0);
}

#[test]
fn orphaned_completion_changes_nothing() {
    let mut crc = arbiter_with(vec![]);
    register(&mut crc, 1, 10, 200);
    let dels = crc.receive_result(9);
    assert!(dels.is_empty());
    assert_eq!(crc.serving_app, None);
    assert_eq!(crc.apps.records[0].buffer, Some(10));
    assert_eq!(crc.apps.records[0].callback, Some(200));
    assert_eq!(crc.apps.records[0].waiting, None);
    assert_eq!(crc.crc_unit.disables, 0);
    assert_eq!(crc.crc_unit.computes.len(), 0);
}

#[test]
fn completion_for_vanished_client_is_absorbed() {
    let mut crc = arbiter_with(vec![ReturnCode::Success]);
    register(&mut crc, 1, 10, 200);
    let (r, _) = crc.command(2, 3, 1);
    assert_eq!(r, ReturnCode::Success);
    assert_eq!(crc.serving_app, Some(1));
    // The client terminates while its computation is on the hardware.
    assert!(crc.apps.remove(1).is_ok());
    let dels = crc.receive_result(0x77);
    assert!(dels.is_empty());
    assert_eq!(crc.serving_app, None);
    assert_eq!(crc.crc_unit.disables, 1);
}

#[test]
fn allow_overwrites_previous_buffer() {
    let mut crc = arbiter_with(vec![]);
    assert_eq!(crc.allow(1, 0, 10), ReturnCode::Success);
    assert_eq!(crc.allow(1, 0, 42), ReturnCode::Success);
    assert_eq!(crc.apps.records.len(), 1);
    assert_eq!(crc.apps.records[0].buffer, Some(42));
    assert_eq!(crc.subscribe(1, 0, 200), ReturnCode::Success);
    assert_eq!(crc.subscribe(1, 0, 201), ReturnCode::Success);
    assert_eq!(crc.apps.records[0].callback, Some(201));
}

#[test]
fn registration_fails_when_store_is_full() {
    let mut crc = Crc::new(ScriptedUnit::new(vec![]), ClientStore::new(1));
    assert_eq!(crc.allow(1, 0, 10), ReturnCode::Success);
    assert_eq!(crc.allow(2, 0, 20), ReturnCode::ResourceExhausted);
    assert_eq!(crc.subscribe(2, 0, 200), ReturnCode::ResourceExhausted);
    assert_eq!(crc.apps.records.len(), 1);
    // The known client can still re-register.
    assert_eq!(crc.allow(1, 0, 11), ReturnCode::Success);
}
