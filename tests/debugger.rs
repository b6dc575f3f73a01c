use std::collections::HashMap;

use deet::inferior::{after_step, breakpoint_hit, status_of, DebugError, Inferior, Status, StepAction};
use deet::sys::WaitEvent;
use nix::sys::signal::Signal;
use deet::unwind::{is_last_frame, DebugData, Symbol};
use nix::unistd::Pid;

#[test]
fn hit_is_one_byte_before_the_pc() {
    let mut bps: HashMap<usize, u8> = HashMap::new();
    bps.insert(0x401000, 0x55);
    assert_eq!(breakpoint_hit(0x401001, &bps), Some((0x401000, 0x55)));
    assert_eq!(breakpoint_hit(0x401000, &bps), None);
    assert_eq!(breakpoint_hit(0x401002, &bps), None);
    assert_eq!(breakpoint_hit(0, &bps), None);
}

#[test]
fn walk_ends_at_entry_or_unknown_function() {
    assert!(is_last_frame(&Some(String::from("main"))));
    assert!(is_last_frame(&None));
    assert!(!is_last_frame(&Some(String::from("foo"))));
    assert!(!is_last_frame(&Some(String::from("mainly"))));
}

#[test]
fn attaching_to_a_process_that_is_not_a_child_fails_cleanly() {
    let mut bps: HashMap<usize, u8> = HashMap::new();
    bps.insert(0x401000, 0);
    bps.insert(0x401010, 0);
    let before = bps.clone();
    let r = Inferior::new(Pid::from_raw(i32::MAX - 1), &mut bps);
    assert!(r.is_none());
    assert_eq!(bps, before);
}

#[test]
fn wait_reports_translate_one_for_one() {
    assert!(matches!(status_of(WaitEvent::Exited(3), 0), Ok(Status::Exited(3))));
    assert!(matches!(
        status_of(WaitEvent::Signaled(Signal::SIGSEGV), 0),
        Ok(Status::Signaled(Signal::SIGSEGV))
    ));
    assert!(matches!(
        status_of(WaitEvent::Stopped(Signal::SIGTRAP), 0x401001),
        Ok(Status::Stopped(Signal::SIGTRAP, 0x401001))
    ));
    assert!(matches!(status_of(WaitEvent::Other, 7), Err(DebugError::UnexpectedState)));
}

fn sym(start: usize, end: usize, name: &str) -> Symbol {
    Symbol { start, end, name: String::from(name) }
}

#[test]
fn debug_data_finds_the_first_range_holding_the_address() {
    let d = DebugData {
        functions: vec![sym(0x1000, 0x1040, "foo"), sym(0x1040, 0x1100, "main"), sym(0x1000, 0x2000, "outer")],
        lines: vec![sym(0x1000, 0x1010, "foo.c:3")],
    };
    assert_eq!(d.get_function_from_addr(0x1000), Some(String::from("foo")));
    assert_eq!(d.get_function_from_addr(0x103f), Some(String::from("foo")));
    assert_eq!(d.get_function_from_addr(0x1040), Some(String::from("main")));
    assert_eq!(d.get_function_from_addr(0x1800), Some(String::from("outer")));
    assert_eq!(d.get_function_from_addr(0x2000), None);
    assert_eq!(d.get_line_from_addr(0x1004), Some(String::from("foo.c:3")));
    assert_eq!(d.get_line_from_addr(0x1010), None);
}

#[test]
fn step_decision_returns_ends_and_rearms_on_stops() {
    assert!(matches!(after_step(Status::Exited(0)), StepAction::Finish(Status::Exited(0))));
    assert!(matches!(
        after_step(Status::Signaled(Signal::SIGKILL)),
        StepAction::Finish(Status::Signaled(Signal::SIGKILL))
    ));
    assert!(matches!(after_step(Status::Stopped(Signal::SIGTRAP, 0x401001)), StepAction::Rearm));
}
