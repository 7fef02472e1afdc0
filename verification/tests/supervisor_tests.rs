use waifu2x_batch::supervise::PollEvent;
use waifu2x_batch::supervise::Supervisor;

#[test]
fn poll_drains_three_handles_and_flags_the_failure() {
    // Three children; the second exits non-zero, the others succeed: the
    // set is empty after the cycle and the failure flag is up.
    let mut sup = Supervisor::new();
    let start = sup.begin_batch(vec![1, 2, 3]);
    assert!(start);
    let report = sup.poll(&vec![PollEvent::ExitedOk, PollEvent::ExitedErr, PollEvent::ExitedOk]);
    assert!(report.finished);
    assert!(report.any_failed);
    assert_eq!(report.os_failures, 0);
    assert!(sup.handles.is_empty());
}

#[test]
fn empty_batch_starts_no_timer() {
    // Launching with nothing selected leaves the set empty and asks for
    // no polling.
    let mut sup = Supervisor::new();
    let start = sup.begin_batch(vec![]);
    assert!(!start);
    assert!(sup.handles.is_empty());
    assert!(!sup.any_failed);
}

#[test]
fn polling_an_empty_set_changes_nothing() {
    // A poll of an already-empty set sees nothing, fails nothing and
    // owes no dialog.
    let mut sup = Supervisor::new();
    let report = sup.poll(&vec![]);
    assert!(report.finished);
    assert!(!report.any_failed);
    assert_eq!(report.os_failures, 0);
    assert!(sup.handles.is_empty());
    assert!(!sup.any_failed);
}

#[test]
fn running_children_stay_in_order() {
    let mut sup = Supervisor::new();
    sup.begin_batch(vec![5, 6, 7]);
    let report = sup.poll(&vec![
        PollEvent::StillRunning,
        PollEvent::ExitedOk,
        PollEvent::StillRunning,
    ]);
    assert!(!report.finished);
    assert!(!report.any_failed);
    assert_eq!(sup.handles, vec![5, 7]);
}

#[test]
fn failure_flag_sticks_across_cycles() {
    let mut sup = Supervisor::new();
    sup.begin_batch(vec![8, 9]);
    let first = sup.poll(&vec![PollEvent::ExitedErr, PollEvent::StillRunning]);
    assert!(!first.finished);
    assert!(first.any_failed);
    let second = sup.poll(&vec![PollEvent::ExitedOk]);
    assert!(second.finished);
    assert!(second.any_failed);
}

#[test]
fn a_new_batch_clears_the_failure_flag() {
    let mut sup = Supervisor::new();
    sup.begin_batch(vec![1]);
    let report = sup.poll(&vec![PollEvent::ExitedErr]);
    assert!(report.any_failed);
    let start = sup.begin_batch(vec![2]);
    assert!(start);
    assert!(!sup.any_failed);
    let report = sup.poll(&vec![PollEvent::ExitedOk]);
    assert!(!report.any_failed);
}

#[test]
fn failed_status_checks_owe_one_dialog_each() {
    // A check that errors at the OS level drops the handle, fails the
    // batch and owes a dialog.
    let mut sup = Supervisor::new();
    sup.begin_batch(vec![1, 2, 3]);
    let report = sup.poll(&vec![
        PollEvent::WaitFailed,
        PollEvent::StillRunning,
        PollEvent::WaitFailed,
    ]);
    assert_eq!(report.os_failures, 2);
    assert!(report.any_failed);
    assert!(!report.finished);
    assert_eq!(sup.handles, vec![2]);
}
