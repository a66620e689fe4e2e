use md5check::controller::{Admission, Controller, DrainStep, SubmitError, TaskOutcome};
use md5check::hash::verify_bytes;
use md5check::text::size_exceeded_message;

fn hex_digest(data: &[u8]) -> String {
    let hex = md5check::hash::to_hex(&md5::compute(data).0.to_vec());
    String::from_utf8(hex).unwrap()
}

fn outcome_for(data: &[u8], expected: &str) -> TaskOutcome {
    if verify_bytes(data, expected) {
        TaskOutcome::Matched
    } else {
        TaskOutcome::Mismatched
    }
}

#[test]
fn second_submit_blocks_until_first_drains() {
    // budget 10; two 6-byte files with correct digests
    let file_a: &[u8] = b"aaaaaa";
    let file_b: &[u8] = b"bbbbbb";
    let digest_a = hex_digest(file_a);
    let digest_b = hex_digest(file_b);
    let mut c = Controller::new(10, None);
    let mut lines: Vec<String> = Vec::new();

    let r = c.try_submit("fileA", &digest_a, 6);
    let ticket_a = match r {
        Ok(Admission::Admitted(t)) => t,
        other => panic!("fileA not admitted: {:?}", other),
    };
    assert!(c.in_flight_bytes() == 6);
    assert!(c.in_flight_bytes() <= 10);

    // fileB must wait: 6 + 6 > 10
    assert_eq!(c.try_submit("fileB", &digest_b, 6), Ok(Admission::MustWait));
    assert!(c.in_flight_bytes() == 6);

    // fileA's task completes; drain it, then fileB is admitted
    match c.on_complete(ticket_a, outcome_for(file_a, &digest_a)) {
        Some(DrainStep::Report { line, .. }) => lines.push(line),
        _ => panic!("expected a report for fileA"),
    }
    assert_eq!(c.in_flight_bytes(), 0);

    let ticket_b = match c.try_submit("fileB", &digest_b, 6) {
        Ok(Admission::Admitted(t)) => t,
        _ => panic!("fileB not admitted after drain"),
    };
    assert!(c.in_flight_bytes() <= 10);
    match c.on_complete(ticket_b, outcome_for(file_b, &digest_b)) {
        Some(DrainStep::Report { line, .. }) => lines.push(line),
        _ => panic!("expected a report for fileB"),
    }
    assert_eq!(c.in_flight_bytes(), 0);
    assert_eq!(lines, vec!["fileA OK".to_string(), "fileB OK".to_string()]);
}

#[test]
fn mismatch_reports_fail_and_still_releases() {
    let file_c: &[u8] = b"content of fileC";
    let wrong = "00000000000000000000000000000000";
    let mut c = Controller::new(100, Some("mv -t archive/"));
    let t = match c.try_submit("fileC", wrong, 16) {
        Ok(Admission::Admitted(t)) => t,
        _ => panic!("fileC not admitted"),
    };
    match c.on_complete(t, outcome_for(file_c, wrong)) {
        Some(DrainStep::Report { path, line, release_argv }) => {
            assert_eq!(path, "fileC");
            assert_eq!(line, "fileC FAIL");
            let argv = release_argv.expect("hook is configured");
            assert_eq!(argv, vec!["mv", "-t", "archive/", "fileC"]);
        }
        _ => panic!("expected a report for fileC"),
    }
    assert_eq!(c.in_flight_bytes(), 0);
}

#[test]
fn oversized_file_is_rejected_without_admission() {
    let mut c = Controller::new(10, None);
    assert_eq!(c.try_submit("fileD", "d41d8cd98f00b204e9800998ecf8427e", 20), Err(SubmitError::SizeExceeded));
    assert_eq!(c.pending_count(), 0);
    assert_eq!(c.in_flight_bytes(), 0);
    assert_eq!(
        size_exceeded_message("fileD", 10),
        "\"fileD is bigger than the maximum allowed buffer size 10"
    );
}

#[test]
fn each_job_is_drained_exactly_once() {
    let mut c = Controller::new(10, None);
    let t = match c.try_submit("f", "d41d8cd98f00b204e9800998ecf8427e", 4) {
        Ok(Admission::Admitted(t)) => t,
        _ => panic!("not admitted"),
    };
    assert_eq!(c.in_flight_bytes(), 4);
    assert!(c.on_complete(t, TaskOutcome::Matched).is_some());
    assert_eq!(c.in_flight_bytes(), 0);
    // a second drain of the same ticket changes nothing
    assert!(c.on_complete(t, TaskOutcome::Matched).is_none());
    assert_eq!(c.in_flight_bytes(), 0);
    // a ticket that was never issued changes nothing
    assert!(c.on_complete(99, TaskOutcome::Matched).is_none());
    assert_eq!(c.in_flight_bytes(), 0);
}

#[test]
fn io_failure_settles_accounting_and_releases_before_error() {
    let mut c = Controller::new(50, Some("rm"));
    let t = match c.try_submit("fileE", "d41d8cd98f00b204e9800998ecf8427e", 30) {
        Ok(Admission::Admitted(t)) => t,
        _ => panic!("not admitted"),
    };
    match c.on_complete(t, TaskOutcome::Failed("boom".to_string())) {
        Some(DrainStep::Abort { path, error, release_argv }) => {
            assert_eq!(path, "fileE");
            assert_eq!(error, "failed reading fileE: boom");
            assert_eq!(release_argv.expect("hook is configured"), vec!["rm", "fileE"]);
        }
        _ => panic!("expected an abort for fileE"),
    }
    // the failed task did not leak its budget reservation
    assert_eq!(c.in_flight_bytes(), 0);
    assert_eq!(c.pending_count(), 0);
}

#[test]
fn completions_drain_in_any_order() {
    let mut c = Controller::new(100, None);
    let mut tickets = Vec::new();
    for (name, size) in [("x", 10u64), ("y", 20u64), ("z", 30u64)] {
        match c.try_submit(name, "d41d8cd98f00b204e9800998ecf8427e", size) {
            Ok(Admission::Admitted(t)) => tickets.push(t),
            _ => panic!("not admitted"),
        }
        assert!(c.in_flight_bytes() <= 100);
    }
    assert_eq!(c.in_flight_bytes(), 60);
    // completion order differs from submission order
    assert!(c.on_complete(tickets[1], TaskOutcome::Matched).is_some());
    assert_eq!(c.in_flight_bytes(), 40);
    assert!(c.on_complete(tickets[2], TaskOutcome::Mismatched).is_some());
    assert_eq!(c.in_flight_bytes(), 10);
    assert!(c.on_complete(tickets[0], TaskOutcome::Matched).is_some());
    assert_eq!(c.in_flight_bytes(), 0);
    assert_eq!(c.pending_count(), 0);
}

#[test]
fn budget_is_respected_with_zero_sized_entries() {
    let mut c = Controller::new(0, None);
    // empty files fit a zero budget
    match c.try_submit("empty", "d41d8cd98f00b204e9800998ecf8427e", 0) {
        Ok(Admission::Admitted(_)) => {}
        _ => panic!("empty file should be admitted"),
    }
    assert_eq!(c.in_flight_bytes(), 0);
    assert_eq!(c.try_submit("one", "d41d8cd98f00b204e9800998ecf8427e", 1), Err(SubmitError::SizeExceeded));
}
