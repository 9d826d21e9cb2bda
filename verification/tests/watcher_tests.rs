//! Tests of the watcher's decisions: the initial scan, per-file outcomes,
//! the single-shot exit rule, and the tick budget.

use askpass_agent::watcher::{
    evaluate_request, scan_candidate, scan_existing, should_exit, watch_candidate, AskDirEntry,
    RequestOutcome, ScanResult, TickControl, WatchSession,
};

fn entry(name: &str, content: &str) -> AskDirEntry {
    AskDirEntry { name: name.as_bytes().to_vec(), content: content.as_bytes().to_vec() }
}

#[test]
fn scan_handles_first_disk_request() {
    let entries = vec![entry(
        "ask.100",
        "Message=Please enter passphrase for disk sda1\nSocket=/run/agent.sock\n",
    )];
    match scan_existing(&entries) {
        ScanResult::Handled { index, outcome } => {
            assert_eq!(index, 0);
            match outcome {
                RequestOutcome::RespondTo { request } => {
                    assert_eq!(
                        request.reply_socket_path,
                        Some(b"/run/agent.sock".to_vec())
                    );
                }
                other => panic!("expected a respondable request, got {:?}", other),
            }
        }
        ScanResult::NotFound => panic!("the disk request was not found"),
    }
}

#[test]
fn scan_reports_not_found_without_disk_request() {
    let entries = vec![entry(
        "ask.101",
        "Message=Please enter a password for user bob\nSocket=/run/agent.sock\n",
    )];
    assert!(matches!(scan_existing(&entries), ScanResult::NotFound));
}

#[test]
fn scan_of_empty_directory_reports_not_found() {
    assert!(matches!(scan_existing(&Vec::new()), ScanResult::NotFound));
}

#[test]
fn scan_skips_foreign_names() {
    let disk = "Message=Please enter passphrase for disk sda\nSocket=/run/a\n";
    let entries = vec![entry("other.100", disk), entry("ask", disk), entry("ask.1.2", disk)];
    assert!(matches!(scan_existing(&entries), ScanResult::NotFound));
}

#[test]
fn scan_picks_first_matching_entry() {
    let entries = vec![
        entry("ask.1", "Message=unrelated\n"),
        entry("ask.2", "Message=Please enter passphrase for disk sda\nSocket=/run/a\n"),
        entry("ask.3", "Message=Please enter passphrase for disk sdb\nSocket=/run/b\n"),
    ];
    match scan_existing(&entries) {
        ScanResult::Handled { index, .. } => assert_eq!(index, 1),
        ScanResult::NotFound => panic!("the disk request was not found"),
    }
}

#[test]
fn scan_handles_malformed_disk_request() {
    let entries = vec![entry("ask.7", "Message=Please enter passphrase for disk sda\n")];
    match scan_existing(&entries) {
        ScanResult::Handled { index, outcome } => {
            assert_eq!(index, 0);
            assert!(matches!(outcome, RequestOutcome::MalformedDiskRequest { .. }));
        }
        ScanResult::NotFound => panic!("a malformed disk request still counts as handled"),
    }
}

#[test]
fn candidate_rules_differ_between_scan_and_watch() {
    assert!(scan_candidate(&b"ask.100".to_vec()));
    assert!(!scan_candidate(&b"ask".to_vec()));
    assert!(!scan_candidate(&b"ask.1.2".to_vec()));
    assert!(!scan_candidate(&b"question".to_vec()));
    assert!(watch_candidate(&b"ask.100".to_vec()));
    assert!(watch_candidate(&b"ask.1.2".to_vec()));
    assert!(!watch_candidate(&b"ask".to_vec()));
    assert!(!watch_candidate(&b"nope.1".to_vec()));
}

#[test]
fn malformed_match_still_ends_the_watch() {
    let outcome =
        evaluate_request(&b"Message=Please enter passphrase for disk sda\n".to_vec());
    assert!(matches!(outcome, RequestOutcome::MalformedDiskRequest { .. }));
    assert!(should_exit(&outcome));
}

#[test]
fn respondable_match_ends_the_watch() {
    let outcome = evaluate_request(
        &b"Message=Please enter passphrase for disk sda\nSocket=/run/a\n".to_vec(),
    );
    assert!(matches!(outcome, RequestOutcome::RespondTo { .. }));
    assert!(should_exit(&outcome));
}

#[test]
fn other_request_does_not_end_the_watch() {
    let outcome = evaluate_request(&b"Message=anything else\n".to_vec());
    assert!(matches!(outcome, RequestOutcome::NotDiskRequest));
    assert!(!should_exit(&outcome));
}

#[test]
fn zero_budget_expires_on_first_tick() {
    let mut session = WatchSession::new(0);
    assert_eq!(session.tick(), TickControl::Expired);
    assert_eq!(session.remaining_ticks, 0);
}

#[test]
fn budget_of_three_gives_three_ticks() {
    let mut session = WatchSession::new(3);
    assert_eq!(session.tick(), TickControl::Proceed);
    assert_eq!(session.tick(), TickControl::Proceed);
    assert_eq!(session.tick(), TickControl::Proceed);
    assert_eq!(session.tick(), TickControl::Expired);
    assert_eq!(session.tick(), TickControl::Expired);
}
