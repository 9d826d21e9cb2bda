//! Tests of request-file parsing and classification.

use askpass_agent::request::{parse, parse_u64, Classification};

fn bytes(s: &str) -> Vec<u8> {
    s.as_bytes().to_vec()
}

#[test]
fn parse_without_message_is_other() {
    let (classification, request) = parse(&bytes("Socket=/run/agent.sock\n"));
    assert_eq!(classification, Classification::Other);
    assert!(request.is_none());
}

#[test]
fn parse_without_prompt_is_other() {
    let content = bytes("Message=Please enter a password for user bob\nSocket=/run/agent.sock\n");
    let (classification, request) = parse(&content);
    assert_eq!(classification, Classification::Other);
    let request = request.unwrap();
    assert_eq!(request.message, bytes("Please enter a password for user bob"));
}

#[test]
fn parse_with_prompt_is_disk_passphrase() {
    let content =
        bytes("Message=Please enter passphrase for disk sda1\nSocket=/run/agent.sock\n");
    let (classification, request) = parse(&content);
    assert_eq!(classification, Classification::DiskPassphrase);
    let request = request.unwrap();
    assert_eq!(request.message, bytes("Please enter passphrase for disk sda1"));
    assert_eq!(request.reply_socket_path, Some(bytes("/run/agent.sock")));
}

#[test]
fn parse_prompt_in_middle_of_message_counts() {
    let content = bytes("Message=Again: Please enter passphrase for disk sdb2!\n");
    let (classification, _) = parse(&content);
    assert_eq!(classification, Classification::DiskPassphrase);
}

#[test]
fn parse_socket_value_is_exact_substring() {
    let content = bytes(
        "Icon=drive\nMessage=Please enter passphrase for disk vda\nSocket=/run/systemd/ask-password/sck.123\nAcceptCached=0\n",
    );
    let (_, request) = parse(&content);
    let request = request.unwrap();
    assert_eq!(
        request.reply_socket_path,
        Some(bytes("/run/systemd/ask-password/sck.123"))
    );
}

#[test]
fn parse_first_key_match_is_authoritative() {
    let content = bytes("Message=first\nMessage=second\nSocket=/a\nSocket=/b\n");
    let (_, request) = parse(&content);
    let request = request.unwrap();
    assert_eq!(request.message, bytes("first"));
    assert_eq!(request.reply_socket_path, Some(bytes("/a")));
}

#[test]
fn parse_key_must_start_its_line() {
    let content = bytes("XMessage=hidden\nMessage=shown\n");
    let (_, request) = parse(&content);
    assert_eq!(request.unwrap().message, bytes("shown"));
}

#[test]
fn parse_missing_socket_still_classifies() {
    let content = bytes("Message=Please enter passphrase for disk sda\n");
    let (classification, request) = parse(&content);
    assert_eq!(classification, Classification::DiskPassphrase);
    assert_eq!(request.unwrap().reply_socket_path, None);
}

#[test]
fn parse_without_trailing_newline_reads_to_end() {
    let content = bytes("Message=Please enter passphrase for disk sda\nSocket=/run/a");
    let (_, request) = parse(&content);
    assert_eq!(request.unwrap().reply_socket_path, Some(bytes("/run/a")));
}

#[test]
fn parse_empty_file_is_other() {
    let (classification, request) = parse(&Vec::new());
    assert_eq!(classification, Classification::Other);
    assert!(request.is_none());
}

#[test]
fn parse_captures_pid() {
    let content = bytes("PID=1234\nMessage=Please enter passphrase for disk sda\n");
    let (_, request) = parse(&content);
    assert_eq!(request.unwrap().pid, Some(1234));
}

#[test]
fn parse_non_numeric_pid_is_dropped() {
    let content = bytes("PID=12x4\nMessage=m\n");
    let (_, request) = parse(&content);
    assert_eq!(request.unwrap().pid, None);
}

#[test]
fn parse_u64_accepts_max() {
    assert_eq!(parse_u64(&bytes("18446744073709551615")), Some(u64::MAX));
}

#[test]
fn parse_u64_rejects_overflow() {
    assert_eq!(parse_u64(&bytes("18446744073709551616")), None);
    assert_eq!(parse_u64(&bytes("99999999999999999999999")), None);
}

#[test]
fn parse_u64_rejects_empty_and_signs() {
    assert_eq!(parse_u64(&bytes("")), None);
    assert_eq!(parse_u64(&bytes("-3")), None);
    assert_eq!(parse_u64(&bytes("+3")), None);
    assert_eq!(parse_u64(&bytes("0")), Some(0));
}
