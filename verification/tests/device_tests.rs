//! Tests of the device-boundary checks, response formatting, and the
//! transmission checks.

use askpass_agent::responder::{build_response, check_send_result, encode_destination, SendError};
use askpass_agent::yubikey::{
    challenge_length_ok, format_response, last_yk_error, prepare_challenge_response,
    random_challenge, slot_command, YubikeyError, CHALLENGE_LEN, SLOT_CHAL_HMAC1, SLOT_CHAL_HMAC2,
};

#[test]
fn slot_commands_match_the_device_protocol() {
    assert_eq!(slot_command(1), Ok(SLOT_CHAL_HMAC1));
    assert_eq!(slot_command(1), Ok(0x30));
    assert_eq!(slot_command(2), Ok(0x38));
    assert_eq!(slot_command(0), Err(YubikeyError::InvalidYubikeySlot));
    assert_eq!(slot_command(3), Err(YubikeyError::InvalidYubikeySlot));
}

#[test]
fn challenge_preparation_checks_slot_before_challenge() {
    assert_eq!(
        prepare_challenge_response(3, &Vec::new()),
        Err(YubikeyError::InvalidYubikeySlot)
    );
    assert_eq!(
        prepare_challenge_response(2, &Vec::new()),
        Err(YubikeyError::EmptyCRChallenge)
    );
    assert_eq!(prepare_challenge_response(2, &vec![7u8; 64]), Ok(SLOT_CHAL_HMAC2));
}

#[test]
fn format_response_hex_encodes_known_bytes() {
    assert_eq!(format_response(&vec![0x34, 0x20]), b"3420".to_vec());
    assert_eq!(format_response(&vec![0x00, 0xff, 0x0a]), b"00ff0a".to_vec());
}

#[test]
fn format_response_truncates_to_forty_digits() {
    let raw = vec![0xabu8; 64];
    let formatted = format_response(&raw);
    assert_eq!(formatted.len(), 40);
    assert_eq!(formatted, b"ab".repeat(20));
}

#[test]
fn format_response_of_nothing_is_empty() {
    assert_eq!(format_response(&Vec::new()), Vec::<u8>::new());
}

#[test]
fn random_challenge_has_protocol_length() {
    let challenge = random_challenge();
    assert_eq!(challenge.len(), CHALLENGE_LEN);
    assert!(challenge_length_ok(&challenge));
    assert!(!challenge_length_ok(&vec![0u8; 63]));
}

#[test]
fn build_response_prefixes_a_plus() {
    assert_eq!(build_response(&b"secret".to_vec()), b"+secret".to_vec());
    assert_eq!(build_response(&Vec::new()), b"+".to_vec());
}

#[test]
fn send_results_are_judged_exactly() {
    assert_eq!(check_send_result(-1, 111, 7), Err(SendError::SystemCallFailure(111)));
    assert_eq!(check_send_result(3, 0, 7), Err(SendError::PartialSend));
    assert_eq!(check_send_result(7, 0, 7), Ok(()));
    assert_eq!(check_send_result(0, 0, 0), Ok(()));
}

#[test]
fn oversized_destination_is_a_send_error() {
    assert!(matches!(
        encode_destination(&vec![b'p'; 200]),
        Err(SendError::AddressTooLong)
    ));
    assert!(encode_destination(&b"/run/agent.sock".to_vec()).is_ok());
}

#[test]
fn last_yk_error_wraps_an_os_code() {
    assert!(matches!(last_yk_error(), YubikeyError::OtherError(_)));
}

#[test]
fn error_descriptions_are_fixed() {
    assert_eq!(
        YubikeyError::NoYubikeyConnected.description(),
        "No Yubikey connected"
    );
    assert_eq!(
        YubikeyError::InvalidYubikeySlot.description(),
        "The selected Yubikey slot is invalid. Valid are 1, 2"
    );
    assert_eq!(
        YubikeyError::EmptyCRChallenge.description(),
        "The specified challenge was empty"
    );
}
