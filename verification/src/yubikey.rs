//! The verifiable half of the challenge-response device boundary: slot and
//! challenge validation, random challenge generation, and formatting of the
//! device's raw response.
//!
//! Talking to the device itself is outside the library; callers hand the
//! raw response bytes back in to be formatted.

use vstd::prelude::*;

verus! {

/// Device-layer failures.
#[derive(PartialEq, Eq, Structural, Clone, Copy, Debug)]
pub enum YubikeyError {
    InvalidYubikeySlot,
    NoYubikeyConnected,
    EmptyCRChallenge,
    /// Any other failure, carrying the raw OS error code.
    OtherError(i32),
}

impl YubikeyError {
    /// A fixed description of the error.
    pub fn description(&self) -> (r: &'static str)
        ensures
            self is InvalidYubikeySlot ==> r@ == "The selected Yubikey slot is invalid. Valid are 1, 2"@,
            self is NoYubikeyConnected ==> r@ == "No Yubikey connected"@,
            self is EmptyCRChallenge ==> r@ == "The specified challenge was empty"@,
            self is OtherError ==> r@ == "OS-level error while talking to the Yubikey"@,
    {
        match self {
            YubikeyError::InvalidYubikeySlot => "The selected Yubikey slot is invalid. Valid are 1, 2",
            YubikeyError::NoYubikeyConnected => "No Yubikey connected",
            YubikeyError::EmptyCRChallenge => "The specified challenge was empty",
            YubikeyError::OtherError(_) => "OS-level error while talking to the Yubikey",
        }
    }
}

/// Relies on `std::io::Error::last_os_error`, which reads the calling
/// thread's last OS error value; the raw code is taken, zero when none is
/// carried.
#[verifier::external_body]
fn last_os_error_code() -> i32 {
    std::io::Error::last_os_error().raw_os_error().unwrap_or(0)
}

/// Wraps the calling thread's last OS error value as a device-layer error.
pub fn last_yk_error() -> (e: YubikeyError)
    ensures
        e is OtherError,
{
    YubikeyError::OtherError(last_os_error_code())
}

/// The device command selecting HMAC challenge-response against slot 1.
pub const SLOT_CHAL_HMAC1: u8 = 0x30;

/// The device command selecting HMAC challenge-response against slot 2.
pub const SLOT_CHAL_HMAC2: u8 = 0x38;

/// Maps a slot number to its challenge-response device command; only slots
/// 1 and 2 exist.
pub fn slot_command(slot: u8) -> (r: Result<u8, YubikeyError>)
    ensures
        slot == 1 ==> r == Ok::<u8, YubikeyError>(SLOT_CHAL_HMAC1),
        slot == 2 ==> r == Ok::<u8, YubikeyError>(SLOT_CHAL_HMAC2),
        slot != 1 && slot != 2 ==> r == Err::<u8, YubikeyError>(YubikeyError::InvalidYubikeySlot),
{
    match slot {
        1 => Ok(SLOT_CHAL_HMAC1),
        2 => Ok(SLOT_CHAL_HMAC2),
        _ => Err(YubikeyError::InvalidYubikeySlot),
    }
}

/// Validates a challenge-response call before it reaches the device: the
/// slot must exist and the challenge must not be empty.  Returns the
/// device command to use.
pub fn prepare_challenge_response(slot: u8, challenge: &Vec<u8>) -> (r: Result<u8, YubikeyError>)
    ensures
        slot != 1 && slot != 2 ==> r == Err::<u8, YubikeyError>(YubikeyError::InvalidYubikeySlot),
        (slot == 1 || slot == 2) && challenge@.len() == 0
            ==> r == Err::<u8, YubikeyError>(YubikeyError::EmptyCRChallenge),
        slot == 1 && challenge@.len() > 0 ==> r == Ok::<u8, YubikeyError>(SLOT_CHAL_HMAC1),
        slot == 2 && challenge@.len() > 0 ==> r == Ok::<u8, YubikeyError>(SLOT_CHAL_HMAC2),
{
    let cmd = match slot_command(slot) {
        Ok(c) => c,
        Err(e) => {
            return Err(e);
        },
    };
    if challenge.len() == 0 {
        return Err(YubikeyError::EmptyCRChallenge);
    }
    Ok(cmd)
}

// --- hexadecimal formatting of the device's raw response ---

/// The lowercase hexadecimal digit for a value below sixteen.
pub open spec fn hex_digit(n: u8) -> u8
    recommends
        n < 16,
{
    if n < 10 {
        (n + ('0' as u8)) as u8
    } else {
        ((n - 10) + ('a' as u8)) as u8
    }
}

/// The lowercase hexadecimal encoding of `s`: two digits per byte, most
/// significant first.
pub open spec fn hex_bytes(s: Seq<u8>) -> Seq<u8>
    decreases s.len(),
{
    if s.len() == 0 {
        Seq::empty()
    } else {
        seq![hex_digit(s[0] / 16), hex_digit(s[0] % 16)] + hex_bytes(s.drop_first())
    }
}

/// The hexadecimal encoding has two digits for each byte.
pub proof fn lemma_hex_bytes_len(s: Seq<u8>)
    ensures
        hex_bytes(s).len() == 2 * s.len(),
    decreases s.len(),
{
    if s.len() > 0 {
        lemma_hex_bytes_len(s.drop_first());
    }
}

/// Relies on rustc_serialize's `ToHex` for `[u8]`: each byte becomes two
/// lowercase hexadecimal digits, most significant first.
#[verifier::external_body]
fn hex_encode(bytes: &Vec<u8>) -> (r: Vec<u8>)
    ensures
        r@ == hex_bytes(bytes@),
{
    rustc_serialize::hex::ToHex::to_hex(bytes.as_slice()).into_bytes()
}

/// How many hexadecimal digits of the raw device response make up the
/// secret; the device's buffer is longer than the HMAC it returns.
pub const RESPONSE_HEX_LEN: usize = 40;

/// The secret derived from a raw device response: its hexadecimal
/// encoding, cut to `RESPONSE_HEX_LEN` digits.
pub open spec fn spec_format_response(raw: Seq<u8>) -> Seq<u8> {
    if hex_bytes(raw).len() <= RESPONSE_HEX_LEN {
        hex_bytes(raw)
    } else {
        hex_bytes(raw).subrange(0, RESPONSE_HEX_LEN as int)
    }
}

/// Formats a raw device response as the secret to send back: lowercase
/// hexadecimal, cut to `RESPONSE_HEX_LEN` digits.
pub fn format_response(raw: &Vec<u8>) -> (r: Vec<u8>)
    ensures
        r@ == spec_format_response(raw@),
        r@.len() == if 2 * raw@.len() <= RESPONSE_HEX_LEN {
            2 * raw@.len() as int
        } else {
            RESPONSE_HEX_LEN as int
        },
{
    proof {
        lemma_hex_bytes_len(raw@);
    }
    let mut h = hex_encode(raw);
    h.truncate(RESPONSE_HEX_LEN);
    proof {
        if hex_bytes(raw@).len() <= RESPONSE_HEX_LEN {
            assert(h@ =~= hex_bytes(raw@));
        }
    }
    h
}

// --- challenges ---

/// The exact challenge length the enrollment format stores.
pub const CHALLENGE_LEN: usize = 64;

/// Whether stored challenge bytes have the one length the device protocol
/// uses.
pub fn challenge_length_ok(challenge: &Vec<u8>) -> (b: bool)
    ensures
        b == (challenge@.len() == CHALLENGE_LEN),
{
    challenge.len() == CHALLENGE_LEN
}

/// Relies on `rand::random` for a uniformly random byte; nothing is
/// promised of the value.
#[verifier::external_body]
fn random_byte() -> u8 {
    rand::random()
}

/// Draws a fresh random challenge of the protocol's length.
pub fn random_challenge() -> (r: Vec<u8>)
    ensures
        r@.len() == CHALLENGE_LEN,
{
    let mut r: Vec<u8> = Vec::new();
    let mut i: usize = 0;
    while i < CHALLENGE_LEN
        invariant
            r@.len() == i,
            i <= CHALLENGE_LEN,
        decreases CHALLENGE_LEN - i,
    {
        r.push(random_byte());
        i = i + 1;
    }
    r
}

} // verus!
