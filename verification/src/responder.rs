//! The verifiable half of response transmission: building the response
//! payload, encoding the destination address, and judging the send
//! syscall's result.
//!
//! The datagram socket itself lives outside the library; the caller hands
//! the syscall's return value and error code back in to be checked.

use vstd::prelude::*;
use crate::codec;

verus! {

/// Why a response could not be delivered.
#[derive(PartialEq, Eq, Structural, Clone, Copy, Debug)]
pub enum SendError {
    /// The destination path does not fit in a local-socket address.
    AddressTooLong,
    /// The send syscall failed; the OS error code is kept.
    SystemCallFailure(i32),
    /// The OS reported fewer bytes transmitted than the payload holds.
    PartialSend,
}

/// Builds the response payload: the literal `+` followed by the secret,
/// with no terminator.
pub fn build_response(secret: &Vec<u8>) -> (r: Vec<u8>)
    ensures
        r@ == seq![('+' as u8)] + secret@,
{
    let mut r: Vec<u8> = Vec::new();
    r.push('+' as u8);
    let mut i: usize = 0;
    while i < secret.len()
        invariant
            i <= secret@.len(),
            r@ == seq![('+' as u8)] + secret@.subrange(0, i as int),
        decreases secret@.len() - i,
    {
        r.push(secret[i]);
        assert(r@ =~= seq![('+' as u8)] + secret@.subrange(0, i + 1 as int));
        i = i + 1;
    }
    assert(secret@.subrange(0, secret@.len() as int) =~= secret@);
    r
}

/// Encodes the destination path, mapping an oversized path to the
/// responder's error.
pub fn encode_destination(path: &Vec<u8>) -> (r: Result<codec::SocketAddress, SendError>)
    ensures
        match r {
            Ok(addr) => path@.len() <= codec::MAX_PATH_LEN && addr.encodes(path@),
            Err(e) => e == SendError::AddressTooLong && path@.len() > codec::MAX_PATH_LEN,
        },
{
    match codec::encode(path) {
        Ok(addr) => Ok(addr),
        Err(_) => Err(SendError::AddressTooLong),
    }
}

/// Judges the result of the send syscall: `sent` is its return value and
/// `os_error` the error code it left behind.  Delivery counts only when
/// the OS reports the whole payload as transmitted; anything shorter is a
/// partial send, never silently accepted.
pub fn check_send_result(sent: isize, os_error: i32, payload_len: usize) -> (r: Result<(), SendError>)
    ensures
        sent == -1 ==> r == Err::<(), SendError>(SendError::SystemCallFailure(os_error)),
        sent != -1 && sent == payload_len as int ==> r is Ok,
        sent != -1 && sent != payload_len as int ==> r == Err::<(), SendError>(SendError::PartialSend),
{
    if sent == -1 {
        Err(SendError::SystemCallFailure(os_error))
    } else if sent >= 0 && (sent as usize) == payload_len {
        Ok(())
    } else {
        Err(SendError::PartialSend)
    }
}

} // verus!
