//! Core of a password agent for an init system's ask-password protocol.
//!
//! The library covers the protocol logic itself: parsing and classifying
//! request files, encoding variable-length local-socket addresses, the
//! decisions of the timed watch loop, and the checks around response
//! transmission.  The surrounding process (directory watching, the datagram
//! syscalls, and the secret-holding device) supplies plain values to these
//! functions and acts on the values they return.

pub mod bytes;
pub mod codec;
pub mod request;
pub mod responder;
pub mod watcher;
pub mod yubikey;
