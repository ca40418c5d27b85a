//! Shared library of the number-echo client and server: the wire protocol,
//! the length-prefixed framing of messages on a byte stream, and two
//! envelope encryption schemes (password based and keypair based).

pub mod input;
pub mod keypair_encryption;
pub mod networking;
pub mod password_encryption;
pub mod protocal;
