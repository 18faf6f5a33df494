//! A verified SHA-1 digest engine together with a naive secret-prefix
//! message authentication code (MAC = SHA-1(key || message)).
//!
//! The digest engine pads its input to a multiple of 64 bytes, runs the
//! 80-round SHA-1 compression function over each 64-byte block, and emits a
//! 20-byte digest. The MAC wrapper concatenates key and message and hashes
//! the concatenation. The secret-prefix construction is intentionally the
//! textbook one: it is vulnerable to length extension, and nothing here
//! claims otherwise.

pub mod digest;
pub mod hexstr;
pub mod mac;
