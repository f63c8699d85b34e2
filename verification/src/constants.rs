//! Byte budgets for the fields of a record account.
//!
//! Each string is stored as a 4-byte little-endian byte length followed by its
//! UTF-8 bytes inside a fixed slot sized for the worst case of 4 bytes per
//! Unicode scalar value.

use vstd::prelude::*;

verus! {

/// Bytes reserved for the 8-byte account discriminator.
pub const DISCRIMINATOR_LENGTH: usize = 8;

/// Bytes of the author's public key.
pub const PUBLIC_KEY_LENGTH: usize = 32;

/// Bytes of the signed 64-bit creation timestamp.
pub const TIMESTAMP_LENGTH: usize = 8;

/// Bytes of the little-endian length prefix in front of each string field.
pub const STRING_LENGTH_PREFIX: usize = 4;

/// Upper bound on the topic, in Unicode scalar values.
pub const MAX_TOPIC_CHARS: usize = 50;

/// Upper bound on the content, in Unicode scalar values.
pub const MAX_CONTENT_CHARS: usize = 280;

/// Bytes of UTF-8 a scalar value needs at most.
pub const MAX_UTF8_BYTES_PER_CHAR: usize = 4;

/// Bytes reserved for the topic's UTF-8 encoding.
pub const MAX_TOPIC_LENGTH: usize = MAX_TOPIC_CHARS * MAX_UTF8_BYTES_PER_CHAR;

/// Bytes reserved for the content's UTF-8 encoding.
pub const MAX_CONTENT_LENGTH: usize = MAX_CONTENT_CHARS * MAX_UTF8_BYTES_PER_CHAR;

} // verus!
