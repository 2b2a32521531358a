//! Identifiers and authentication data shared by the whole core.
//!
//! A UUID is carried as its 128-bit value; the textual hyphenated form
//! used on the wire is produced by the codec.

use vstd::prelude::*;

verus! {

/// A 128-bit universally unique identifier, held as a plain value.
#[derive(Clone, Copy, Debug, PartialEq, Eq, Structural, Hash)]
pub struct UuidValue {
    pub bits: u128,
}

impl UuidValue {
    /// The nil UUID (all bits zero).
    pub fn nil() -> (r: UuidValue)
        ensures
            r.bits == 0,
    {
        UuidValue { bits: 0 }
    }

    pub fn from_bits(bits: u128) -> (r: UuidValue)
        ensures
            r.bits == bits,
    {
        UuidValue { bits }
    }
}

/// Identifies a user account.
#[derive(Clone, Copy, Debug, PartialEq, Eq, Structural, Hash)]
pub struct UserId(pub UuidValue);

/// Identifies a conversation (direct or group chat).
#[derive(Clone, Copy, Debug, PartialEq, Eq, Structural, Hash)]
pub struct ConversationId(pub UuidValue);

/// Token material returned by a successful login.
#[derive(Clone, Debug)]
pub struct AuthTokens {
    pub access_token: String,
    /// Lifetime of the access token, in seconds.
    pub access_expires_in: u64,
    pub refresh_token: String,
    /// Lifetime of the refresh token, in seconds.
    pub refresh_expires_in: u64,
}

} // verus!
