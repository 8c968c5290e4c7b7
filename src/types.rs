//! Identifiers, versions and the messages of the sync protocol.

use vstd::prelude::*;
use vstd::string::*;

use crate::json::JsonValue;

verus! {

/// An identifier the client gives a query, unique within a session.
#[derive(Clone, Copy, Debug, Default, PartialEq, Eq, Structural, PartialOrd, Ord)]
pub struct QueryId(pub u32);

impl QueryId {
    pub fn new(id: u32) -> (r: QueryId)
        ensures
            r.0 == id,
    {
        QueryId(id)
    }

    pub fn get_id(&self) -> (r: u32)
        ensures
            r == self.0,
    {
        self.0
    }

}

pub type QuerySetVersion = u32;

pub type IdentityVersion = u32;

/// The sequence number of a request within a session.
pub type SessionRequestSeqNumber = u32;

/// A logical timestamp.
pub type Timestamp = u64;

/// The least timestamp.
pub const TIMESTAMP_MIN: u64 = 0;

/// A session identifier: a UUID, by its 128-bit value.
#[derive(Clone, Copy, Debug, PartialEq, Eq, Structural)]
pub struct SessionId(pub u128);

impl SessionId {
    /// The all-zero session id.
    pub fn nil() -> (r: SessionId)
        ensures
            r.0 == 0,
    {
        SessionId(0)
    }

    pub fn new(uuid: u128) -> (r: SessionId)
        ensures
            r.0 == uuid,
    {
        SessionId(uuid)
    }
}

/// The canonical key of a user identity.
#[derive(Clone, Debug)]
pub struct UserIdentifier(pub String);

impl UserIdentifier {
    /// The key `"<issuer>|<subject>"`.
    pub fn construct(issuer_name: &str, subject: &str) -> (r: UserIdentifier)
        ensures
            r.0@ == identifier_of(issuer_name@, subject@),
    {
        let mut s = String::from_str(issuer_name);
        s.append("|");
        s.append(subject);
        proof {
            reveal_strlit("|");
        }
        UserIdentifier(s)
    }
}

/// The key derived from an issuer and a subject.
pub open spec fn identifier_of(issuer: Seq<char>, subject: Seq<char>) -> Seq<char> {
    issuer + seq!['|'] + subject
}

} // verus!
