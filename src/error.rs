//! Why a decode failed.

use vstd::prelude::*;
use vstd::string::*;

verus! {

/// The ways in which a JSON document can fail to decode.
#[derive(Clone, Copy, PartialEq, Eq, Structural, Debug)]
pub enum DecodeError {
    /// A base64 token that does not decode, or decodes to the wrong length.
    MalformedEncoding,
    /// A `$float` object whose value could have been written as a number.
    RedundantFloatEncoding,
    /// A `$set` that holds one element twice.
    DuplicateSetElement,
    /// A `$map` that holds one key twice.
    DuplicateMapKey,
    /// A reserved tag whose payload has the wrong shape.
    ReservedTagAbuse,
    /// A request with neither its id nor its legacy id.
    MissingRequestId,
    /// Identity attributes with neither a token identifier nor both issuer and subject.
    MissingIdentityKey,
    /// A session id that is not a hyphenated UUID.
    MalformedSessionId,
    /// A `type` or `tokenType` tag that names no variant.
    UnknownVariant,
    /// A required member is absent.
    MissingField,
    /// A member holds a JSON value of the wrong kind or out of range.
    InvalidType,
}

impl DecodeError {
    /// A human-readable description.
    pub fn message(&self) -> (r: String) {
        match self {
            DecodeError::MalformedEncoding => String::from_str("malformed base64 encoding"),
            DecodeError::RedundantFloatEncoding => String::from_str(
                "Float64 should be encoded as a number",
            ),
            DecodeError::DuplicateSetElement => String::from_str("Duplicate value in set"),
            DecodeError::DuplicateMapKey => String::from_str("Duplicate key in map"),
            DecodeError::ReservedTagAbuse => String::from_str("reserved tag with a malformed value"),
            DecodeError::MissingRequestId => String::from_str(
                "Either mutation_id or request_id must be set",
            ),
            DecodeError::MissingIdentityKey => String::from_str(
                "Either \"tokenIdentifier\" or \"issuer\" and \"subject\" must be set",
            ),
            DecodeError::MalformedSessionId => String::from_str("malformed session id"),
            DecodeError::UnknownVariant => String::from_str("unknown variant"),
            DecodeError::MissingField => String::from_str("missing field"),
            DecodeError::InvalidType => String::from_str("invalid type"),
        }
    }
}

} // verus!
