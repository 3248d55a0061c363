//! The failure kinds of a store operation.

use vstd::prelude::*;
use vstd::std_specs::convert::FromSpecImpl;
use rustc_serialize::json::ParserError;

verus! {

/// Why an operation on the store did not yield a decoded result.
#[derive(Debug, Clone, Copy, PartialEq, Eq, Structural)]
pub enum EtcdError {
    /// The store answered with a status outside the 2xx range.
    Unsuccessful(u16),
    /// The request never produced an HTTP response.
    TransportFailure,
    /// The response body was not valid JSON.
    DecodeFailure,
    /// The body was valid JSON but lacked a required field, or a field had
    /// the wrong type.
    MalformedResponse,
}

impl From<ParserError> for EtcdError {
    /// A text that the JSON parser rejects is a decode failure.
    fn from(err: ParserError) -> (r: EtcdError) {
        EtcdError::DecodeFailure
    }
}

impl FromSpecImpl<ParserError> for EtcdError {
    open spec fn obeys_from_spec() -> bool {
        true
    }

    open spec fn from_spec(err: ParserError) -> EtcdError {
        EtcdError::DecodeFailure
    }
}

} // verus!
