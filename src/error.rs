//! What a call can end in besides its result.
use vstd::prelude::*;
use crate::wire::Wire;

verus! {

/// Everything a call to the exchange can end in besides its result.
#[derive(Debug)]
pub enum ClientError {
    /// The API key or the secret key is missing.
    Configuration,
    /// The transport failed; its own description, unchanged.
    Transport(String),
    /// A response did not have the shape of the record expected.
    Protocol { record: String, payload: Wire },
    /// The exchange answered with an envelope whose status is not success.
    Exchange { status: String, code: Option<Wire>, text: Option<String> },
}

} // verus!
