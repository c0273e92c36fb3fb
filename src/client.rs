//! The endpoint client: credentials, and the signing of calls with them.
use vstd::prelude::*;
use crate::error::ClientError;
use crate::signer::{route, sign, signature_of, OperationKind, SignedRequest};
use crate::signer::decimal_text;

verus! {

/// A key that is there: present and not empty.
pub open spec fn key_present(k: Option<String>) -> bool {
    k is Some && k->0@.len() > 0
}

/// The API key and the secret key of an account; either may be missing.
#[derive(Clone, Debug)]
pub struct Client {
    pub api_key: Option<String>,
    pub secret_key: Option<String>,
}

/// `s` is the request of kind `kind` to `path` with `body`, signed with the
/// client's keys and `nonce`.
pub open spec fn signed_as(
    s: SignedRequest,
    client: Client,
    kind: OperationKind,
    path: Seq<char>,
    nonce: u64,
    body: Seq<char>,
) -> bool {
    &&& s.path@ == route(kind) + path
    &&& s.nonce@ == decimal_text(nonce as nat)
    &&& s.body@ == body
    &&& s.api_key@ == client.api_key->0@
    &&& s.signature@ == signature_of(client.secret_key->0@, kind, path, nonce, body)
}

impl Client {
    pub fn new(api_key: Option<String>, secret_key: Option<String>) -> (r: Client)
        ensures
            r.api_key == api_key,
            r.secret_key == secret_key,
    {
        Client { api_key, secret_key }
    }

    pub open spec fn has_credentials(&self) -> bool {
        key_present(self.api_key) && key_present(self.secret_key)
    }

    /// Signs a call; fails, before anything is signed, when a key is missing.
    pub fn sign(&self, kind: OperationKind, path: &str, nonce: u64, body: &str) -> (r: Result<
        SignedRequest,
        ClientError,
    >)
        ensures
            r is Ok <==> self.has_credentials(),
            r matches Ok(s) ==> signed_as(s, *self, kind, path@, nonce, body@),
            r matches Err(e) ==> e is Configuration,
    {
        match (&self.api_key, &self.secret_key) {
            (Some(key), Some(secret)) => {
                if key.unicode_len() == 0 || secret.unicode_len() == 0 {
                    Err(ClientError::Configuration)
                } else {
                    Ok(sign(key.as_str(), secret.as_str(), kind, path, nonce, body))
                }
            },
            _ => Err(ClientError::Configuration),
        }
    }
}

} // verus!
