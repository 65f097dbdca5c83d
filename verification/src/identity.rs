//! The key that protects the ledger: what makes one fit.

use vstd::prelude::*;

use crate::error::{Error, ErrorKind};

verus! {

/// What is known of a key.
#[derive(Debug, Clone, Copy, PartialEq, Eq, Structural)]
pub struct KeyFacts {
    /// The key is asymmetric.
    pub asymmetric: bool,
    /// The private part of the key is at hand.
    pub has_private_key: bool,
    /// The key may be used to encrypt and to decrypt.
    pub can_encrypt: bool,
}

/// Whether a key is fit to protect the ledger: it exists, is asymmetric,
/// has its private part, and may be used to encrypt.
pub open spec fn is_fit(key: Option<KeyFacts>) -> bool {
    key is Some && key->0.asymmetric && key->0.has_private_key && key->0.can_encrypt
}

/// Whether a key is fit to protect the ledger.
///
/// Fails with `KeyInvalid` where the key is missing, is not asymmetric,
/// lacks its private part, or may not be used to encrypt.
pub fn check_key(key: Option<KeyFacts>) -> (result: Result<(), Error>)
    ensures
        is_fit(key) ==> result is Ok,
        !is_fit(key) ==> result is Err && result->Err_0.kind == ErrorKind::KeyInvalid,
{
    match key {
        Some(facts) => {
            if facts.asymmetric && facts.has_private_key && facts.can_encrypt {
                Ok(())
            } else {
                Err(Error::new(ErrorKind::KeyInvalid))
            }
        },
        None => Err(Error::new(ErrorKind::KeyInvalid)),
    }
}

} // verus!
