//! Synchronization with the remote.

use vstd::prelude::*;

use crate::error::{Error, ErrorKind};

verus! {

/// The command that synchronizes with the remote.
pub struct Sync;

/// The parameters of the command.
#[derive(Debug, PartialEq, Eq)]
pub struct Parameters {
    /// The new address of the remote, if it is to be changed.
    pub remote: Option<String>,
    /// Do not synchronize after the address was changed.
    pub no_sync: bool,
}

/// The words with which the passphrase is asked for.
#[derive(Debug, Clone, Copy, PartialEq, Eq)]
pub struct PassphraseRequest {
    pub description: &'static str,
    pub prompt: &'static str,
    pub required: &'static str,
}

impl Sync {
    /// The parameters that the command line gives. Where it does not say
    /// whether to synchronize, it is done.
    pub fn parse_args(remote: Option<String>, no_sync: Option<bool>) -> (parameters: Parameters)
        ensures
            parameters.remote == remote,
            parameters.no_sync == (no_sync == Some(true)),
    {
        let no_sync = match no_sync {
            Some(no_sync) => no_sync,
            None => false,
        };
        Parameters { remote, no_sync }
    }

    /// Whether the command synchronizes: it does unless told otherwise.
    /// Changing the address of the remote by itself synchronizes nothing.
    pub fn synchronizes(parameters: &Parameters) -> (synchronizes: bool)
        ensures
            synchronizes == !parameters.no_sync,
    {
        !parameters.no_sync
    }

    /// The words with which the passphrase is asked for.
    pub fn passphrase_request() -> (request: PassphraseRequest)
        ensures
            request.description@ == "Please enter the passphrase to unlock sync storage"@,
            request.prompt@ == "Passphrase:"@,
            request.required@ == "Passphrase is required"@,
    {
        PassphraseRequest {
            description: "Please enter the passphrase to unlock sync storage",
            prompt: "Passphrase:",
            required: "Passphrase is required",
        }
    }

    /// Whether a passphrase was entered at all.
    ///
    /// Fails with `PassphraseRequired` for the empty passphrase.
    pub fn check_passphrase(passphrase: &str) -> (result: Result<(), Error>)
        ensures
            passphrase@.len() > 0 ==> result is Ok,
            passphrase@.len() == 0 ==> result is Err && result->Err_0.kind
                == ErrorKind::PassphraseRequired,
    {
        if passphrase.is_empty() {
            Err(Error::new(ErrorKind::PassphraseRequired))
        } else {
            Ok(())
        }
    }
}

} // verus!
