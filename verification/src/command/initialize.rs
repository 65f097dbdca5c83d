//! Initialization of the storage, and the check that it was done.

use vstd::prelude::*;

use crate::error::{Error, ErrorKind};
use crate::identity::{check_key, is_fit, KeyFacts};

verus! {

/// The command that initializes the storage.
pub struct Initialize;

/// What initialization has to give: the error `AlreadyInitialized` with the
/// root as extra information where the root exists, and leave to go on where
/// it does not.
pub open spec fn may_initialize(exists: bool, root: Seq<char>, result: Result<(), Error>) -> bool {
    if exists {
        result is Err && result->Err_0.kind == ErrorKind::AlreadyInitialized && result->Err_0.extra
            is Some && result->Err_0.extra->0@ == root
    } else {
        result is Ok
    }
}

/// What opening has to give: leave to go on where the root exists, and the
/// error `NotInitialized` with the root as extra information where it does not.
pub open spec fn may_open(exists: bool, root: Seq<char>, result: Result<(), Error>) -> bool {
    if exists {
        result is Ok
    } else {
        result is Err && result->Err_0.kind == ErrorKind::NotInitialized && result->Err_0.extra
            is Some && result->Err_0.extra->0@ == root
    }
}

/// What the checks before an initialization have to give: the error
/// `AlreadyInitialized` where the root exists, otherwise the error
/// `KeyInvalid` where the key is not fit, and leave to go on where the root
/// does not exist and the key is fit.
pub open spec fn may_create(exists: bool, root: Seq<char>, key: Option<KeyFacts>, result: Result<(), Error>) -> bool {
    if exists {
        may_initialize(exists, root, result)
    } else if !is_fit(key) {
        result is Err && result->Err_0.kind == ErrorKind::KeyInvalid
    } else {
        result is Ok
    }
}

impl Initialize {
    /// Whether anything may be created: the storage must not be initialized
    /// yet, and the key must be fit before any part of the storage is made.
    pub fn ensure_ready(exists: bool, root: &str, key: Option<KeyFacts>) -> (result: Result<(), Error>)
        ensures
            may_create(exists, root@, key, result),
    {
        match Self::ensure_fresh(exists, root) {
            Ok(()) => check_key(key),
            Err(error) => Err(error),
        }
    }

    /// Whether the storage may be initialized. That its root exists is the
    /// one sign that it was initialized before.
    pub fn ensure_fresh(exists: bool, root: &str) -> (result: Result<(), Error>)
        ensures
            may_initialize(exists, root@, result),
    {
        if exists {
            Err(Error::with_extra(ErrorKind::AlreadyInitialized, root))
        } else {
            Ok(())
        }
    }
}

/// Whether the storage may be opened. That its root exists is the one sign
/// that it was initialized.
pub fn ensure_location(exists: bool, root: &str) -> (result: Result<(), Error>)
    ensures
        may_open(exists, root@, result),
{
    if exists {
        Ok(())
    } else {
        Err(Error::with_extra(ErrorKind::NotInitialized, root))
    }
}

} // verus!
