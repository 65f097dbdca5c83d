//! The error type shared by every fallible operation of the library.

use vstd::prelude::*;

verus! {

/// What went wrong, as a closed set of kinds.
#[derive(Debug, Clone, Copy, PartialEq, Eq, Structural)]
pub enum ErrorKind {
    /// The storage root exists already.
    AlreadyInitialized,
    /// The storage root does not exist yet.
    NotInitialized,
    /// The key is missing, symmetric only, without a private part, or not usable for encryption.
    KeyInvalid,
    /// The master key could not be unwrapped.
    KeyUnavailable,
    /// A referenced entity does not exist, or is removed.
    EntityNotFound,
    /// An operation needs at least one account.
    NoAccounts,
    /// An operation needs at least one category.
    NoCategories,
    /// An entity with live dependents was removed without force.
    ReferentialConflict,
    /// A plan was attached to a category that is not an outcome category.
    PlanNeedsOutcomeCategory,
    /// A transfer was asked for from an account to itself.
    TransferWithinAccount,
    /// The remote could not be reached or did not answer properly.
    SyncTransportError,
    /// The remote snapshot could not be decrypted.
    SyncDecryptError,
    /// No passphrase was supplied.
    PassphraseRequired,
    /// The supplied passphrase was refused.
    PassphraseRejected,
    /// The month and year of a report do not describe a supported interval.
    InvalidInterval,
    /// The calendar date does not exist or is out of range.
    InvalidDate,
    /// A number does not fit where it has to go.
    ValueOutOfRange,
    /// The command line could not be understood.
    ParseError,
    /// An error that carries only a message.
    Other,
}

/// The fixed text that describes a kind of error.
pub open spec fn kind_text(kind: ErrorKind) -> Seq<char> {
    match kind {
        ErrorKind::AlreadyInitialized => "Application's storage is already initialized"@,
        ErrorKind::NotInitialized => "Application's storage is not initialized yet"@,
        ErrorKind::KeyInvalid => "Key is not suitable for data protection"@,
        ErrorKind::KeyUnavailable => "Key is not available"@,
        ErrorKind::EntityNotFound => "Entity does not exist"@,
        ErrorKind::NoAccounts => "No accounts exist yet"@,
        ErrorKind::NoCategories => "No categories exist yet"@,
        ErrorKind::ReferentialConflict => "Entity is still referenced"@,
        ErrorKind::PlanNeedsOutcomeCategory => "Plan requires an outcome category"@,
        ErrorKind::TransferWithinAccount => "Transfer requires two different accounts"@,
        ErrorKind::SyncTransportError => "Cannot exchange data with remote"@,
        ErrorKind::SyncDecryptError => "Cannot decrypt remote data"@,
        ErrorKind::PassphraseRequired => "Passphrase is required"@,
        ErrorKind::PassphraseRejected => "Passphrase is rejected"@,
        ErrorKind::InvalidInterval => "Invalid time interval"@,
        ErrorKind::InvalidDate => "Invalid date"@,
        ErrorKind::ValueOutOfRange => "Value is out of range"@,
        ErrorKind::ParseError => "Cannot properly parse supplied arguments"@,
        ErrorKind::Other => "Error"@,
    }
}

/// An error: its kind, a message, and optional extra information.
#[derive(Debug, PartialEq, Eq)]
pub struct Error {
    pub kind: ErrorKind,
    pub message: String,
    pub extra: Option<String>,
}

impl ErrorKind {
    /// The fixed text that describes this kind of error.
    pub fn text(self) -> (text: &'static str)
        ensures
            text@ == kind_text(self),
    {
        match self {
            ErrorKind::AlreadyInitialized => "Application's storage is already initialized",
            ErrorKind::NotInitialized => "Application's storage is not initialized yet",
            ErrorKind::KeyInvalid => "Key is not suitable for data protection",
            ErrorKind::KeyUnavailable => "Key is not available",
            ErrorKind::EntityNotFound => "Entity does not exist",
            ErrorKind::NoAccounts => "No accounts exist yet",
            ErrorKind::NoCategories => "No categories exist yet",
            ErrorKind::ReferentialConflict => "Entity is still referenced",
            ErrorKind::PlanNeedsOutcomeCategory => "Plan requires an outcome category",
            ErrorKind::TransferWithinAccount => "Transfer requires two different accounts",
            ErrorKind::SyncTransportError => "Cannot exchange data with remote",
            ErrorKind::SyncDecryptError => "Cannot decrypt remote data",
            ErrorKind::PassphraseRequired => "Passphrase is required",
            ErrorKind::PassphraseRejected => "Passphrase is rejected",
            ErrorKind::InvalidInterval => "Invalid time interval",
            ErrorKind::InvalidDate => "Invalid date",
            ErrorKind::ValueOutOfRange => "Value is out of range",
            ErrorKind::ParseError => "Cannot properly parse supplied arguments",
            ErrorKind::Other => "Error",
        }
    }
}

impl Error {
    /// An error of the given kind, with the kind's own text as its message.
    pub fn new(kind: ErrorKind) -> (error: Error)
        ensures
            error.kind == kind,
            error.message@ == kind_text(kind),
            error.extra is None,
    {
        Error { kind, message: kind.text().to_owned(), extra: None }
    }

    /// An error of the given kind with extra information.
    pub fn with_extra(kind: ErrorKind, extra: &str) -> (error: Error)
        ensures
            error.kind == kind,
            error.message@ == kind_text(kind),
            error.extra is Some,
            error.extra->0@ == extra@,
    {
        Error { kind, message: kind.text().to_owned(), extra: Some(extra.to_owned()) }
    }

    /// An error that carries only a message.
    pub fn from_message(msg: &str) -> (error: Error)
        ensures
            error.kind == ErrorKind::Other,
            error.message@ == msg@,
            error.extra is None,
    {
        Error { kind: ErrorKind::Other, message: msg.to_owned(), extra: None }
    }

    /// An error that carries a message and some extra information.
    pub fn from_message_with_extra(msg: &str, extra: &str) -> (error: Error)
        ensures
            error.kind == ErrorKind::Other,
            error.message@ == msg@,
            error.extra is Some,
            error.extra->0@ == extra@,
    {
        Error { kind: ErrorKind::Other, message: msg.to_owned(), extra: Some(extra.to_owned()) }
    }
}

} // verus!
