//! The entities of a ledger and the metadata that every one of them carries.
//!
//! Only stored entities are described here: each has the identifier that it
//! was given when it entered the ledger, and the metadata that orders its
//! versions when two copies of a ledger are reconciled.

use vstd::prelude::*;

verus! {

/// Identifier of one copy of the ledger, one per device.
pub type InstanceId = u64;

/// A point in time, in seconds since the start of 1970 in UTC.
pub type Timestamp = i64;

/// Identifier of an entity: the instance that created it and the number that
/// this instance gave it. No two instances ever hand out the same identifier.
#[derive(Debug, Clone, Copy, PartialEq, Eq, Structural, Hash, PartialOrd, Ord)]
pub struct Id {
    pub instance: InstanceId,
    pub serial: u64,
}

/// Whether money of a category comes in or goes out.
#[derive(Debug, Clone, Copy, PartialEq, Eq, Structural, Hash, PartialOrd, Ord)]
pub enum CategoryType {
    Income,
    Outcome,
}

/// Provenance and version of an entity.
#[derive(Debug, Clone, Copy, PartialEq, Eq, Structural)]
pub struct MetaInfo {
    /// The instance that wrote this version.
    pub instance_id: InstanceId,
    /// When the entity was created.
    pub created_at: Timestamp,
    /// When this version was written.
    pub modified_at: Timestamp,
    /// When the entity was removed, if it was.
    pub deleted_at: Option<Timestamp>,
}

/// An account. Its balance is derived from its transactions.
#[derive(Debug, PartialEq, Eq)]
pub struct Account {
    pub id: Id,
    pub name: String,
    pub balance: isize,
    pub meta_info: MetaInfo,
}

/// A category of transactions.
#[derive(Debug, PartialEq, Eq)]
pub struct Category {
    pub id: Id,
    pub name: String,
    pub category_type: CategoryType,
    pub meta_info: MetaInfo,
}

/// A spending plan: a limit on what goes out under one category.
#[derive(Debug, PartialEq, Eq)]
pub struct Plan {
    pub id: Id,
    pub category_id: Id,
    pub name: String,
    pub amount_limit: isize,
    pub meta_info: MetaInfo,
}

/// A transaction: an amount that enters or leaves an account.
///
/// The two transactions that make up a transfer between accounts carry the
/// same value in `transfer`; any other transaction carries none.
#[derive(Debug, PartialEq, Eq)]
pub struct Transaction {
    pub id: Id,
    pub timestamp: Timestamp,
    pub description: String,
    pub account_id: Id,
    pub category_id: Id,
    pub amount: isize,
    pub transfer: Option<Id>,
    pub meta_info: MetaInfo,
}

impl CategoryType {
    /// The amount with the sign that this type asks for: not negative for
    /// income, not positive for outcome.
    pub open spec fn signed(self, amount: int) -> int {
        let size = if amount < 0 {
            -amount
        } else {
            amount
        };
        match self {
            CategoryType::Income => size,
            CategoryType::Outcome => -size,
        }
    }

    /// Gives the amount the sign that this type asks for.
    pub fn normalize(self, amount: isize) -> (normalized: isize)
        requires
            amount > isize::MIN,
        ensures
            normalized == self.signed(amount as int),
    {
        let size = if amount < 0 {
            -amount
        } else {
            amount
        };
        match self {
            CategoryType::Income => size,
            CategoryType::Outcome => -size,
        }
    }
}

impl MetaInfo {
    /// The metadata of an entity that `instance_id` creates at `created_at`.
    pub open spec fn created(instance_id: InstanceId, created_at: Timestamp) -> MetaInfo {
        MetaInfo { instance_id, created_at, modified_at: created_at, deleted_at: None }
    }

    /// The metadata of an entity that `instance_id` creates at `created_at`.
    pub fn new(instance_id: InstanceId, created_at: Timestamp) -> (meta: MetaInfo)
        ensures
            meta == MetaInfo::created(instance_id, created_at),
    {
        MetaInfo { instance_id, created_at, modified_at: created_at, deleted_at: None }
    }

    /// Whether the entity is removed.
    pub open spec fn is_removed(&self) -> bool {
        self.deleted_at is Some
    }

    /// Whether this version is newer than `other`: written later, or at the
    /// same time by an instance with a greater identifier.
    pub open spec fn is_newer_than(&self, other: &MetaInfo) -> bool {
        self.modified_at > other.modified_at || (self.modified_at == other.modified_at
            && self.instance_id > other.instance_id)
    }

    /// Whether this version is newer than `other`.
    pub fn newer_than(&self, other: &MetaInfo) -> (newer: bool)
        ensures
            newer == self.is_newer_than(other),
    {
        self.modified_at > other.modified_at || (self.modified_at == other.modified_at
            && self.instance_id > other.instance_id)
    }
}

/// What every stored entity has: an identifier and metadata.
pub trait Row: Sized {
    /// The identifier of the entity.
    spec fn row_id(&self) -> Id;

    /// The metadata of the entity.
    spec fn row_meta(&self) -> MetaInfo;

    /// The same entity with other metadata.
    spec fn with_meta(self, meta: MetaInfo) -> Self;

    /// Replacing the metadata changes the metadata and not the identifier.
    proof fn with_meta_replaces_meta(self, meta: MetaInfo)
        ensures
            self.with_meta(meta).row_id() == self.row_id(),
            self.with_meta(meta).row_meta() == meta,
    ;

    fn id(&self) -> (id: Id)
        ensures
            id == self.row_id(),
    ;

    fn meta(&self) -> (meta: MetaInfo)
        ensures
            meta == self.row_meta(),
    ;

    fn set_meta(&mut self, meta: MetaInfo)
        ensures
            *final(self) == old(self).with_meta(meta),
    ;

    fn duplicate(&self) -> (copy: Self)
        ensures
            copy == *self,
    ;
}

impl Row for Account {
    open spec fn row_id(&self) -> Id {
        self.id
    }

    open spec fn row_meta(&self) -> MetaInfo {
        self.meta_info
    }

    open spec fn with_meta(self, meta: MetaInfo) -> Self {
        Account { meta_info: meta, ..self }
    }

    proof fn with_meta_replaces_meta(self, meta: MetaInfo) {
    }

    fn id(&self) -> (id: Id) {
        self.id
    }

    fn meta(&self) -> (meta: MetaInfo) {
        self.meta_info
    }

    fn set_meta(&mut self, meta: MetaInfo) {
        self.meta_info = meta;
    }

    fn duplicate(&self) -> (copy: Self) {
        Account {
            id: self.id,
            name: self.name.clone(),
            balance: self.balance,
            meta_info: self.meta_info,
        }
    }
}

impl Row for Category {
    open spec fn row_id(&self) -> Id {
        self.id
    }

    open spec fn row_meta(&self) -> MetaInfo {
        self.meta_info
    }

    open spec fn with_meta(self, meta: MetaInfo) -> Self {
        Category { meta_info: meta, ..self }
    }

    proof fn with_meta_replaces_meta(self, meta: MetaInfo) {
    }

    fn id(&self) -> (id: Id) {
        self.id
    }

    fn meta(&self) -> (meta: MetaInfo) {
        self.meta_info
    }

    fn set_meta(&mut self, meta: MetaInfo) {
        self.meta_info = meta;
    }

    fn duplicate(&self) -> (copy: Self) {
        Category {
            id: self.id,
            name: self.name.clone(),
            category_type: self.category_type,
            meta_info: self.meta_info,
        }
    }
}

impl Row for Plan {
    open spec fn row_id(&self) -> Id {
        self.id
    }

    open spec fn row_meta(&self) -> MetaInfo {
        self.meta_info
    }

    open spec fn with_meta(self, meta: MetaInfo) -> Self {
        Plan { meta_info: meta, ..self }
    }

    proof fn with_meta_replaces_meta(self, meta: MetaInfo) {
    }

    fn id(&self) -> (id: Id) {
        self.id
    }

    fn meta(&self) -> (meta: MetaInfo) {
        self.meta_info
    }

    fn set_meta(&mut self, meta: MetaInfo) {
        self.meta_info = meta;
    }

    fn duplicate(&self) -> (copy: Self) {
        Plan {
            id: self.id,
            category_id: self.category_id,
            name: self.name.clone(),
            amount_limit: self.amount_limit,
            meta_info: self.meta_info,
        }
    }
}

impl Row for Transaction {
    open spec fn row_id(&self) -> Id {
        self.id
    }

    open spec fn row_meta(&self) -> MetaInfo {
        self.meta_info
    }

    open spec fn with_meta(self, meta: MetaInfo) -> Self {
        Transaction { meta_info: meta, ..self }
    }

    proof fn with_meta_replaces_meta(self, meta: MetaInfo) {
    }

    fn id(&self) -> (id: Id) {
        self.id
    }

    fn meta(&self) -> (meta: MetaInfo) {
        self.meta_info
    }

    fn set_meta(&mut self, meta: MetaInfo) {
        self.meta_info = meta;
    }

    fn duplicate(&self) -> (copy: Self) {
        Transaction {
            id: self.id,
            timestamp: self.timestamp,
            description: self.description.clone(),
            account_id: self.account_id,
            category_id: self.category_id,
            amount: self.amount,
            transfer: self.transfer,
            meta_info: self.meta_info,
        }
    }
}

} // verus!
