//! Transactional core of a copy-on-write entity store: a transaction
//! manager coordinating dual-arm versioned entities and a write-ahead
//! log, so that commits are atomic arm flips and interrupted aborts are
//! resumed on reopen.
use vstd::prelude::*;

pub mod cow;
pub mod table;
pub mod trans;
pub mod txmgr;
pub mod volume;
pub mod wal;

verus! {

/// Entity identifier, stable for an entity's lifetime.
pub type Eid = u64;

/// Transaction identifier, allocated monotonically by the WAL queue manager.
pub type Txid = u64;

/// Errors surfaced by the transactional core.
#[derive(Clone, Copy, Debug, PartialEq, Eq, Structural)]
pub enum Error {
    /// The thread already holds a transaction, or the entity is owned
    /// by another live transaction.
    InTrans,
    /// The operation referenced a transaction id with no live record.
    NoTrans,
    /// The entity does not exist.
    NotFound,
    /// The entity's storage is busy and refused the operation.
    InUse,
    /// A durable marker write failed.
    Io,
}

/// One of the two physical slots of a versioned entity.
#[derive(Clone, Copy, Debug, PartialEq, Eq, Structural)]
pub enum Arm {
    Left,
    Right,
}

impl Arm {
    /// The opposite arm.
    pub open spec fn spec_other(self) -> Arm {
        match self {
            Arm::Left => Arm::Right,
            Arm::Right => Arm::Left,
        }
    }

    /// Returns the opposite arm.
    pub fn other(self) -> (r: Arm)
        ensures
            r == self.spec_other(),
    {
        match self {
            Arm::Left => Arm::Right,
            Arm::Right => Arm::Left,
        }
    }
}

/// The action a transaction has staged for an entity.
#[derive(Clone, Copy, Debug, PartialEq, Eq, Structural)]
pub enum Action {
    New,
    Update,
    Delete,
}

/// The kind of entity recorded in the write-ahead log.
#[derive(Clone, Copy, Debug, PartialEq, Eq, Structural)]
pub enum EntityType {
    Cow,
    Direct,
}

/// What a transaction recorded about one touched entity: its kind, the
/// staged action, and the arm the action targets.
#[derive(Clone, Copy, Debug, PartialEq, Eq, Structural)]
pub struct EntInfo {
    pub etype: EntityType,
    pub action: Action,
    pub arm: Arm,
}

} // verus!
