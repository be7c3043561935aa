//! The dual-arm copy-on-write entity.
//!
//! An entity keeps up to two physical values, tagged Left and Right; the
//! `active` selector names the one visible to readers. A write stages the
//! other arm; only completing a commit flips the selector, so readers
//! outside the owning transaction keep seeing the last committed value.
use vstd::prelude::*;

use crate::{Action, Arm, Txid};

verus! {

/// The staging record of an entity owned by an in-flight transaction.
#[derive(Clone, Copy, Debug)]
pub struct Staged {
    /// The owning transaction.
    pub txid: Txid,
    /// What the transaction intends for the entity.
    pub action: Action,
    /// The arm the staged value sits in (for a delete, the active arm).
    pub arm: Arm,
}

/// A dual-arm versioned entity holding a plain value per arm.
#[derive(Clone, Copy, Debug)]
pub struct Cow {
    /// The arm visible to readers.
    pub active: Arm,
    /// The Left slot's value, if any was ever written there.
    pub left: Option<u64>,
    /// The Right slot's value, if any was ever written there.
    pub right: Option<u64>,
    /// Whether the active arm holds a committed value; false for an
    /// entity created by a still-open transaction.
    pub committed: bool,
    /// The in-flight staging record, if a transaction owns the entity.
    pub staged: Option<Staged>,
}

impl Cow {
    /// The value in a given arm.
    pub open spec fn slot(self, arm: Arm) -> Option<u64> {
        match arm {
            Arm::Left => self.left,
            Arm::Right => self.right,
        }
    }

    /// The value a reader sees: whatever the active arm holds.
    pub open spec fn read_val(self) -> Option<u64> {
        self.slot(self.active)
    }

    /// Whether the given transaction has staged this entity.
    pub open spec fn staged_by(self, txid: Txid) -> bool {
        match self.staged {
            Some(s) => s.txid == txid,
            None => false,
        }
    }

    /// A fresh entity created by `txid`: first write lands on the Right
    /// arm, which is also the arm shown to the creating transaction.
    pub open spec fn spec_fresh(txid: Txid, val: u64) -> Cow {
        Cow {
            active: Arm::Right,
            left: None,
            right: Some(val),
            committed: false,
            staged: Some(Staged { txid, action: Action::New, arm: Arm::Right }),
        }
    }

    /// The entity after its commit completes: the selector flips to the
    /// just-written arm and the staging record is dropped.
    pub open spec fn spec_flipped(self, arm: Arm) -> Cow {
        Cow { active: arm, left: self.left, right: self.right, committed: true, staged: None }
    }

    /// The entity with a value staged in `arm` by `txid`.
    pub open spec fn spec_staged(self, txid: Txid, action: Action, arm: Arm, val: u64) -> Cow {
        Cow {
            active: self.active,
            left: if arm == Arm::Left { Some(val) } else { self.left },
            right: if arm == Arm::Right { Some(val) } else { self.right },
            committed: self.committed,
            staged: Some(Staged { txid, action, arm }),
        }
    }

    /// The entity with only its staging record dropped.
    pub open spec fn spec_unstaged(self) -> Cow {
        Cow {
            active: self.active,
            left: self.left,
            right: self.right,
            committed: self.committed,
            staged: None,
        }
    }

    /// Returns the visible (active-arm) value.
    pub fn read(&self) -> (r: Option<u64>)
        ensures
            r == self.read_val(),
    {
        match self.active {
            Arm::Left => self.left,
            Arm::Right => self.right,
        }
    }
}

} // verus!
