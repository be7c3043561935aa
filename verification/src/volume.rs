//! The storage collaborator, modeled as an in-memory volume.
//!
//! The core consumes storage through a narrow interface: persist an
//! entity's arm, discard a staged arm, flip the durable selector, and keep
//! the write-ahead-log queue. Failure injection (`fail_ids`, `wal_fail`)
//! stands for the I/O errors a physical backend can raise, so the
//! commit-failure and interrupted-abort paths are reachable.
use vstd::prelude::*;

use crate::table::Table;
use crate::wal::WalRec;
use crate::{Action, Arm, Eid, EntInfo, Error};

verus! {

/// The durable record of one entity: both slots plus the committed
/// selector. `active` is `None` until a commit's flip is recorded.
#[derive(Clone, Copy, Debug)]
pub struct VolEnt {
    pub left: Option<u64>,
    pub right: Option<u64>,
    pub active: Option<Arm>,
}

/// The slot of a durable record named by an arm.
pub open spec fn slot_of(e: VolEnt, arm: Arm) -> Option<u64> {
    match arm {
        Arm::Left => e.left,
        Arm::Right => e.right,
    }
}

/// A record with one slot overwritten.
pub open spec fn with_slot(e: VolEnt, arm: Arm, val: u64) -> VolEnt {
    match arm {
        Arm::Left => VolEnt { left: Some(val), right: e.right, active: e.active },
        Arm::Right => VolEnt { left: e.left, right: Some(val), active: e.active },
    }
}

/// The durably visible value of an entity: the active slot of its
/// record, if a committed selector exists at all.
pub open spec fn visible_of(d: Map<u64, VolEnt>, id: Eid) -> Option<u64> {
    if d.dom().contains(id) {
        match d[id].active {
            Some(a) => slot_of(d[id], a),
            None => None,
        }
    } else {
        None
    }
}

/// What a persist does to the stored records: it never creates a
/// committed selector and never overwrites the currently active slot.
pub open spec fn persist_spec(d: Map<u64, VolEnt>, id: Eid, arm: Arm, val: u64) -> Map<u64, VolEnt> {
    if !d.dom().contains(id) {
        d.insert(id, with_slot(VolEnt { left: None, right: None, active: None }, arm, val))
    } else if d[id].active == Some(arm) {
        d
    } else {
        d.insert(id, with_slot(d[id], arm, val))
    }
}

/// The in-memory volume: entity records, the WAL queue, and the
/// failure-injection knobs standing for storage errors.
#[derive(Debug)]
pub struct Volume {
    /// Durable entity records, keyed by entity id.
    pub data: Table<VolEnt>,
    /// The write-ahead-log queue, keyed by transaction id.
    pub wals: Table<WalRec>,
    /// Entities whose storage refuses writes and discards.
    pub fail_ids: Vec<u64>,
    /// When set, durable marker writes fail.
    pub wal_fail: bool,
}

impl Volume {
    /// Both tables are well formed.
    pub open spec fn wf(&self) -> bool {
        self.data.wf() && self.wals.wf()
    }

    /// Whether writes to this entity are set to fail.
    pub open spec fn fails(&self, id: Eid) -> bool {
        self.fail_ids@.contains(id)
    }

    /// An empty volume with no injected failures.
    pub fn new() -> (r: Volume)
        ensures
            r.wf(),
            r.data@ == Map::<u64, VolEnt>::empty(),
            r.wals@ == Map::<u64, WalRec>::empty(),
            forall|id: Eid| !r.fails(id),
            !r.wal_fail,
    {
        Volume { data: Table::new(), wals: Table::new(), fail_ids: Vec::new(), wal_fail: false }
    }

    /// Inject a storage failure for one entity.
    pub fn set_fail(&mut self, id: Eid)
        ensures
            final(self).wf() == old(self).wf(),
            final(self).data == old(self).data,
            final(self).wals == old(self).wals,
            final(self).wal_fail == old(self).wal_fail,
            forall|x: u64| final(self).fails(x) <==> old(self).fails(x) || x == id,
    {
        let ghost pre = self.fail_ids@;
        self.fail_ids.push(id);
        proof {
            assert forall|x: u64| self.fails(x) <==> old(self).fails(x) || x == id by {
                if self.fail_ids@.contains(x) && x != id {
                    let w = choose|w: int| 0 <= w < self.fail_ids@.len() && self.fail_ids@[w] == x;
                    assert(pre[w] == x);
                }
                if pre.contains(x) {
                    let w = choose|w: int| 0 <= w < pre.len() && pre[w] == x;
                    assert(self.fail_ids@[w] == x);
                }
                assert(self.fail_ids@[self.fail_ids@.len() - 1] == id);
            }
        }
    }

    /// Drop every injected storage failure.
    pub fn clear_fails(&mut self)
        ensures
            final(self).wf() == old(self).wf(),
            final(self).data == old(self).data,
            final(self).wals == old(self).wals,
            final(self).wal_fail == old(self).wal_fail,
            forall|x: u64| !final(self).fails(x),
    {
        self.fail_ids = Vec::new();
    }

    /// Set or clear the marker-write failure knob.
    pub fn set_wal_fail(&mut self, b: bool)
        ensures
            final(self).wf() == old(self).wf(),
            final(self).data == old(self).data,
            final(self).wals == old(self).wals,
            final(self).fail_ids == old(self).fail_ids,
            final(self).wal_fail == b,
    {
        self.wal_fail = b;
    }

    /// Whether writes to this entity are set to fail.
    pub fn fail_hit(&self, id: Eid) -> (r: bool)
        ensures
            r == self.fails(id),
    {
        let mut i: usize = 0;
        while i < self.fail_ids.len()
            invariant
                0 <= i <= self.fail_ids@.len(),
                forall|j: int| 0 <= j < i ==> self.fail_ids@[j] != id,
            decreases self.fail_ids@.len() - i,
        {
            if self.fail_ids[i] == id {
                return true;
            }
            i += 1;
        }
        false
    }

    /// The stored record of an entity, if any.
    pub fn ent(&self, id: Eid) -> (r: Option<VolEnt>)
        requires
            self.wf(),
        ensures
            r == if self.data@.dom().contains(id) {
                Some(self.data@[id])
            } else {
                None::<VolEnt>
            },
    {
        match self.data.get(id) {
            Some(e) => Some(*e),
            None => None,
        }
    }

    /// Durably write one arm of an entity. Never touches the committed
    /// selector, and never overwrites the slot the selector points at,
    /// so the durably visible value is unchanged.
    pub fn persist(&mut self, id: Eid, arm: Arm, val: u64) -> (r: Result<(), Error>)
        requires
            old(self).wf(),
        ensures
            final(self).wf(),
            final(self).wals == old(self).wals,
            final(self).fail_ids == old(self).fail_ids,
            final(self).wal_fail == old(self).wal_fail,
            r is Ok <==> !old(self).fails(id),
            r is Err ==> r == Err::<(), Error>(Error::InUse) && final(self).data == old(self).data,
            r is Ok ==> final(self).data@ == persist_spec(old(self).data@, id, arm, val),
            forall|x: u64| visible_of(final(self).data@, x) == visible_of(old(self).data@, x),
    {
        if self.fail_hit(id) {
            return Err(Error::InUse);
        }
        let rec = match self.ent(id) {
            None => Some(VolEnt {
                left: if matches!(arm, Arm::Left) { Some(val) } else { None },
                right: if matches!(arm, Arm::Right) { Some(val) } else { None },
                active: None,
            }),
            Some(e) => {
                let overwrite_active = match e.active {
                    Some(a) => a == arm,
                    None => false,
                };
                if overwrite_active {
                    None
                } else {
                    Some(match arm {
                        Arm::Left => VolEnt { left: Some(val), right: e.right, active: e.active },
                        Arm::Right => VolEnt { left: e.left, right: Some(val), active: e.active },
                    })
                }
            },
        };
        if let Some(r2) = rec {
            self.data.insert(id, r2);
        }
        proof {
            assert(self.data@ == persist_spec(old(self).data@, id, arm, val));
            assert forall|x: u64|
                visible_of(self.data@, x) == visible_of(old(self).data@, x) by {
                if x != id {
                    assert(self.data@.dom().contains(x) == old(self).data@.dom().contains(x));
                }
            }
        }
        Ok(())
    }

    /// Record the committed selector of an entity; a no-op for an
    /// unknown entity.
    pub fn set_active(&mut self, id: Eid, arm: Arm)
        requires
            old(self).wf(),
        ensures
            final(self).wf(),
            final(self).wals == old(self).wals,
            final(self).fail_ids == old(self).fail_ids,
            final(self).wal_fail == old(self).wal_fail,
            final(self).data@ == if old(self).data@.dom().contains(id) {
                old(self).data@.insert(id, VolEnt {
                    left: old(self).data@[id].left,
                    right: old(self).data@[id].right,
                    active: Some(arm),
                })
            } else {
                old(self).data@
            },
    {
        if let Some(e) = self.ent(id) {
            self.data.insert(id, VolEnt { left: e.left, right: e.right, active: Some(arm) });
        }
    }

    /// Remove an entity's record outright; a no-op for an unknown entity.
    pub fn remove_ent(&mut self, id: Eid)
        requires
            old(self).wf(),
        ensures
            final(self).wf(),
            final(self).wals == old(self).wals,
            final(self).fail_ids == old(self).fail_ids,
            final(self).wal_fail == old(self).wal_fail,
            final(self).data@ == old(self).data@.remove(id),
    {
        self.data.remove(id);
    }

    /// Discard what a transaction staged durably for one entity, without
    /// ever touching a committed value: a never-committed record is
    /// dropped, a staged slot that is not the active one is cleared.
    /// Idempotent, so an interrupted abort can be replayed over it.
    pub fn discard(&mut self, id: Eid, e: EntInfo) -> (r: Result<(), Error>)
        requires
            old(self).wf(),
        ensures
            final(self).wf(),
            final(self).wals == old(self).wals,
            final(self).fail_ids == old(self).fail_ids,
            final(self).wal_fail == old(self).wal_fail,
            r is Ok <==> !old(self).fails(id),
            r is Err ==> r == Err::<(), Error>(Error::InUse) && final(self).data == old(self).data,
            forall|x: u64| x != id ==> old(self).data@.dom().contains(x)
                == final(self).data@.dom().contains(x)
                && (old(self).data@.dom().contains(x) ==> final(self).data@[x] == old(self).data@[x]),
            forall|x: u64| visible_of(final(self).data@, x) == visible_of(old(self).data@, x),
    {
        if self.fail_hit(id) {
            return Err(Error::InUse);
        }
        match e.action {
            Action::New => {
                if let Some(rec) = self.ent(id) {
                    if matches!(rec.active, None) {
                        self.data.remove(id);
                    }
                }
            },
            Action::Update => {
                if let Some(rec) = self.ent(id) {
                    let keep = match rec.active {
                        Some(a) => a == e.arm,
                        None => false,
                    };
                    if !keep {
                        self.data.insert(id, match e.arm {
                            Arm::Left => VolEnt { left: None, right: rec.right, active: rec.active },
                            Arm::Right => VolEnt { left: rec.left, right: None, active: rec.active },
                        });
                    }
                }
            },
            Action::Delete => {},
        }
        Ok(())
    }

    /// Durably write a WAL record, replacing any record of its
    /// transaction.
    pub fn wal_put(&mut self, rec: WalRec)
        requires
            old(self).wf(),
        ensures
            final(self).wf(),
            final(self).data == old(self).data,
            final(self).fail_ids == old(self).fail_ids,
            final(self).wal_fail == old(self).wal_fail,
            final(self).wals@ == old(self).wals@.insert(rec.txid, rec),
    {
        let t = rec.txid;
        self.wals.insert(t, rec);
    }
}

} // verus!
