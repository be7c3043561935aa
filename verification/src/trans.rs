//! One transaction's in-memory record.
//!
//! A transaction remembers, per touched entity, the staged action and the
//! arm it targets. Commit persists every staged arm, then — only after the
//! commit marker is durable — `complete_commit` flips each entity's
//! selector, so a crash in between leaves every reader on the old arm.
//! Abort discards the staged arms and must stay safe over a partially
//! staged set.
use vstd::prelude::*;

use crate::cow::Cow;
use crate::table::Table;
use crate::volume::{slot_of, visible_of, VolEnt, Volume};
use crate::wal::{WalRec, WalState};
use crate::{Action, Arm, Eid, EntInfo, EntityType, Error, Txid};

verus! {

/// The lifecycle state of a live transaction record; committing or
/// aborting consumes the record, so only the open states are held.
#[derive(Clone, Copy, Debug, PartialEq, Eq, Structural)]
pub enum TxState {
    Created,
    Active,
}

/// The committed value a reader outside the owning transaction sees for
/// an entity: the active arm of a committed container, nothing else.
pub open spec fn committed_read_of(m: Map<u64, Cow>, x: u64) -> Option<u64> {
    if m.dom().contains(x) && m[x].committed {
        m[x].slot(m[x].active)
    } else {
        None
    }
}

/// A transaction: its id, the thread that opened it, and the ordered
/// record of every entity it touched.
#[derive(Debug)]
pub struct Trans {
    pub txid: Txid,
    pub thread: u64,
    pub state: TxState,
    pub entries: Table<EntInfo>,
}

impl Trans {
    /// A fresh transaction record with no touched entities.
    pub fn new(txid: Txid, thread: u64) -> (r: Trans)
        ensures
            r.txid == txid,
            r.thread == thread,
            r.state == TxState::Created,
            r.entries@ == Map::<u64, EntInfo>::empty(),
            r.entries.kvs() == Seq::<(u64, EntInfo)>::empty(),
            r.entries.wf(),
    {
        Trans { txid, thread, state: TxState::Created, entries: Table::new() }
    }

    /// Start the transaction.
    pub fn begin_trans(&mut self)
        ensures
            *final(self) == (Trans { state: TxState::Active, ..*old(self) }),
    {
        self.state = TxState::Active;
    }

    /// Record a touched entity; touching the same entity again replaces
    /// its recorded action with the most recent intent.
    pub fn add_entity(&mut self, id: Eid, etype: EntityType, action: Action, arm: Arm)
        requires
            old(self).entries.wf(),
        ensures
            final(self).txid == old(self).txid,
            final(self).thread == old(self).thread,
            final(self).state == old(self).state,
            final(self).entries.wf(),
            final(self).entries@ == old(self).entries@.insert(id, EntInfo { etype, action, arm }),
    {
        self.entries.insert(id, EntInfo { etype, action, arm });
    }

    /// The WAL record describing this transaction's touched entities.
    pub fn get_wal(&self) -> (r: WalRec)
        requires
            self.entries.wf(),
        ensures
            r.txid == self.txid,
            r.entries@ == self.entries@,
            r.entries.kvs() == self.entries.kvs(),
            r.entries.wf(),
            r.state == WalState::Begin,
    {
        WalRec { txid: self.txid, entries: self.entries.duplicate(), state: WalState::Begin }
    }

    /// Durably persist every staged arm. Succeeds exactly when storage
    /// accepts every touched entity; any single refusal fails the whole
    /// commit with nothing made visible, since no selector is flipped
    /// here. Deletions are only validated; they become durable in
    /// `complete_commit`, after the commit marker.
    pub fn commit(&self, cows: &Table<Cow>, vol: &mut Volume) -> (r: Result<WalRec, Error>)
        requires
            self.entries.wf(),
            cows.wf(),
            old(vol).wf(),
        ensures
            final(vol).wf(),
            final(vol).wals == old(vol).wals,
            final(vol).fail_ids == old(vol).fail_ids,
            final(vol).wal_fail == old(vol).wal_fail,
            forall|x: u64| visible_of(final(vol).data@, x) == visible_of(old(vol).data@, x),
            r is Ok <==> forall|j: int| 0 <= j < self.entries.kvs().len()
                ==> !old(vol).fails((#[trigger] self.entries.kvs()[j]).0),
            r is Err ==> r == Err::<WalRec, Error>(Error::InUse)
                && final(vol).data == old(vol).data,
            forall|x: u64| !self.entries@.dom().contains(x)
                ==> final(vol).data@.dom().contains(x) == old(vol).data@.dom().contains(x)
                    && (old(vol).data@.dom().contains(x)
                        ==> final(vol).data@[x] == old(vol).data@[x]),
            r is Ok ==> {
                let w = r->Ok_0;
                w.txid == self.txid && w.entries@ == self.entries@ && w.entries.wf()
                    && w.entries.kvs() == self.entries.kvs()
            },
            r is Ok ==> forall|j: int| 0 <= j < self.entries.kvs().len() ==> {
                let id = (#[trigger] self.entries.kvs()[j]).0;
                let e = self.entries.kvs()[j].1;
                (e.action != Action::Delete && cows@.dom().contains(id)
                    && cows@[id].slot(e.arm) is Some
                    && (!old(vol).data@.dom().contains(id)
                        || old(vol).data@[id].active != Some(e.arm)))
                    ==> final(vol).data@.dom().contains(id)
                        && slot_of(final(vol).data@[id], e.arm) == cows@[id].slot(e.arm)
            },
    {
        let n = self.entries.len();
        let mut i: usize = 0;
        // validate: storage must accept every touched entity
        while i < n
            invariant
                self.entries.wf(),
                vol.wf(),
                *vol == *old(vol),
                n == self.entries.kvs().len(),
                0 <= i <= n,
                forall|j: int| 0 <= j < i ==> !vol.fails((#[trigger] self.entries.kvs()[j]).0),
            decreases n - i,
        {
            if vol.fail_hit(self.entries.key_at(i)) {
                return Err(Error::InUse);
            }
            i += 1;
        }
        // persist every staged arm
        i = 0;
        while i < n
            invariant
                self.entries.wf(),
                cows.wf(),
                vol.wf(),
                n == self.entries.kvs().len(),
                0 <= i <= n,
                vol.wals == old(vol).wals,
                vol.fail_ids == old(vol).fail_ids,
                vol.wal_fail == old(vol).wal_fail,
                forall|j: int| 0 <= j < n ==> !vol.fails((#[trigger] self.entries.kvs()[j]).0),
                forall|x: u64| visible_of(vol.data@, x) == visible_of(old(vol).data@, x),
                forall|x: u64| !self.entries@.dom().contains(x)
                    ==> vol.data@.dom().contains(x) == old(vol).data@.dom().contains(x)
                        && (old(vol).data@.dom().contains(x)
                            ==> vol.data@[x] == old(vol).data@[x]),
                forall|j: int| i <= j < n
                    ==> vol.data@.dom().contains((#[trigger] self.entries.kvs()[j]).0)
                        == old(vol).data@.dom().contains(self.entries.kvs()[j].0)
                        && (old(vol).data@.dom().contains(self.entries.kvs()[j].0)
                            ==> vol.data@[self.entries.kvs()[j].0]
                                == old(vol).data@[self.entries.kvs()[j].0]),
                forall|j: int| 0 <= j < i ==> {
                    let id = (#[trigger] self.entries.kvs()[j]).0;
                    let e = self.entries.kvs()[j].1;
                    (e.action != Action::Delete && cows@.dom().contains(id)
                        && cows@[id].slot(e.arm) is Some
                        && (!old(vol).data@.dom().contains(id)
                            || old(vol).data@[id].active != Some(e.arm)))
                        ==> vol.data@.dom().contains(id)
                            && slot_of(vol.data@[id], e.arm) == cows@[id].slot(e.arm)
                },
            decreases n - i,
        {
            let id = self.entries.key_at(i);
            let e = *self.entries.val_at(i);
            let ghost prev = *vol;
            let mut wrote = false;
            if !matches!(e.action, Action::Delete) {
                if let Some(c) = cows.get(id) {
                    let val = match e.arm {
                        Arm::Left => c.left,
                        Arm::Right => c.right,
                    };
                    if let Some(v) = val {
                        match vol.persist(id, e.arm, v) {
                            Ok(_) => {
                                wrote = true;
                            },
                            Err(err) => {
                                // unreachable: validation covered this entity
                                proof {
                                    assert(prev.fails(id));
                                    assert(false);
                                }
                                return Err(err);
                            },
                        }
                    }
                }
            }
            i += 1;
            proof {
                if wrote {
                    assert forall|j: int| 0 <= j < n && j != i - 1 implies
                        vol.data@.dom().contains((#[trigger] self.entries.kvs()[j]).0)
                            == prev.data@.dom().contains(self.entries.kvs()[j].0)
                            && (prev.data@.dom().contains(self.entries.kvs()[j].0)
                                ==> vol.data@[self.entries.kvs()[j].0]
                                    == prev.data@[self.entries.kvs()[j].0]) by {
                        if j < i - 1 {
                            assert(self.entries.kvs()[j].0 != id);
                        } else {
                            assert(self.entries.kvs()[j].0 != id);
                        }
                    }
                    assert forall|x: u64| !self.entries@.dom().contains(x) implies
                        vol.data@.dom().contains(x) == prev.data@.dom().contains(x)
                            && (prev.data@.dom().contains(x) ==> vol.data@[x] == prev.data@[x]) by {
                        self.entries.lemma_at(i - 1);
                        assert(x != id);
                    }
                }
            }
        }
        Ok(self.get_wal())
    }

    /// Make the commit visible: flip each surviving entity's selector to
    /// its just-written arm and finalize deletions, durably and in
    /// memory. Runs only after the commit marker is durable, and cannot
    /// fail.
    pub fn complete_commit(&self, cows: &mut Table<Cow>, vol: &mut Volume)
        requires
            self.entries.wf(),
            old(cows).wf(),
            old(vol).wf(),
        ensures
            final(cows).wf(),
            final(vol).wf(),
            final(vol).wals == old(vol).wals,
            final(vol).fail_ids == old(vol).fail_ids,
            final(vol).wal_fail == old(vol).wal_fail,
            forall|x: u64| #![trigger final(cows)@.dom().contains(x)]
                !self.entries@.dom().contains(x)
                ==> final(cows)@.dom().contains(x) == old(cows)@.dom().contains(x)
                    && (old(cows)@.dom().contains(x) ==> final(cows)@[x] == old(cows)@[x])
                    && final(vol).data@.dom().contains(x) == old(vol).data@.dom().contains(x)
                    && (old(vol).data@.dom().contains(x)
                        ==> final(vol).data@[x] == old(vol).data@[x]),
            forall|j: int| 0 <= j < self.entries.kvs().len() ==> {
                let id = (#[trigger] self.entries.kvs()[j]).0;
                let e = self.entries.kvs()[j].1;
                if e.action == Action::Delete {
                    (old(cows)@.dom().contains(id) && old(cows)@[id].staged_by(self.txid))
                        ==> !final(cows)@.dom().contains(id) && !final(vol).data@.dom().contains(id)
                } else {
                    (old(cows)@.dom().contains(id) && old(cows)@[id].staged_by(self.txid))
                        ==> final(cows)@.dom().contains(id)
                            && final(cows)@[id] == old(cows)@[id].spec_flipped(e.arm)
                            && (old(vol).data@.dom().contains(id)
                                ==> final(vol).data@.dom().contains(id)
                                    && final(vol).data@[id] == (VolEnt {
                                        left: old(vol).data@[id].left,
                                        right: old(vol).data@[id].right,
                                        active: Some(e.arm),
                                    }))
                }
            },
    {
        let n = self.entries.len();
        let mut i: usize = 0;
        while i < n
            invariant
                self.entries.wf(),
                cows.wf(),
                vol.wf(),
                n == self.entries.kvs().len(),
                0 <= i <= n,
                vol.wals == old(vol).wals,
                vol.fail_ids == old(vol).fail_ids,
                vol.wal_fail == old(vol).wal_fail,
                forall|x: u64| #![trigger cows@.dom().contains(x)]
                    !self.entries@.dom().contains(x)
                    ==> cows@.dom().contains(x) == old(cows)@.dom().contains(x)
                        && (old(cows)@.dom().contains(x) ==> cows@[x] == old(cows)@[x])
                        && vol.data@.dom().contains(x) == old(vol).data@.dom().contains(x)
                        && (old(vol).data@.dom().contains(x)
                            ==> vol.data@[x] == old(vol).data@[x]),
                forall|j: int| i <= j < n
                    ==> cows@.dom().contains((#[trigger] self.entries.kvs()[j]).0)
                        == old(cows)@.dom().contains(self.entries.kvs()[j].0)
                        && (old(cows)@.dom().contains(self.entries.kvs()[j].0)
                            ==> cows@[self.entries.kvs()[j].0]
                                == old(cows)@[self.entries.kvs()[j].0])
                        && vol.data@.dom().contains(self.entries.kvs()[j].0)
                            == old(vol).data@.dom().contains(self.entries.kvs()[j].0)
                        && (old(vol).data@.dom().contains(self.entries.kvs()[j].0)
                            ==> vol.data@[self.entries.kvs()[j].0]
                                == old(vol).data@[self.entries.kvs()[j].0]),
                forall|j: int| 0 <= j < i ==> {
                    let id = (#[trigger] self.entries.kvs()[j]).0;
                    let e = self.entries.kvs()[j].1;
                    if e.action == Action::Delete {
                        (old(cows)@.dom().contains(id) && old(cows)@[id].staged_by(self.txid))
                            ==> !cows@.dom().contains(id) && !vol.data@.dom().contains(id)
                    } else {
                        (old(cows)@.dom().contains(id) && old(cows)@[id].staged_by(self.txid))
                            ==> cows@.dom().contains(id)
                                && cows@[id] == old(cows)@[id].spec_flipped(e.arm)
                                && (old(vol).data@.dom().contains(id)
                                    ==> vol.data@.dom().contains(id)
                                        && vol.data@[id] == (VolEnt {
                                            left: old(vol).data@[id].left,
                                            right: old(vol).data@[id].right,
                                            active: Some(e.arm),
                                        }))
                    }
                },
            decreases n - i,
        {
            let id = self.entries.key_at(i);
            let e = *self.entries.val_at(i);
            proof {
                self.entries.lemma_at(i as int);
            }
            let staged_here = match cows.get(id) {
                Some(c) => match c.staged {
                    Some(s) => s.txid == self.txid,
                    None => false,
                },
                None => false,
            };
            let ghost prevc = cows@;
            let ghost prevd = vol.data@;
            proof {
                assert(self.entries@.dom().contains(id));
            }
            if staged_here {
                if matches!(e.action, Action::Delete) {
                    cows.remove(id);
                    vol.remove_ent(id);
                } else {
                    let c = *cows.get(id).unwrap();
                    cows.insert(id, Cow {
                        active: e.arm,
                        left: c.left,
                        right: c.right,
                        committed: true,
                        staged: None,
                    });
                    vol.set_active(id, e.arm);
                }
            }
            i += 1;
            proof {
                assert forall|j: int| 0 <= j < n && j != i - 1 implies
                    (#[trigger] self.entries.kvs()[j]).0 != id by {}
                assert forall|x: u64| !self.entries@.dom().contains(x) implies
                    cows@.dom().contains(x) == prevc.dom().contains(x)
                        && (prevc.dom().contains(x) ==> cows@[x] == prevc[x])
                        && vol.data@.dom().contains(x) == prevd.dom().contains(x)
                        && (prevd.dom().contains(x) ==> vol.data@[x] == prevd[x]) by {
                    assert(x != id);
                }
            }
        }
    }

    /// Discard everything the transaction staged: entities it created
    /// are dropped, staged arms are released in memory and on storage.
    /// Never touches a committed value, and is safe over a partially
    /// staged set; a storage refusal stops the sweep so a replay can
    /// finish it.
    pub fn abort(&self, cows: &mut Table<Cow>, vol: &mut Volume) -> (r: Result<(), Error>)
        requires
            self.entries.wf(),
            old(cows).wf(),
            old(vol).wf(),
        ensures
            final(cows).wf(),
            final(vol).wf(),
            final(vol).wals == old(vol).wals,
            final(vol).fail_ids == old(vol).fail_ids,
            final(vol).wal_fail == old(vol).wal_fail,
            forall|x: u64| visible_of(final(vol).data@, x) == visible_of(old(vol).data@, x),
            forall|x: u64| committed_read_of(final(cows)@, x) == committed_read_of(old(cows)@, x),
            r is Ok <==> forall|j: int| 0 <= j < self.entries.kvs().len()
                ==> !old(vol).fails((#[trigger] self.entries.kvs()[j]).0),
            r is Err ==> r == Err::<(), Error>(Error::InUse),
            forall|x: u64| #![trigger final(cows)@.dom().contains(x)]
                !self.entries@.dom().contains(x)
                ==> final(cows)@.dom().contains(x) == old(cows)@.dom().contains(x)
                    && (old(cows)@.dom().contains(x) ==> final(cows)@[x] == old(cows)@[x]),
            r is Ok ==> forall|j: int| 0 <= j < self.entries.kvs().len() ==> {
                let id = (#[trigger] self.entries.kvs()[j]).0;
                (old(cows)@.dom().contains(id) && old(cows)@[id].staged_by(self.txid))
                    ==> (if old(cows)@[id].committed {
                        final(cows)@.dom().contains(id)
                            && final(cows)@[id] == old(cows)@[id].spec_unstaged()
                    } else {
                        !final(cows)@.dom().contains(id)
                    })
            },
    {
        let n = self.entries.len();
        let mut i: usize = 0;
        while i < n
            invariant
                self.entries.wf(),
                cows.wf(),
                vol.wf(),
                n == self.entries.kvs().len(),
                0 <= i <= n,
                vol.wals == old(vol).wals,
                vol.fail_ids == old(vol).fail_ids,
                vol.wal_fail == old(vol).wal_fail,
                forall|x: u64| visible_of(vol.data@, x) == visible_of(old(vol).data@, x),
                forall|x: u64| committed_read_of(cows@, x) == committed_read_of(old(cows)@, x),
                forall|j: int| 0 <= j < i ==> !vol.fails((#[trigger] self.entries.kvs()[j]).0),
                forall|x: u64| #![trigger cows@.dom().contains(x)]
                    !self.entries@.dom().contains(x)
                    ==> cows@.dom().contains(x) == old(cows)@.dom().contains(x)
                        && (old(cows)@.dom().contains(x) ==> cows@[x] == old(cows)@[x]),
                forall|j: int| i <= j < n
                    ==> cows@.dom().contains((#[trigger] self.entries.kvs()[j]).0)
                        == old(cows)@.dom().contains(self.entries.kvs()[j].0)
                        && (old(cows)@.dom().contains(self.entries.kvs()[j].0)
                            ==> cows@[self.entries.kvs()[j].0]
                                == old(cows)@[self.entries.kvs()[j].0]),
                forall|j: int| 0 <= j < i ==> {
                    let id = (#[trigger] self.entries.kvs()[j]).0;
                    (old(cows)@.dom().contains(id) && old(cows)@[id].staged_by(self.txid))
                        ==> (if old(cows)@[id].committed {
                            cows@.dom().contains(id)
                                && cows@[id] == old(cows)@[id].spec_unstaged()
                        } else {
                            !cows@.dom().contains(id)
                        })
                },
            decreases n - i,
        {
            let id = self.entries.key_at(i);
            let e = *self.entries.val_at(i);
            proof {
                self.entries.lemma_at(i as int);
            }
            let ghost prevc = cows@;
            proof {
                assert(self.entries@.dom().contains(id));
            }
            if let Some(c) = cows.get(id) {
                let c = *c;
                let mine = match c.staged {
                    Some(s) => s.txid == self.txid,
                    None => false,
                };
                if mine {
                    if c.committed {
                        cows.insert(id, Cow {
                            active: c.active,
                            left: c.left,
                            right: c.right,
                            committed: c.committed,
                            staged: None,
                        });
                    } else {
                        cows.remove(id);
                    }
                }
            }
            match vol.discard(id, e) {
                Ok(_) => {},
                Err(err) => {
                    proof {
                        assert(old(vol).fails(id));
                        assert forall|x: u64| !self.entries@.dom().contains(x) implies
                            cows@.dom().contains(x) == prevc.dom().contains(x)
                                && (prevc.dom().contains(x) ==> cows@[x] == prevc[x]) by {
                            assert(x != id);
                        }
                    }
                    return Err(err);
                },
            }
            i += 1;
            proof {
                assert forall|j: int| 0 <= j < n && j != i - 1 implies
                    (#[trigger] self.entries.kvs()[j]).0 != id by {}
                assert forall|x: u64| !self.entries@.dom().contains(x) implies
                    cows@.dom().contains(x) == old(cows)@.dom().contains(x)
                        && (old(cows)@.dom().contains(x) ==> cows@[x] == old(cows)@[x]) by {
                    assert(x != id);
                    assert(cows@.dom().contains(x) == prevc.dom().contains(x));
                    assert(prevc.dom().contains(x) ==> cows@[x] == prevc[x]);
                    assert(prevc.dom().contains(x) == old(cows)@.dom().contains(x));
                    assert(old(cows)@.dom().contains(x) ==> prevc[x] == old(cows)@[x]);
                }
            }
        }
        Ok(())
    }
}

} // verus!
