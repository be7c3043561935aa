//! The transaction manager.
//!
//! The manager owns the table of live transactions, the entity-ownership
//! map enforcing single-writer access, the entity containers, the volume,
//! and the WAL queue. `begin_trans`, commit and abort are the only
//! lifecycle entry points; every transaction ends with its ownership
//! entries purged and its thread's in-transaction mark cleared.
//!
//! Threads are explicit values here: the caller passes a thread id to
//! `begin_trans`, standing for the per-thread in-transaction flag.
use vstd::prelude::*;

use crate::cow::{Cow, Staged};
use crate::table::Table;
use crate::trans::{committed_read_of, Trans, TxState};
use crate::volume::{slot_of, visible_of, Volume};
use crate::wal::{hot_redo_abort, no_aborting, redo_ok, wals_redone, wals_wf, WalQueueMgr, WalState};
use crate::{Action, Arm, Eid, EntInfo, EntityType, Error, Txid};

verus! {

/// The live-transaction table is kept in `linked_hash_map`'s insertion-
/// ordered map, as declared by that crate.
#[verifier::external_type_specification]
#[verifier::external_body]
#[verifier::reject_recursive_types(K)]
#[verifier::reject_recursive_types(V)]
#[verifier::reject_recursive_types(S)]
pub struct ExLinkedHashMap<K, V, S>(linked_hash_map::LinkedHashMap<K, V, S>);

/// The live-transaction table type of `linked_hash_map`.
pub type TransTable = linked_hash_map::LinkedHashMap<u64, Trans>;

/// The entries held by a live-transaction table.
pub uninterp spec fn lhm_contents(m: TransTable) -> Map<u64, Trans>;

/// A live-transaction table with no entries.
pub open spec fn no_txs() -> Map<u64, Trans> {
    Map::empty()
}

/// Relies on linked_hash_map::LinkedHashMap::new: the new map is empty.
#[verifier::external_body]
fn lhm_new() -> (r: TransTable)
    ensures
        lhm_contents(r) == no_txs(),
{
    linked_hash_map::LinkedHashMap::new()
}

/// Relies on linked_hash_map::LinkedHashMap::insert: the key now maps to
/// the value, and the previous value under it comes back.
#[verifier::external_body]
fn lhm_insert(m: &mut TransTable, k: u64, v: Trans) -> (r: Option<Trans>)
    ensures
        lhm_contents(*final(m)) == lhm_contents(*old(m)).insert(k, v),
        r == if lhm_contents(*old(m)).dom().contains(k) {
            Some(lhm_contents(*old(m))[k])
        } else {
            None::<Trans>
        },
{
    m.insert(k, v)
}

/// Relies on linked_hash_map::LinkedHashMap::remove: the key is gone and
/// its value, if any, comes back; an absent key leaves the map untouched.
#[verifier::external_body]
fn lhm_remove(m: &mut TransTable, k: u64) -> (r: Option<Trans>)
    ensures
        lhm_contents(*final(m)) == lhm_contents(*old(m)).remove(k),
        !lhm_contents(*old(m)).dom().contains(k) ==> *final(m) == *old(m),
        r == if lhm_contents(*old(m)).dom().contains(k) {
            Some(lhm_contents(*old(m))[k])
        } else {
            None::<Trans>
        },
{
    m.remove(&k)
}

/// Relies on linked_hash_map::LinkedHashMap::is_empty: true exactly when
/// the map holds no entry.
#[verifier::external_body]
fn lhm_is_empty(m: &TransTable) -> (r: bool)
    ensures
        r <==> lhm_contents(*m).dom() == Set::<u64>::empty(),
{
    m.is_empty()
}

/// The transaction manager.
#[derive(Debug)]
pub struct TxMgr {
    /// Live transactions, in begin order.
    pub txs: TransTable,
    /// Entity ownership: which transaction holds each touched entity.
    pub ents: Table<u64>,
    /// The entity containers.
    pub cows: Table<Cow>,
    /// The WAL queue manager.
    pub walq: WalQueueMgr,
    /// The storage volume.
    pub vol: Volume,
    /// Threads currently inside a transaction, mapped to its id.
    pub threads: Table<u64>,
}

impl TxMgr {
    /// The live-transaction table's contents.
    pub open spec fn txs_map(&self) -> Map<u64, Trans> {
        lhm_contents(self.txs)
    }

    /// Well-formedness: tables have distinct keys, WAL records are keyed
    /// by their own transaction id, and every live transaction record
    /// carries its own id and a well-formed entry table.
    pub open spec fn wf(&self) -> bool {
        self.ents.wf() && self.cows.wf() && self.threads.wf() && self.vol.wf()
            && wals_wf(self.vol) && forall|t: u64| #[trigger]
            self.txs_map().dom().contains(t) ==> self.txs_map()[t].txid == t
                && self.txs_map()[t].entries.wf()
    }

    /// What a read of an entity returns: its active arm's value.
    pub open spec fn read_spec(&self, id: Eid) -> Option<u64> {
        if self.cows@.dom().contains(id) {
            self.cows@[id].read_val()
        } else {
            None
        }
    }

    /// What a reader outside the owning transaction sees: only a
    /// committed active arm.
    pub open spec fn committed_read(&self, id: Eid) -> Option<u64> {
        committed_read_of(self.cows@, id)
    }

    /// Whether a thread currently holds an open transaction.
    pub open spec fn thread_in_tx(&self, thread: u64) -> bool {
        self.threads@.dom().contains(thread)
    }

    /// Whether `txid` may claim the entity: it is unowned or already its.
    pub open spec fn owner_ok(&self, id: Eid, txid: Txid) -> bool {
        !self.ents@.dom().contains(id) || self.ents@[id] == txid
    }

    /// No commit step of this transaction would be refused: every touched
    /// entity's storage accepts writes and the marker write succeeds.
    pub open spec fn commit_allowed(&self, txid: Txid) -> bool {
        self.txs_map().dom().contains(txid) && !self.vol.wal_fail && forall|j: int|
            0 <= j < self.txs_map()[txid].entries.kvs().len() ==> !self.vol.fails(
                (#[trigger] self.txs_map()[txid].entries.kvs()[j]).0,
            )
    }

    /// The transaction is finished: no longer live, owning no entity, its
    /// thread free again.
    pub open spec fn tx_finished(pre: TxMgr, post: TxMgr, txid: Txid) -> bool {
        !post.txs_map().dom().contains(txid) && (forall|x: u64| #[trigger]
            post.ents@.dom().contains(x) ==> post.ents@[x] != txid) && (
        pre.txs_map().dom().contains(txid) ==> !post.thread_in_tx(pre.txs_map()[txid].thread))
    }

    /// Nothing became visible: every committed read and every durably
    /// visible value is what it was.
    pub open spec fn reads_preserved(pre: TxMgr, post: TxMgr) -> bool {
        (forall|x: u64| post.committed_read(x) == pre.committed_read(x)) && (forall|x: u64|
            visible_of(post.vol.data@, x) == visible_of(pre.vol.data@, x))
    }

    /// Nothing beyond the finished transaction was touched: the live
    /// table merely loses its record, other transactions' ownership
    /// entries and records stay, only its thread's mark is cleared, the
    /// id allocator, the failure knobs and every other WAL record are as
    /// they were (its own WAL record is the one that may appear or
    /// change).
    pub open spec fn tx_frame(pre: TxMgr, post: TxMgr, txid: Txid) -> bool {
        post.txs_map() == pre.txs_map().remove(txid) && (forall|x: u64| #[trigger]
            post.ents@.dom().contains(x) <==> pre.ents@.dom().contains(x) && pre.ents@[x]
                != txid) && (forall|x: u64| #[trigger]
            post.ents@.dom().contains(x) ==> post.ents@[x] == pre.ents@[x]) && (
        pre.txs_map().dom().contains(txid) ==> post.threads@ == pre.threads@.remove(
            pre.txs_map()[txid].thread,
        )) && post.walq == pre.walq && (forall|x: u64| post.vol.fails(x) == pre.vol.fails(x))
            && post.vol.wal_fail == pre.vol.wal_fail && (forall|t2: u64| #[trigger]
            post.vol.wals@.dom().contains(t2) <==> pre.vol.wals@.dom().contains(t2) || t2
                == txid) && (forall|t2: u64|
            t2 != txid && #[trigger] pre.vol.wals@.dom().contains(t2)
                ==> post.vol.wals@[t2] == pre.vol.wals@[t2])
    }

    /// The commit took effect: each surviving touched entity's selector
    /// flipped to its staged arm, deletions are gone, untouched entities
    /// are as they were, and the commit marker is durable.
    pub open spec fn commit_applied(pre: TxMgr, post: TxMgr, txid: Txid) -> bool {
        let tx = pre.txs_map()[txid];
        (forall|j: int| 0 <= j < tx.entries.kvs().len() ==> {
            let id = (#[trigger] tx.entries.kvs()[j]).0;
            let e = tx.entries.kvs()[j].1;
            if e.action == Action::Delete {
                (pre.cows@.dom().contains(id) && pre.cows@[id].staged_by(txid))
                    ==> !post.cows@.dom().contains(id) && !post.vol.data@.dom().contains(id)
            } else {
                ((pre.cows@.dom().contains(id) && pre.cows@[id].staged_by(txid))
                    ==> post.cows@.dom().contains(id) && post.cows@[id] == pre.cows@[id].spec_flipped(
                    e.arm,
                )) && ((pre.cows@.dom().contains(id) && pre.cows@[id].staged_by(txid)
                    && pre.cows@[id].slot(e.arm) is Some && (!pre.vol.data@.dom().contains(id)
                    || pre.vol.data@[id].active != Some(e.arm)))
                    ==> post.vol.data@.dom().contains(id) && post.vol.data@[id].active == Some(
                    e.arm,
                ) && slot_of(post.vol.data@[id], e.arm) == pre.cows@[id].slot(e.arm))
            }
        }) && (forall|x: u64| #![trigger post.cows@.dom().contains(x)]
            !tx.entries@.dom().contains(x) ==> post.cows@.dom().contains(x)
                == pre.cows@.dom().contains(x) && (pre.cows@.dom().contains(x)
                ==> post.cows@[x] == pre.cows@[x])) && post.vol.wals@.dom().contains(txid)
            && post.vol.wals@[txid].state == WalState::Committed
    }

    /// A fresh manager over a volume; nothing is live.
    pub fn new(walq_id: Eid, vol: Volume) -> (r: TxMgr)
        requires
            vol.wf(),
            wals_wf(vol),
        ensures
            r.wf(),
            r.txs_map() == Map::<u64, Trans>::empty(),
            r.ents@ == Map::<u64, u64>::empty(),
            r.cows@ == Map::<u64, Cow>::empty(),
            r.threads@ == Map::<u64, u64>::empty(),
            r.vol == vol,
            r.walq.walq_id == walq_id,
            r.walq.next == 1,
    {
        TxMgr {
            txs: lhm_new(),
            ents: Table::new(),
            cows: Table::new(),
            walq: WalQueueMgr::new(walq_id),
            vol,
            threads: Table::new(),
        }
    }

    /// Open a manager over an existing volume: finish any abort a crash
    /// interrupted, then rebuild the entity containers from the durably
    /// visible records, so memory shows exactly what storage shows.
    pub fn open(walq_id: Eid, vol: Volume) -> (r: Result<TxMgr, Error>)
        requires
            vol.wf(),
            wals_wf(vol),
        ensures
            r is Ok <==> redo_ok(vol),
            r is Err ==> r == Err::<TxMgr, Error>(Error::InUse),
            r is Ok ==> {
                let tm = r->Ok_0;
                tm.wf() && tm.txs_map() == Map::<u64, Trans>::empty() && tm.ents@ == Map::<
                    u64,
                    u64,
                >::empty() && tm.threads@ == Map::<u64, u64>::empty() && no_aborting(tm.vol)
                    && wals_redone(vol, tm.vol) && tm.walq.walq_id == walq_id && (forall|x: u64|
                    visible_of(tm.vol.data@, x) == visible_of(vol.data@, x)) && (forall|x: u64|
                    tm.committed_read(x) == visible_of(tm.vol.data@, x)) && (forall|x: u64|
                    tm.read_spec(x) == tm.committed_read(x))
            },
    {
        let mut vol = vol;
        let mut walq = WalQueueMgr::new(walq_id);
        match walq.open(&mut vol) {
            Ok(_) => {},
            Err(err) => {
                return Err(err);
            },
        }
        let mut cows: Table<Cow> = Table::new();
        let n = vol.data.len();
        let mut i: usize = 0;
        while i < n
            invariant
                vol.wf(),
                cows.wf(),
                n == vol.data.kvs().len(),
                0 <= i <= n,
                forall|x: u64| #![trigger cows@.dom().contains(x)]
                    {
                        let there = exists|j: int|
                            0 <= j < i && (#[trigger] vol.data.kvs()[j]).0 == x && vol.data.kvs()[j].1.active is Some
                                && crate::volume::slot_of(
                                vol.data.kvs()[j].1,
                                vol.data.kvs()[j].1.active->0,
                            ) is Some;
                        (cows@.dom().contains(x) <==> there) && (cows@.dom().contains(x)
                            ==> committed_read_of(cows@, x) == visible_of(vol.data@, x)
                                && cows@[x].committed && cows@[x].staged is None
                                && cows@[x].active == vol.data@[x].active->0)
                    },
            decreases n - i,
        {
            let id = vol.data.key_at(i);
            let rec = *vol.data.val_at(i);
            let ghost prevc = cows@;
            proof {
                vol.data.lemma_at(i as int);
            }
            if let Some(a) = rec.active {
                let slot_val = match a {
                    Arm::Left => rec.left,
                    Arm::Right => rec.right,
                };
                if let Some(_v) = slot_val {
                    cows.insert(
                        id,
                        Cow {
                            active: a,
                            left: rec.left,
                            right: rec.right,
                            committed: true,
                            staged: None,
                        },
                    );
                }
            }
            i += 1;
            proof {
                assert forall|x: u64| #![trigger cows@.dom().contains(x)]
                    {
                        let there = exists|j: int|
                            0 <= j < i && (#[trigger] vol.data.kvs()[j]).0 == x && vol.data.kvs()[j].1.active is Some
                                && crate::volume::slot_of(
                                vol.data.kvs()[j].1,
                                vol.data.kvs()[j].1.active->0,
                            ) is Some;
                        (cows@.dom().contains(x) <==> there) && (cows@.dom().contains(x)
                            ==> committed_read_of(cows@, x) == visible_of(vol.data@, x)
                                && cows@[x].committed && cows@[x].staged is None
                                && cows@[x].active == vol.data@[x].active->0)
                    } by {
                    if x == id {
                        if cows@.dom().contains(x) {
                            assert(vol.data.kvs()[i - 1].0 == x);
                        }
                    } else {
                        if exists|j: int|
                            0 <= j < i && (#[trigger] vol.data.kvs()[j]).0 == x && vol.data.kvs()[j].1.active is Some
                                && crate::volume::slot_of(
                                vol.data.kvs()[j].1,
                                vol.data.kvs()[j].1.active->0,
                            ) is Some {
                            let j = choose|j: int|
                                0 <= j < i && (#[trigger] vol.data.kvs()[j]).0 == x
                                    && vol.data.kvs()[j].1.active is Some && crate::volume::slot_of(
                                    vol.data.kvs()[j].1,
                                    vol.data.kvs()[j].1.active->0,
                                ) is Some;
                            assert(0 <= j < i - 1);
                        }
                    }
                }
            }
        }
        proof {
            assert forall|x: u64| committed_read_of(cows@, x) == visible_of(vol.data@, x) by {
                if !cows@.dom().contains(x) && vol.data@.dom().contains(x) {
                    vol.data.lemma_dom_to_idx(x);
                    let j = choose|j: int|
                        0 <= j < vol.data.kvs().len() && (#[trigger] vol.data.kvs()[j]).0 == x;
                    vol.data.lemma_at(j);
                }
            }
        }
        Ok(
            TxMgr {
                txs: lhm_new(),
                ents: Table::new(),
                cows,
                walq,
                vol,
                threads: Table::new(),
            },
        )
    }

    /// Begin a transaction on a thread. A thread may hold at most one
    /// open transaction; any interrupted abort is finished first; a
    /// failed begin marker leaves no thread mark behind.
    pub fn begin_trans(&mut self, thread: u64) -> (r: Result<TxHandle, Error>)
        requires
            old(self).wf(),
            old(self).walq.next < u64::MAX,
        ensures
            final(self).wf(),
            old(self).thread_in_tx(thread) ==> r == Err::<TxHandle, Error>(Error::InTrans)
                && *final(self) == *old(self),
            r is Ok <==> !old(self).thread_in_tx(thread) && redo_ok(old(self).vol)
                && !old(self).vol.wal_fail,
            !old(self).thread_in_tx(thread) && !redo_ok(old(self).vol) ==> r == Err::<
                TxHandle,
                Error,
            >(Error::InUse),
            !old(self).thread_in_tx(thread) && redo_ok(old(self).vol) && old(self).vol.wal_fail
                ==> r == Err::<TxHandle, Error>(Error::Io),
            r is Err ==> final(self).thread_in_tx(thread) == old(self).thread_in_tx(thread)
                && final(self).txs_map() == old(self).txs_map() && final(self).ents@ == old(self).ents@ && final(self).cows@ == old(self).cows@,
            TxMgr::reads_preserved(*old(self), *final(self)),
            forall|x: u64| final(self).read_spec(x) == old(self).read_spec(x),
            forall|x: u64| final(self).vol.fails(x) == old(self).vol.fails(x),
            final(self).vol.wal_fail == old(self).vol.wal_fail,
            r is Ok ==> {
                let h = r->Ok_0;
                h.txid == old(self).walq.next && final(self).walq.next == old(self).walq.next + 1
                    && final(self).threads@ == old(self).threads@.insert(thread, h.txid) && final(self).txs_map().dom() == old(self).txs_map().dom().insert(h.txid) && final(self).txs_map()[h.txid].txid == h.txid && final(self).txs_map()[h.txid].thread == thread
                    && final(self).txs_map()[h.txid].state == TxState::Active && final(self).txs_map()[h.txid].entries@ == Map::<u64, EntInfo>::empty() && (forall|t2: u64|
                    t2 != h.txid && old(self).txs_map().dom().contains(t2) ==> final(self).txs_map()[t2] == old(self).txs_map()[t2]) && final(self).ents@ == old(self).ents@ && final(self).cows@ == old(self).cows@ && no_aborting(final(self).vol)
                    && final(self).vol.wals@.dom().contains(h.txid) && final(self).vol.wals@[h.txid].state == WalState::Begin
                    && (forall|t2: u64|
                    final(self).vol.wals@.dom().contains(t2) <==> old(self).vol.wals@.dom().contains(t2) || t2 == h.txid)
                    && (forall|t2: u64|
                    t2 != h.txid && #[trigger] old(self).vol.wals@.dom().contains(t2) ==> {
                        let w = old(self).vol.wals@[t2];
                        let w2 = final(self).vol.wals@[t2];
                        w2.txid == w.txid && w2.entries == w.entries && (
                        if w.state == WalState::Aborting {
                            w2.state == WalState::Aborted
                        } else {
                            w2 == w
                        })
                    })
            },
    {
        if self.threads.contains(thread) {
            return Err(Error::InTrans);
        }
        // finish any abort a crash interrupted before accepting new work
        match hot_redo_abort(&mut self.vol) {
            Ok(_) => {},
            Err(err) => {
                return Err(err);
            },
        }
        let txid = self.walq.next_txid();
        self.threads.insert(thread, txid);
        match self.walq.begin_trans(&mut self.vol, txid) {
            Ok(_) => {},
            Err(err) => {
                // the begin marker failed: clear the thread's mark again
                self.threads.remove(thread);
                proof {
                    assert(self.threads@ =~= old(self).threads@);
                }
                return Err(err);
            },
        }
        let mut tx = Trans::new(txid, thread);
        tx.begin_trans();
        lhm_insert(&mut self.txs, txid, tx);
        proof {
            assert(self.txs_map().dom() =~= old(self).txs_map().dom().insert(txid));
        }
        Ok(TxHandle { txid })
    }

    /// Register a touched entity under a transaction, enforcing
    /// single-writer ownership: a second transaction is refused at once.
    pub fn add_to_trans(
        &mut self,
        id: Eid,
        txid: Txid,
        action: Action,
        ent_type: EntityType,
        arm: Arm,
    ) -> (r: Result<(), Error>)
        requires
            old(self).wf(),
        ensures
            final(self).wf(),
            old(self).ents@.dom().contains(id) && old(self).ents@[id] != txid ==> r == Err::<
                (),
                Error,
            >(Error::InTrans) && *final(self) == *old(self),
            r is Ok <==> old(self).owner_ok(id, txid) && old(self).txs_map().dom().contains(txid),
            old(self).owner_ok(id, txid) ==> final(self).ents@ == old(self).ents@.insert(id, txid),
            old(self).owner_ok(id, txid) && !old(self).txs_map().dom().contains(txid) ==> r
                == Err::<(), Error>(Error::NoTrans) && final(self).txs_map() == old(self).txs_map(),
            final(self).cows@ == old(self).cows@,
            final(self).threads@ == old(self).threads@,
            final(self).vol == old(self).vol,
            final(self).walq == old(self).walq,
            r is Ok ==> final(self).txs_map().dom() == old(self).txs_map().dom() && final(self).txs_map()[txid].txid == txid && final(self).txs_map()[txid].thread == old(self).txs_map()[txid].thread && final(self).txs_map()[txid].state == old(self).txs_map()[txid].state && final(self).txs_map()[txid].entries@ == old(self).txs_map()[txid].entries@.insert(id, EntInfo { etype: ent_type, action, arm }) && (
            forall|t2: u64|
                t2 != txid && old(self).txs_map().dom().contains(t2) ==> final(self).txs_map()[t2]
                    == old(self).txs_map()[t2]),
    {
        let owner = match self.ents.get(id) {
            Some(o) => Some(*o),
            None => None,
        };
        match owner {
            Some(o) => {
                if o != txid {
                    // the entity is already in another transaction
                    return Err(Error::InTrans);
                }
                proof {
                    assert(self.ents@ =~= old(self).ents@.insert(id, txid));
                }
            },
            None => {
                self.ents.insert(id, txid);
            },
        }
        let mut tx = match lhm_remove(&mut self.txs, txid) {
            None => {
                // NoTrans marks a caller logic bug: a txid with no live
                // record. The ownership claim just made is deliberately
                // left in place on this path, mirroring the claim-first
                // order of registration; the ensures state it exactly.
                proof {
                    assert(self.txs_map() =~= old(self).txs_map());
                }
                return Err(Error::NoTrans);
            },
            Some(tx) => tx,
        };
        tx.add_entity(id, ent_type, action, arm);
        lhm_insert(&mut self.txs, txid, tx);
        proof {
            assert(self.txs_map().dom() =~= old(self).txs_map().dom());
        }
        Ok(())
    }
}

impl TxMgr {
    /// The arm a renewed write by `txid` lands in: the one already staged
    /// by this transaction, else the inactive arm of a committed entity,
    /// else the arm a creation used.
    pub open spec fn restage_arm(c: Cow, txid: Txid) -> Arm {
        if c.staged_by(txid) && c.staged->0.action != Action::Delete && (!c.committed
            || c.staged->0.arm != c.active) {
            c.staged->0.arm
        } else if c.committed {
            c.active.spec_other()
        } else {
            c.active
        }
    }

    /// Create an entity under a transaction with an initial value. The
    /// first write of a fresh entity always lands on the Right arm.
    pub fn create(&mut self, id: Eid, txid: Txid, val: u64) -> (r: Result<(), Error>)
        requires
            old(self).wf(),
        ensures
            final(self).wf(),
            old(self).cows@.dom().contains(id) ==> r == Err::<(), Error>(Error::InUse)
                && *final(self) == *old(self),
            !old(self).cows@.dom().contains(id) && old(self).ents@.dom().contains(id) && old(self).ents@[id] != txid ==> r == Err::<(), Error>(Error::InTrans) && *final(self) == *old(self),
            r is Ok <==> !old(self).cows@.dom().contains(id) && old(self).owner_ok(id, txid) && old(self).txs_map().dom().contains(txid),
            forall|x: u64| final(self).committed_read(x) == old(self).committed_read(x),
            final(self).vol == old(self).vol,
            final(self).threads@ == old(self).threads@,
            final(self).walq == old(self).walq,
            r is Err ==> final(self).txs_map() == old(self).txs_map() && final(self).cows@ == old(
                self,
            ).cows@,
            r is Ok ==> final(self).cows@ == old(self).cows@.insert(id, Cow::spec_fresh(txid, val))
                && final(self).read_spec(id) == Some(val) && final(self).ents@ == old(self).ents@.insert(id, txid) && final(self).txs_map().dom() == old(self).txs_map().dom() && final(self).txs_map()[txid].txid == txid && final(self).txs_map()[txid].thread == old(self).txs_map()[txid].thread && final(self).txs_map()[txid].state == old(self).txs_map()[txid].state && (forall|t2: u64|
                    t2 != txid && old(self).txs_map().dom().contains(t2) ==> final(self).txs_map()[t2] == old(self).txs_map()[t2]) && final(self).txs_map()[txid].entries@ == old(self).txs_map()[txid].entries@.insert(
                id,
                EntInfo { etype: EntityType::Cow, action: Action::New, arm: Arm::Right },
            ),
    {
        if self.cows.contains(id) {
            return Err(Error::InUse);
        }
        match self.add_to_trans(id, txid, Action::New, EntityType::Cow, Arm::Right) {
            Ok(_) => {},
            Err(err) => {
                return Err(err);
            },
        }
        self.cows.insert(
            id,
            Cow {
                active: Arm::Right,
                left: None,
                right: Some(val),
                committed: false,
                staged: Some(Staged { txid, action: Action::New, arm: Arm::Right }),
            },
        );
        proof {
            assert forall|x: u64|
                final(self).committed_read(x) == old(self).committed_read(x) by {
                if x != id {
                    assert(self.cows@.dom().contains(x) == old(self).cows@.dom().contains(x));
                }
            }
        }
        Ok(())
    }

    /// Stage a mutation of an entity under a transaction, writing `val`
    /// into the staged arm. A write never targets the active arm of a
    /// committed entity, so no reader outside the transaction sees it.
    pub fn make_mut(&mut self, id: Eid, txid: Txid, val: u64) -> (r: Result<(), Error>)
        requires
            old(self).wf(),
        ensures
            final(self).wf(),
            !old(self).cows@.dom().contains(id) ==> r == Err::<(), Error>(Error::NotFound)
                && *final(self) == *old(self),
            old(self).cows@.dom().contains(id) && old(self).ents@.dom().contains(id) && old(self).ents@[id] != txid ==> r == Err::<(), Error>(Error::InTrans) && *final(self) == *old(self),
            r is Ok <==> old(self).cows@.dom().contains(id) && old(self).owner_ok(id, txid) && old(self).txs_map().dom().contains(txid),
            forall|x: u64| final(self).committed_read(x) == old(self).committed_read(x),
            final(self).vol == old(self).vol,
            final(self).threads@ == old(self).threads@,
            final(self).walq == old(self).walq,
            r is Err ==> final(self).txs_map() == old(self).txs_map() && final(self).cows@ == old(
                self,
            ).cows@,
            r is Ok ==> {
                let c = old(self).cows@[id];
                let arm = TxMgr::restage_arm(c, txid);
                let act = if c.committed {
                    Action::Update
                } else {
                    Action::New
                };
                (c.committed ==> arm == c.active.spec_other()) && final(self).cows@ == old(self).cows@.insert(id, c.spec_staged(txid, act, arm, val)) && final(self).ents@ == old(self).ents@.insert(id, txid) && final(self).txs_map().dom() == old(self).txs_map().dom() && final(self).txs_map()[txid].txid == txid && final(self).txs_map()[txid].thread == old(self).txs_map()[txid].thread && final(self).txs_map()[txid].state == old(self).txs_map()[txid].state && (forall|t2: u64|
                    t2 != txid && old(self).txs_map().dom().contains(t2) ==> final(self).txs_map()[t2] == old(self).txs_map()[t2]) && final(self).txs_map()[txid].entries@ == old(self).txs_map()[txid].entries@.insert(
                    id,
                    EntInfo { etype: EntityType::Cow, action: act, arm },
                )
            },
    {
        let c = match self.cows.get(id) {
            None => {
                return Err(Error::NotFound);
            },
            Some(c) => *c,
        };
        let staged_mine = match c.staged {
            Some(s) => s.txid == txid && !matches!(s.action, Action::Delete) && (!c.committed
                || s.arm != c.active),
            None => false,
        };
        let arm = if staged_mine {
            match c.staged {
                Some(s) => s.arm,
                None => Arm::Right,
            }
        } else if c.committed {
            c.active.other()
        } else {
            c.active
        };
        let act = if c.committed {
            Action::Update
        } else {
            Action::New
        };
        match self.add_to_trans(id, txid, act, EntityType::Cow, arm) {
            Ok(_) => {},
            Err(err) => {
                return Err(err);
            },
        }
        self.cows.insert(
            id,
            Cow {
                active: c.active,
                left: if matches!(arm, Arm::Left) {
                    Some(val)
                } else {
                    c.left
                },
                right: if matches!(arm, Arm::Right) {
                    Some(val)
                } else {
                    c.right
                },
                committed: c.committed,
                staged: Some(Staged { txid, action: act, arm }),
            },
        );
        proof {
            assert forall|x: u64|
                final(self).committed_read(x) == old(self).committed_read(x) by {
                if x != id {
                    assert(self.cows@.dom().contains(x) == old(self).cows@.dom().contains(x));
                }
            }
        }
        Ok(())
    }

    /// Stage the deletion of an entity under a transaction. The entity
    /// stays readable on its old arm until the commit completes.
    pub fn make_del(&mut self, id: Eid, txid: Txid) -> (r: Result<(), Error>)
        requires
            old(self).wf(),
        ensures
            final(self).wf(),
            !old(self).cows@.dom().contains(id) ==> r == Err::<(), Error>(Error::NotFound)
                && *final(self) == *old(self),
            old(self).cows@.dom().contains(id) && old(self).ents@.dom().contains(id) && old(self).ents@[id] != txid ==> r == Err::<(), Error>(Error::InTrans) && *final(self) == *old(self),
            r is Ok <==> old(self).cows@.dom().contains(id) && old(self).owner_ok(id, txid) && old(self).txs_map().dom().contains(txid),
            forall|x: u64| final(self).committed_read(x) == old(self).committed_read(x),
            forall|x: u64| final(self).read_spec(x) == old(self).read_spec(x),
            final(self).vol == old(self).vol,
            final(self).threads@ == old(self).threads@,
            final(self).walq == old(self).walq,
            r is Err ==> final(self).txs_map() == old(self).txs_map() && final(self).cows@ == old(
                self,
            ).cows@,
            r is Ok ==> {
                let c = old(self).cows@[id];
                final(self).cows@ == old(self).cows@.insert(
                    id,
                    Cow {
                        active: c.active,
                        left: c.left,
                        right: c.right,
                        committed: c.committed,
                        staged: Some(Staged { txid, action: Action::Delete, arm: c.active }),
                    },
                ) && final(self).ents@ == old(self).ents@.insert(id, txid) && final(self).txs_map().dom() == old(self).txs_map().dom() && final(self).txs_map()[txid].txid == txid && final(self).txs_map()[txid].thread == old(self).txs_map()[txid].thread && final(self).txs_map()[txid].state == old(self).txs_map()[txid].state && (forall|t2: u64|
                    t2 != txid && old(self).txs_map().dom().contains(t2) ==> final(self).txs_map()[t2] == old(self).txs_map()[t2]) && final(self).txs_map()[txid].entries@ == old(self).txs_map()[txid].entries@.insert(
                    id,
                    EntInfo { etype: EntityType::Cow, action: Action::Delete, arm: c.active },
                )
            },
    {
        let c = match self.cows.get(id) {
            None => {
                return Err(Error::NotFound);
            },
            Some(c) => *c,
        };
        match self.add_to_trans(id, txid, Action::Delete, EntityType::Cow, c.active) {
            Ok(_) => {},
            Err(err) => {
                return Err(err);
            },
        }
        self.cows.insert(
            id,
            Cow {
                active: c.active,
                left: c.left,
                right: c.right,
                committed: c.committed,
                staged: Some(Staged { txid, action: Action::Delete, arm: c.active }),
            },
        );
        proof {
            assert forall|x: u64|
                final(self).committed_read(x) == old(self).committed_read(x) by {
                if x != id {
                    assert(self.cows@.dom().contains(x) == old(self).cows@.dom().contains(x));
                }
            }
            assert forall|x: u64| final(self).read_spec(x) == old(self).read_spec(x) by {
                if x != id {
                    assert(self.cows@.dom().contains(x) == old(self).cows@.dom().contains(x));
                }
            }
        }
        Ok(())
    }

    /// Read an entity's visible (active-arm) value; never blocks and
    /// never fails.
    pub fn read(&self, id: Eid) -> (r: Option<u64>)
        requires
            self.wf(),
        ensures
            r == self.read_spec(id),
    {
        match self.cows.get(id) {
            Some(c) => c.read(),
            None => None,
        }
    }

    /// The entity's active arm, if the entity exists.
    pub fn active_arm(&self, id: Eid) -> (r: Option<Arm>)
        requires
            self.wf(),
        ensures
            r == if self.cows@.dom().contains(id) {
                Some(self.cows@[id].active)
            } else {
                None::<Arm>
            },
    {
        match self.cows.get(id) {
            Some(c) => Some(c.active),
            None => None,
        }
    }

    /// Whether no transaction is live.
    pub fn txs_is_empty(&self) -> (r: bool)
        ensures
            r <==> self.txs_map().dom() == Set::<u64>::empty(),
    {
        lhm_is_empty(&self.txs)
    }

    /// The durable marker state of a transaction's WAL record, if any.
    pub fn wal_state(&self, txid: Txid) -> (r: Option<WalState>)
        requires
            self.wf(),
        ensures
            r == if self.vol.wals@.dom().contains(txid) {
                Some(self.vol.wals@[txid].state)
            } else {
                None::<WalState>
            },
    {
        match self.vol.wals.get(txid) {
            Some(w) => Some(w.state),
            None => None,
        }
    }

    /// Give the volume back, e.g. to reopen it elsewhere.
    pub fn take_vol(self) -> (r: Volume)
        ensures
            r == self.vol,
    {
        let TxMgr { vol, .. } = self;
        vol
    }

    /// Inject a storage failure for one entity.
    pub fn vol_set_fail(&mut self, id: Eid)
        requires
            old(self).wf(),
        ensures
            final(self).wf(),
            final(self).txs == old(self).txs,
            final(self).ents == old(self).ents,
            final(self).cows == old(self).cows,
            final(self).threads == old(self).threads,
            final(self).walq == old(self).walq,
            final(self).vol.data == old(self).vol.data,
            final(self).vol.wals == old(self).vol.wals,
            final(self).vol.wal_fail == old(self).vol.wal_fail,
            forall|x: u64| final(self).vol.fails(x) <==> old(self).vol.fails(x) || x == id,
    {
        self.vol.set_fail(id);
    }

    /// Drop every injected storage failure.
    pub fn vol_clear_fails(&mut self)
        requires
            old(self).wf(),
        ensures
            final(self).wf(),
            final(self).txs == old(self).txs,
            final(self).ents == old(self).ents,
            final(self).cows == old(self).cows,
            final(self).threads == old(self).threads,
            final(self).walq == old(self).walq,
            final(self).vol.data == old(self).vol.data,
            final(self).vol.wals == old(self).vol.wals,
            final(self).vol.wal_fail == old(self).vol.wal_fail,
            forall|x: u64| !final(self).vol.fails(x),
    {
        self.vol.clear_fails();
    }

    /// Set or clear the marker-write failure knob.
    pub fn vol_set_wal_fail(&mut self, b: bool)
        requires
            old(self).wf(),
        ensures
            final(self).wf(),
            final(self).txs == old(self).txs,
            final(self).ents == old(self).ents,
            final(self).cows == old(self).cows,
            final(self).threads == old(self).threads,
            final(self).walq == old(self).walq,
            final(self).vol.data == old(self).vol.data,
            final(self).vol.wals == old(self).vol.wals,
            final(self).vol.fail_ids == old(self).vol.fail_ids,
            final(self).vol.wal_fail == b,
    {
        self.vol.set_wal_fail(b);
    }
}

impl TxMgr {
    /// Purge a finished transaction: drop it from the live table, release
    /// every entity-ownership entry it holds, and clear its thread's
    /// in-transaction mark. The only place ownership is released.
    fn remove_trans(&mut self, txid: Txid, thread: u64)
        requires
            old(self).wf(),
        ensures
            final(self).wf(),
            final(self).txs_map() == old(self).txs_map().remove(txid),
            forall|x: u64| #[trigger] final(self).ents@.dom().contains(x)
                <==> old(self).ents@.dom().contains(x) && old(self).ents@[x] != txid,
            forall|x: u64| #[trigger] final(self).ents@.dom().contains(x)
                ==> final(self).ents@[x] == old(self).ents@[x],
            final(self).threads@ == old(self).threads@.remove(thread),
            final(self).cows == old(self).cows,
            final(self).vol == old(self).vol,
            final(self).walq == old(self).walq,
    {
        lhm_remove(&mut self.txs, txid);
        self.ents.remove_where_val(txid);
        self.threads.remove(thread);
    }

    /// Abort one transaction record: bracket the discard with the
    /// begin-abort and end-abort markers, then purge the transaction. A
    /// failing discard or marker is only noted — the record stays in the
    /// Aborting state so a later replay resumes it — and cleanup of the
    /// manager's own tables happens regardless.
    fn abort_with(&mut self, tx: &Trans)
        requires
            old(self).wf(),
            tx.entries.wf(),
            !old(self).txs_map().dom().contains(tx.txid),
        ensures
            final(self).wf(),
            TxMgr::reads_preserved(*old(self), *final(self)),
            final(self).txs_map() == old(self).txs_map(),
            forall|x: u64| #[trigger] final(self).ents@.dom().contains(x)
                <==> old(self).ents@.dom().contains(x) && old(self).ents@[x] != tx.txid,
            forall|x: u64| #[trigger] final(self).ents@.dom().contains(x)
                ==> final(self).ents@[x] == old(self).ents@[x],
            final(self).threads@ == old(self).threads@.remove(tx.thread),
            final(self).walq == old(self).walq,
            forall|x: u64| final(self).vol.fails(x) == old(self).vol.fails(x),
            final(self).vol.wal_fail == old(self).vol.wal_fail,
            forall|t2: u64| #[trigger] final(self).vol.wals@.dom().contains(t2)
                <==> old(self).vol.wals@.dom().contains(t2) || t2 == tx.txid,
            forall|t2: u64| t2 != tx.txid && #[trigger] old(self).vol.wals@.dom().contains(t2)
                ==> final(self).vol.wals@[t2] == old(self).vol.wals@[t2],
            final(self).vol.wals@.dom().contains(tx.txid),
            final(self).vol.wals@[tx.txid].state == (if !old(self).vol.wal_fail && forall|j: int|
                0 <= j < tx.entries.kvs().len() ==> !old(self).vol.fails(
                    (#[trigger] tx.entries.kvs()[j]).0,
                ) {
                WalState::Aborted
            } else {
                WalState::Aborting
            }),
            forall|x: u64| #![trigger final(self).cows@.dom().contains(x)]
                !tx.entries@.dom().contains(x)
                ==> final(self).cows@.dom().contains(x) == old(self).cows@.dom().contains(x)
                    && (old(self).cows@.dom().contains(x)
                        ==> final(self).cows@[x] == old(self).cows@[x]),
    {
        let wal = tx.get_wal();
        self.walq.begin_abort(&mut self.vol, wal);
        let discarded = tx.abort(&mut self.cows, &mut self.vol);
        proof {
            assert forall|x: u64| !tx.entries@.dom().contains(x) implies
                self.cows@.dom().contains(x) == old(self).cows@.dom().contains(x)
                    && (old(self).cows@.dom().contains(x)
                        ==> self.cows@[x] == old(self).cows@[x]) by {}
        }
        match discarded {
            Ok(_) => {
                // a failure of the end marker is only noted: the record
                // then stays Aborting and recovery resumes it
                match self.walq.end_abort(&mut self.vol, tx.txid) {
                    Ok(_) => {},
                    Err(_) => {},
                }
            },
            Err(_) => {},
        }
        self.remove_trans(tx.txid, tx.thread);
    }

    /// Commit a transaction: persist its staged arms, durably record the
    /// commit marker, and only then flip each touched entity's selector.
    /// Any failure aborts the whole transaction and surfaces the original
    /// commit error; either way the transaction ends finished.
    pub fn commit_trans(&mut self, txid: Txid) -> (r: Result<(), Error>)
        requires
            old(self).wf(),
        ensures
            final(self).wf(),
            !final(self).txs_map().dom().contains(txid),
            old(self).txs_map().dom().contains(txid) ==> TxMgr::tx_finished(
                *old(self),
                *final(self),
                txid,
            ),
            !old(self).txs_map().dom().contains(txid) ==> r == Err::<(), Error>(Error::NoTrans)
                && *final(self) == *old(self),
            old(self).txs_map().dom().contains(txid) ==> TxMgr::tx_frame(
                *old(self),
                *final(self),
                txid,
            ),
            r is Ok <==> old(self).commit_allowed(txid),
            r is Err ==> TxMgr::reads_preserved(*old(self), *final(self)),
            r is Ok ==> TxMgr::commit_applied(*old(self), *final(self), txid),
            old(self).txs_map().dom().contains(txid) && !old(self).commit_allowed(txid) ==> (
            if exists|j: int| 0 <= j < old(self).txs_map()[txid].entries.kvs().len()
                && old(self).vol.fails(
                (#[trigger] old(self).txs_map()[txid].entries.kvs()[j]).0,
            ) {
                r == Err::<(), Error>(Error::InUse)
            } else {
                r == Err::<(), Error>(Error::Io)
            }),
    {
        let tx = match lhm_remove(&mut self.txs, txid) {
            None => {
                proof {
                    assert(self.txs_map() =~= old(self).txs_map());
                }
                return Err(Error::NoTrans);
            },
            Some(tx) => tx,
        };
        let committed = match tx.commit(&self.cows, &mut self.vol) {
            Ok(wal) => {
                match self.walq.commit_trans(&mut self.vol, wal) {
                    Ok(_) => Ok(()),
                    Err(err) => Err(err),
                }
            },
            Err(err) => Err(err),
        };
        match committed {
            Ok(_) => {
                tx.complete_commit(&mut self.cows, &mut self.vol);
                self.remove_trans(txid, tx.thread);
                proof {
                    assert(self.txs_map() =~= old(self).txs_map().remove(txid));
                    let pre = *old(self);
                    let entries = pre.txs_map()[txid].entries;
                    assert forall|j: int| 0 <= j < entries.kvs().len() implies {
                        let id = (#[trigger] entries.kvs()[j]).0;
                        let e = entries.kvs()[j].1;
                        if e.action == Action::Delete {
                            (pre.cows@.dom().contains(id) && pre.cows@[id].staged_by(txid))
                                ==> !self.cows@.dom().contains(id)
                                    && !self.vol.data@.dom().contains(id)
                        } else {
                            ((pre.cows@.dom().contains(id) && pre.cows@[id].staged_by(txid))
                                ==> self.cows@.dom().contains(id) && self.cows@[id]
                                    == pre.cows@[id].spec_flipped(e.arm))
                                && ((pre.cows@.dom().contains(id) && pre.cows@[id].staged_by(txid)
                                    && pre.cows@[id].slot(e.arm) is Some
                                    && (!pre.vol.data@.dom().contains(id)
                                        || pre.vol.data@[id].active != Some(e.arm)))
                                    ==> self.vol.data@.dom().contains(id)
                                        && self.vol.data@[id].active == Some(e.arm)
                                        && slot_of(self.vol.data@[id], e.arm)
                                            == pre.cows@[id].slot(e.arm))
                        }
                    } by {}
                }
                Ok(())
            },
            Err(err) => {
                // the commit failed: abort the transaction, then return
                // the original commit error
                self.abort_with(&tx);
                Err(err)
            },
        }
    }

    /// Abort a transaction: discard its staged arms under the abort
    /// markers and purge it. An unknown transaction id only clears
    /// nothing; a failing discard is noted, never propagated.
    pub fn abort_trans(&mut self, txid: Txid)
        requires
            old(self).wf(),
        ensures
            final(self).wf(),
            TxMgr::reads_preserved(*old(self), *final(self)),
            !final(self).txs_map().dom().contains(txid),
            old(self).txs_map().dom().contains(txid) ==> TxMgr::tx_finished(
                *old(self),
                *final(self),
                txid,
            ),
            !old(self).txs_map().dom().contains(txid) ==> *final(self) == *old(self),
            old(self).txs_map().dom().contains(txid) ==> TxMgr::tx_frame(
                *old(self),
                *final(self),
                txid,
            ),
            // the abort is bracketed durably: fully discarded it is marked
            // Aborted, an interrupted discard leaves the resumable marker
            old(self).txs_map().dom().contains(txid) ==> final(self).vol.wals@.dom().contains(txid)
                && final(self).vol.wals@[txid].state == (if !old(self).vol.wal_fail && forall|
                j: int,
            |
                0 <= j < old(self).txs_map()[txid].entries.kvs().len() ==> !old(self).vol.fails(
                    (#[trigger] old(self).txs_map()[txid].entries.kvs()[j]).0,
                ) {
                WalState::Aborted
            } else {
                WalState::Aborting
            }),
    {
        let tx = match lhm_remove(&mut self.txs, txid) {
            None => {
                proof {
                    assert(self.txs_map() =~= old(self).txs_map());
                }
                return ;
            },
            Some(tx) => tx,
        };
        self.abort_with(&tx);
    }
}

/// Law: a mutation of a committed entity always targets the inactive
/// arm, and completing its commit flips the selector to exactly that
/// arm — so each successful commit of a surviving entity alternates the
/// active arm, independent of the value written.
pub proof fn lemma_arm_alternation(c: Cow, txid: Txid, action: Action, val: u64)
    requires
        c.committed,
    ensures
        TxMgr::restage_arm(c, txid) == c.active.spec_other(),
        c.spec_staged(txid, action, TxMgr::restage_arm(c, txid), val).spec_flipped(
            TxMgr::restage_arm(c, txid),
        ).active == c.active.spec_other(),
{
}

/// The entity after a run of staged-and-committed updates, one per
/// element: each step stages a value under a transaction and completes
/// its commit.
pub open spec fn recommitted(c: Cow, steps: Seq<(Txid, u64)>) -> Cow
    decreases steps.len(),
{
    if steps.len() == 0 {
        c
    } else {
        let prev = recommitted(c, steps.drop_last());
        let arm = TxMgr::restage_arm(prev, steps.last().0);
        prev.spec_staged(steps.last().0, Action::Update, arm, steps.last().1).spec_flipped(arm)
    }
}

/// The arm that is active after `n` alternations from `first`.
pub open spec fn alternating_arm(first: Arm, n: nat) -> Arm {
    if n % 2 == 0 {
        first
    } else {
        first.spec_other()
    }
}

/// Law: cleanup is idempotent. Once a transaction is finished — its
/// record gone and no ownership entry mapping to it — removing it again
/// from the live table or filtering the ownership map again changes
/// nothing; and the contracts of `commit_trans` and `abort_trans` state
/// directly that ending an already-finished transaction id leaves the
/// manager untouched.
pub proof fn lemma_cleanup_idempotent(pre: TxMgr, post: TxMgr, txid: Txid)
    requires
        TxMgr::tx_finished(pre, post, txid),
    ensures
        post.txs_map().remove(txid) == post.txs_map(),
        forall|x: u64| #[trigger] post.ents@.dom().contains(x)
            <==> post.ents@.dom().contains(x) && post.ents@[x] != txid,
{
    assert(post.txs_map().remove(txid) =~= post.txs_map());
}

/// Law: for a committed entity taken through any run of staged updates,
/// each committed in sequence without deletion, the active arm
/// alternates strictly — Right, Left, Right, … from a fresh creation —
/// whatever values the run writes and whichever transactions write them.
pub proof fn lemma_arm_alternation_run(c: Cow, steps: Seq<(Txid, u64)>)
    requires
        c.committed,
    ensures
        recommitted(c, steps).committed,
        recommitted(c, steps).active == alternating_arm(c.active, steps.len()),
    decreases steps.len(),
{
    if steps.len() > 0 {
        lemma_arm_alternation_run(c, steps.drop_last());
        lemma_arm_alternation(
            recommitted(c, steps.drop_last()),
            steps.last().0,
            Action::Update,
            steps.last().1,
        );
    }
}

/// Law: deleting an entity and re-creating it under the same identifier
/// resets versioning — the creation stages the Right arm, and the first
/// commit leaves Right active with the created value visible.
pub proof fn lemma_delete_resets_versioning(txid: Txid, val: u64)
    ensures
        Cow::spec_fresh(txid, val).staged->0.arm == Arm::Right,
        Cow::spec_fresh(txid, val).spec_flipped(Arm::Right).active == Arm::Right,
        Cow::spec_fresh(txid, val).spec_flipped(Arm::Right).read_val() == Some(val),
{
}

/// Law: for an entity with a committed version, what a read returns is
/// exactly the last committed value — never one staged by an in-flight
/// transaction, since staging preserves `committed_read` and a read
/// follows the active arm.
pub proof fn lemma_atomic_visibility(tm: TxMgr, id: Eid)
    requires
        tm.cows@.dom().contains(id) ==> tm.cows@[id].committed,
    ensures
        tm.read_spec(id) == tm.committed_read(id),
{
}

/// A caller-facing handle bound to one transaction.
#[derive(Clone, Copy, Debug)]
pub struct TxHandle {
    /// The transaction this handle controls.
    pub txid: Txid,
}

impl TxHandle {
    /// The transaction was aborted (or was not live at all): the
    /// triggering error wins, nothing became visible, everything beyond
    /// the transaction is untouched, and its abort is durably bracketed —
    /// fully discarded it is marked Aborted, an interrupted discard
    /// leaves the resumable Aborting marker.
    pub open spec fn aborted_spec(self, pre: TxMgr, post: TxMgr) -> bool {
        TxMgr::reads_preserved(pre, post) && !post.txs_map().dom().contains(self.txid) && (
        !pre.txs_map().dom().contains(self.txid) ==> post == pre) && (
        pre.txs_map().dom().contains(self.txid) ==> TxMgr::tx_finished(pre, post, self.txid)
            && TxMgr::tx_frame(pre, post, self.txid) && post.vol.wals@.dom().contains(self.txid)
            && post.vol.wals@[self.txid].state == (if !pre.vol.wal_fail && forall|j: int|
            0 <= j < pre.txs_map()[self.txid].entries.kvs().len() ==> !pre.vol.fails(
                (#[trigger] pre.txs_map()[self.txid].entries.kvs()[j]).0,
            ) {
            WalState::Aborted
        } else {
            WalState::Aborting
        }))
    }

    /// The commit path ran: success exactly when every write and marker
    /// is accepted, with the flips applied; a storage refusal surfaces as
    /// InUse and a failed marker as Io after an abort; a stale handle is
    /// NoTrans with nothing touched; everything beyond the transaction is
    /// untouched.
    pub open spec fn committed_spec(self, pre: TxMgr, post: TxMgr, r: Result<(), Error>) -> bool {
        (!pre.txs_map().dom().contains(self.txid) ==> r == Err::<(), Error>(Error::NoTrans)
            && post == pre) && (pre.txs_map().dom().contains(self.txid) ==> TxMgr::tx_finished(
            pre,
            post,
            self.txid,
        ) && TxMgr::tx_frame(pre, post, self.txid)) && (r is Ok <==> pre.commit_allowed(self.txid))
            && (r is Err ==> TxMgr::reads_preserved(pre, post)) && (r is Ok
            ==> TxMgr::commit_applied(pre, post, self.txid)) && (pre.txs_map().dom().contains(
            self.txid,
        ) && !pre.commit_allowed(self.txid) ==> (if exists|j: int|
            0 <= j < pre.txs_map()[self.txid].entries.kvs().len() && pre.vol.fails(
                (#[trigger] pre.txs_map()[self.txid].entries.kvs()[j]).0,
            ) {
            r == Err::<(), Error>(Error::InUse)
        } else {
            r == Err::<(), Error>(Error::Io)
        }))
    }

    /// Guard one unit of work inside the transaction without committing:
    /// a success passes through, a failure aborts the transaction and the
    /// original error comes back.
    pub fn run(&self, tm: &mut TxMgr, outcome: Result<(), Error>) -> (r: Result<(), Error>)
        requires
            old(tm).wf(),
        ensures
            final(tm).wf(),
            r == outcome,
            outcome is Ok ==> *final(tm) == *old(tm),
            outcome is Err ==> self.aborted_spec(*old(tm), *final(tm)),
    {
        match outcome {
            Ok(ok) => Ok(ok),
            Err(err) => self.abort(tm, err),
        }
    }

    /// Guard one unit of work and finish the transaction: a success
    /// commits, a failure aborts; either way the caller's own error wins.
    pub fn run_all(&self, tm: &mut TxMgr, outcome: Result<(), Error>) -> (r: Result<(), Error>)
        requires
            old(tm).wf(),
        ensures
            final(tm).wf(),
            !final(tm).txs_map().dom().contains(self.txid),
            outcome is Err ==> r == outcome && self.aborted_spec(*old(tm), *final(tm)),
            outcome is Ok ==> self.committed_spec(*old(tm), *final(tm), r),
    {
        match outcome {
            Ok(_) => self.commit(tm),
            Err(err) => self.abort(tm, err),
        }
    }

    /// Commit the transaction this handle controls, forwarding the
    /// manager's whole commit contract.
    pub fn commit(&self, tm: &mut TxMgr) -> (r: Result<(), Error>)
        requires
            old(tm).wf(),
        ensures
            final(tm).wf(),
            !final(tm).txs_map().dom().contains(self.txid),
            self.committed_spec(*old(tm), *final(tm), r),
    {
        tm.commit_trans(self.txid)
    }

    /// Abort the transaction and hand the triggering error back: the
    /// abort's own outcome is never allowed to mask it.
    fn abort(&self, tm: &mut TxMgr, err: Error) -> (r: Result<(), Error>)
        requires
            old(tm).wf(),
        ensures
            final(tm).wf(),
            r == Err::<(), Error>(err),
            self.aborted_spec(*old(tm), *final(tm)),
    {
        tm.abort_trans(self.txid);
        Err(err)
    }
}

} // verus!
