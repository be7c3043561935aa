//! The write-ahead-log queue manager.
//!
//! Every transaction leaves an ordered record of its intents in the
//! volume, bracketed by markers: Begin when it starts, Committed once its
//! writes are durable, Aborting/Aborted around an abort. A record left in
//! Aborting by a crash is the one replayable state: reopening the queue
//! (and, defensively, every transaction begin) finishes such an abort
//! before new work is accepted.
use vstd::prelude::*;

use crate::table::Table;
use crate::volume::{visible_of, Volume};
use crate::{Eid, EntInfo, Error, Txid};

verus! {

/// The durable marker state of one transaction's WAL record.
#[derive(Clone, Copy, Debug, PartialEq, Eq, Structural)]
pub enum WalState {
    /// The transaction has begun.
    Begin,
    /// Its entity writes are durable and the commit marker is recorded.
    Committed,
    /// An abort has begun and is not yet durably finished.
    Aborting,
    /// The abort finished.
    Aborted,
}

/// One transaction's WAL record: its id, the ordered entity entries, and
/// the marker state.
#[derive(Debug)]
pub struct WalRec {
    pub txid: Txid,
    pub entries: Table<EntInfo>,
    pub state: WalState,
}

/// No entity of this record has an injected storage failure, so its
/// staged writes can be discarded.
pub open spec fn wal_clean(w: WalRec, vol: Volume) -> bool {
    forall|i: int| 0 <= i < w.entries.kvs().len()
        ==> !vol.fails((#[trigger] w.entries.kvs()[i]).0)
}

/// Every interrupted abort in the queue can be replayed to completion.
pub open spec fn redo_ok(vol: Volume) -> bool {
    forall|t: u64| #[trigger] vol.wals@.dom().contains(t)
        && vol.wals@[t].state == WalState::Aborting ==> wal_clean(vol.wals@[t], vol)
}

/// No WAL record is left mid-abort.
pub open spec fn no_aborting(vol: Volume) -> bool {
    forall|t: u64| #[trigger] vol.wals@.dom().contains(t)
        ==> vol.wals@[t].state != WalState::Aborting
}

/// Every WAL record survives a replay with its id and entries: one
/// caught mid-abort is now Aborted or still Aborting, every other one is
/// untouched.
pub open spec fn wals_redone(pre: Volume, post: Volume) -> bool {
    (forall|t: u64| pre.wals@.dom().contains(t) == post.wals@.dom().contains(t)) && forall|t: u64|
        #[trigger] pre.wals@.dom().contains(t) ==> {
            let w = pre.wals@[t];
            let w2 = post.wals@[t];
            w2.txid == w.txid && w2.entries == w.entries && (if w.state == WalState::Aborting {
                w2.state == WalState::Aborting || w2.state == WalState::Aborted
            } else {
                w2 == w
            })
        }
}

/// Replay the abort of one WAL record if it is in the Aborting state:
/// discard each entry's staged write, then mark the record Aborted. A
/// failing discard leaves the record Aborting so a later replay resumes.
fn redo_one(vol: &mut Volume, t: u64) -> (r: Result<(), Error>)
    requires
        old(vol).wf(),
        old(vol).wals@.dom().contains(t) ==> old(vol).wals@[t].txid == t
            && old(vol).wals@[t].entries.wf(),
    ensures
        final(vol).wf(),
        final(vol).fail_ids == old(vol).fail_ids,
        final(vol).wal_fail == old(vol).wal_fail,
        forall|x: u64| visible_of(final(vol).data@, x) == visible_of(old(vol).data@, x),
        forall|t2: u64| t2 != t ==> old(vol).wals@.dom().contains(t2)
            == final(vol).wals@.dom().contains(t2)
            && (old(vol).wals@.dom().contains(t2) ==> final(vol).wals@[t2] == old(vol).wals@[t2]),
        final(vol).wals@.dom().contains(t) == old(vol).wals@.dom().contains(t),
        old(vol).wals@.dom().contains(t) ==> {
            let w = old(vol).wals@[t];
            let w2 = final(vol).wals@[t];
            w2.txid == w.txid && w2.entries == w.entries
                && (if w.state == WalState::Aborting {
                    (r is Ok <==> wal_clean(w, *old(vol)))
                    && (r is Ok ==> w2.state == WalState::Aborted)
                    && (r is Err ==> w2.state == WalState::Aborting)
                } else {
                    r is Ok && w2 == w
                })
        },
        !old(vol).wals@.dom().contains(t) ==> r is Ok && final(vol).wals == old(vol).wals,
        r is Err ==> r == Err::<(), Error>(Error::InUse),
{
    let rec = match vol.wals.remove(t) {
        None => {
            proof {
                assert(old(vol).wals@.remove(t) =~= old(vol).wals@);
            }
            return Ok(());
        },
        Some(rec) => rec,
    };
    if !matches!(rec.state, WalState::Aborting) {
        vol.wals.insert(t, rec);
        proof {
            assert forall|t2: u64| t2 != t implies old(vol).wals@.dom().contains(t2)
                == vol.wals@.dom().contains(t2)
                && (old(vol).wals@.dom().contains(t2) ==> vol.wals@[t2] == old(vol).wals@[t2]) by {}
        }
        return Ok(());
    }
    let n = rec.entries.len();
    let mut i: usize = 0;
    while i < n
        invariant
            vol.wf(),
            rec.entries.wf(),
            rec.txid == t,
            n == rec.entries.kvs().len(),
            0 <= i <= n,
            old(vol).wals@.dom().contains(t),
            rec == old(vol).wals@[t],
            rec.state == WalState::Aborting,
            vol.wals@ == old(vol).wals@.remove(t),
            vol.fail_ids == old(vol).fail_ids,
            vol.wal_fail == old(vol).wal_fail,
            forall|x: u64| visible_of(vol.data@, x) == visible_of(old(vol).data@, x),
            forall|j: int| 0 <= j < i ==> !vol.fails((#[trigger] rec.entries.kvs()[j]).0),
        decreases n - i,
    {
        let id = rec.entries.key_at(i);
        let e = *rec.entries.val_at(i);
        match vol.discard(id, e) {
            Ok(_) => {},
            Err(err) => {
                proof {
                    assert(old(vol).fails(id));
                    assert(rec.entries.kvs()[i as int].0 == id);
                    assert(!wal_clean(rec, *old(vol)));
                }
                let ghost rec_g = rec;
                vol.wals.insert(t, rec);
                proof {
                    assert(vol.wals@[t] == rec_g);
                    assert forall|t2: u64| t2 != t implies old(vol).wals@.dom().contains(t2)
                        == vol.wals@.dom().contains(t2)
                        && (old(vol).wals@.dom().contains(t2)
                            ==> vol.wals@[t2] == old(vol).wals@[t2]) by {}
                }
                return Err(err);
            },
        }
        i += 1;
    }
    let done = WalRec { txid: rec.txid, entries: rec.entries, state: WalState::Aborted };
    vol.wals.insert(t, done);
    proof {
        assert(wal_clean(old(vol).wals@[t], *old(vol)));
        assert forall|t2: u64| t2 != t implies old(vol).wals@.dom().contains(t2)
            == vol.wals@.dom().contains(t2)
            && (old(vol).wals@.dom().contains(t2) ==> vol.wals@[t2] == old(vol).wals@[t2]) by {}
    }
    Ok(())
}

/// The WAL queue manager: allocates transaction ids and brackets each
/// transaction's lifetime with durable markers.
#[derive(Debug)]
pub struct WalQueueMgr {
    /// The queue's own entity id in the volume.
    pub walq_id: Eid,
    /// The next transaction id to hand out.
    pub next: Txid,
}

/// Every WAL record is keyed by its own transaction id and carries a
/// well-formed entry table.
pub open spec fn wals_wf(vol: Volume) -> bool {
    forall|t: u64| #[trigger] vol.wals@.dom().contains(t)
        ==> vol.wals@[t].txid == t && vol.wals@[t].entries.wf()
}

/// Finish every abort the queue shows as interrupted: the one replayable
/// state is a record left Aborting. Succeeds exactly when every such
/// record's staged writes can be discarded; the durably visible value of
/// every entity is unchanged either way.
pub fn hot_redo_abort(vol: &mut Volume) -> (r: Result<(), Error>)
    requires
        old(vol).wf(),
        wals_wf(*old(vol)),
    ensures
        final(vol).wf(),
        wals_wf(*final(vol)),
        final(vol).fail_ids == old(vol).fail_ids,
        final(vol).wal_fail == old(vol).wal_fail,
        forall|x: u64| visible_of(final(vol).data@, x) == visible_of(old(vol).data@, x),
        r is Ok <==> redo_ok(*old(vol)),
        r is Err ==> r == Err::<(), Error>(Error::InUse),
        r is Ok ==> no_aborting(*final(vol)),
        wals_redone(*old(vol), *final(vol)),
        forall|t2: u64| old(vol).wals@.dom().contains(t2) == final(vol).wals@.dom().contains(t2),
        forall|t2: u64| #[trigger] old(vol).wals@.dom().contains(t2) ==> {
            let w = old(vol).wals@[t2];
            let w2 = final(vol).wals@[t2];
            w2.txid == w.txid && w2.entries == w.entries
                && (if w.state == WalState::Aborting {
                    w2.state == WalState::Aborting || w2.state == WalState::Aborted
                } else {
                    w2 == w
                })
        },
{
    let mut pending: Vec<u64> = Vec::new();
    let n = vol.wals.len();
    let mut i: usize = 0;
    while i < n
        invariant
            vol == old(vol),
            vol.wf(),
            n == vol.wals.kvs().len(),
            0 <= i <= n,
            forall|w: int| 0 <= w < pending@.len() ==> vol.wals@.dom().contains(#[trigger] pending@[w])
                && vol.wals@[pending@[w]].state == WalState::Aborting,
            forall|j: int| 0 <= j < i && (#[trigger] vol.wals.kvs()[j]).1.state == WalState::Aborting
                ==> pending@.contains(vol.wals.kvs()[j].0),
        decreases n - i,
    {
        let st = vol.wals.val_at(i).state;
        if matches!(st, WalState::Aborting) {
            let ghost pre = pending@;
            pending.push(vol.wals.key_at(i));
            proof {
                vol.wals.lemma_at(i as int);
                assert forall|j: int| 0 <= j < i + 1
                    && (#[trigger] vol.wals.kvs()[j]).1.state == WalState::Aborting
                    implies pending@.contains(vol.wals.kvs()[j].0) by {
                    if j < i {
                        let w = choose|w: int| 0 <= w < pre.len() && pre[w] == vol.wals.kvs()[j].0;
                        assert(pending@[w] == vol.wals.kvs()[j].0);
                    } else {
                        assert(pending@[pending@.len() - 1] == vol.wals.kvs()[j].0);
                    }
                }
                assert forall|w: int| 0 <= w < pending@.len()
                    implies vol.wals@.dom().contains(#[trigger] pending@[w])
                    && vol.wals@[pending@[w]].state == WalState::Aborting by {
                    if w < pre.len() {
                        assert(pre[w] == pending@[w]);
                    }
                }
            }
        }
        i += 1;
    }
    proof {
        assert forall|t: u64| #[trigger] vol.wals@.dom().contains(t)
            && vol.wals@[t].state == WalState::Aborting implies pending@.contains(t) by {
            vol.wals.lemma_dom_to_idx(t);
            let j = choose|j: int| 0 <= j < vol.wals.kvs().len()
                && (#[trigger] vol.wals.kvs()[j]).0 == t;
            vol.wals.lemma_at(j);
        }
    }
    let m = pending.len();
    let mut k: usize = 0;
    while k < m
        invariant
            vol.wf(),
            wals_wf(*vol),
            m == pending@.len(),
            0 <= k <= m,
            vol.fail_ids == old(vol).fail_ids,
            vol.wal_fail == old(vol).wal_fail,
            forall|x: u64| visible_of(vol.data@, x) == visible_of(old(vol).data@, x),
            forall|t2: u64| old(vol).wals@.dom().contains(t2) == vol.wals@.dom().contains(t2),
            forall|t2: u64| #[trigger] old(vol).wals@.dom().contains(t2) ==> {
                let w = old(vol).wals@[t2];
                let w2 = vol.wals@[t2];
                w2.txid == w.txid && w2.entries == w.entries
                    && (if w.state == WalState::Aborting {
                        w2.state == WalState::Aborting || w2.state == WalState::Aborted
                    } else {
                        w2 == w
                    })
            },
            forall|t2: u64| #[trigger] vol.wals@.dom().contains(t2)
                && vol.wals@[t2].state == WalState::Aborting
                ==> exists|w: int| k <= w < m && pending@[w] == t2,
            forall|t2: u64| #[trigger] old(vol).wals@.dom().contains(t2)
                && old(vol).wals@[t2].state == WalState::Aborting
                && !wal_clean(old(vol).wals@[t2], *old(vol))
                ==> vol.wals@[t2].state == WalState::Aborting,
        decreases m - k,
    {
        let t = pending[k];
        let ghost prew = vol.wals@;
        let ghost prev = *vol;
        match redo_one(vol, t) {
            Ok(_) => {},
            Err(err) => {
                return Err(err);
            },
        }
        k += 1;
        proof {
            assert forall|t2: u64| #[trigger] vol.wals@.dom().contains(t2)
                && vol.wals@[t2].state == WalState::Aborting
                implies exists|w: int| k <= w < m && pending@[w] == t2 by {
                assert(prew.dom().contains(t2));
                if t2 == t {
                    // redo_one succeeded on t, so t is no longer Aborting
                    assert(false);
                } else {
                    assert(prew[t2] == vol.wals@[t2]);
                    let w = choose|w: int| k - 1 <= w < m && pending@[w] == t2;
                    assert(pending@[w] == t2 && w != k - 1);
                }
            }
            assert forall|t2: u64| #[trigger] old(vol).wals@.dom().contains(t2)
                && old(vol).wals@[t2].state == WalState::Aborting
                && !wal_clean(old(vol).wals@[t2], *old(vol))
                implies vol.wals@[t2].state == WalState::Aborting by {
                if t2 == t {
                    // a dirty record cannot have been redone: its entries
                    // and the failure set are unchanged, so redo_one on it
                    // would have returned the error instead
                    assert(prew[t].state == WalState::Aborting);
                    assert(prew[t].entries == old(vol).wals@[t].entries);
                    assert(!wal_clean(prew[t], prev));
                    assert(false);
                } else {
                    assert(vol.wals@[t2] == prew[t2]);
                }
            }
        }
    }
    proof {
        if !redo_ok(*old(vol)) {
            let t = choose|t: u64| #[trigger] old(vol).wals@.dom().contains(t)
                && old(vol).wals@[t].state == WalState::Aborting
                && !wal_clean(old(vol).wals@[t], *old(vol));
            // a record that cannot be replayed would still be Aborting,
            // yet nothing is left pending: the sweep must have failed
            assert(vol.wals@.dom().contains(t));
            assert(vol.wals@[t].state == WalState::Aborting);
            assert(exists|w: int| m <= w < m && pending@[w] == t);
            assert(false);
        }
        assert forall|t2: u64| #[trigger] vol.wals@.dom().contains(t2)
            implies vol.wals@[t2].state != WalState::Aborting by {
        }
    }
    Ok(())
}

impl WalQueueMgr {
    /// A fresh queue manager; ids start at 1.
    pub fn new(walq_id: Eid) -> (r: WalQueueMgr)
        ensures
            r.walq_id == walq_id,
            r.next == 1,
    {
        WalQueueMgr { walq_id, next: 1 }
    }

    /// Load the queue from the volume: continue the id sequence past
    /// every recorded transaction, then finish any interrupted abort.
    pub fn open(&mut self, vol: &mut Volume) -> (r: Result<(), Error>)
        requires
            old(vol).wf(),
            wals_wf(*old(vol)),
        ensures
            final(vol).wf(),
            wals_wf(*final(vol)),
            final(self).walq_id == old(self).walq_id,
            final(vol).fail_ids == old(vol).fail_ids,
            final(vol).wal_fail == old(vol).wal_fail,
            forall|x: u64| visible_of(final(vol).data@, x) == visible_of(old(vol).data@, x),
            r is Ok <==> redo_ok(*old(vol)),
            r is Err ==> r == Err::<(), Error>(Error::InUse),
            r is Ok ==> no_aborting(*final(vol)),
            wals_redone(*old(vol), *final(vol)),
            forall|t2: u64| old(vol).wals@.dom().contains(t2) == final(vol).wals@.dom().contains(t2),
    {
        let n = vol.wals.len();
        let mut i: usize = 0;
        let mut next: u64 = 1;
        while i < n
            invariant
                vol == old(vol),
                vol.wf(),
                n == vol.wals.kvs().len(),
                0 <= i <= n,
                next >= 1,
            decreases n - i,
        {
            let t = vol.wals.key_at(i);
            if t >= next {
                next = if t == u64::MAX { u64::MAX } else { t + 1 };
            }
            i += 1;
        }
        self.next = next;
        hot_redo_abort(vol)
    }

    /// Allocate the next transaction id.
    pub fn next_txid(&mut self) -> (r: u64)
        requires
            old(self).next < u64::MAX,
        ensures
            r == old(self).next,
            final(self).next == old(self).next + 1,
            final(self).walq_id == old(self).walq_id,
    {
        let t = self.next;
        self.next = self.next + 1;
        t
    }

    /// Durably record a transaction's begin marker.
    pub fn begin_trans(&self, vol: &mut Volume, txid: Txid) -> (r: Result<(), Error>)
        requires
            old(vol).wf(),
        ensures
            final(vol).wf(),
            final(vol).data == old(vol).data,
            final(vol).fail_ids == old(vol).fail_ids,
            final(vol).wal_fail == old(vol).wal_fail,
            r is Ok <==> !old(vol).wal_fail,
            r is Err ==> r == Err::<(), Error>(Error::Io) && final(vol).wals == old(vol).wals,
            r is Ok ==> final(vol).wals@.dom() == old(vol).wals@.dom().insert(txid)
                && final(vol).wals@[txid].txid == txid
                && final(vol).wals@[txid].state == WalState::Begin
                && final(vol).wals@[txid].entries.kvs() == Seq::<(u64, EntInfo)>::empty()
                && final(vol).wals@[txid].entries.wf()
                && forall|t2: u64| t2 != txid && old(vol).wals@.dom().contains(t2)
                    ==> final(vol).wals@[t2] == old(vol).wals@[t2],
            wals_wf(*old(vol)) ==> wals_wf(*final(vol)),
    {
        if self.wal_fail_hit(vol) {
            return Err(Error::Io);
        }
        vol.wal_put(WalRec { txid, entries: Table::new(), state: WalState::Begin });
        proof {
            assert(vol.wals@.dom() =~= old(vol).wals@.dom().insert(txid));
        }
        Ok(())
    }

    /// Durably record the commit marker for a transaction's WAL record.
    pub fn commit_trans(&self, vol: &mut Volume, wal: WalRec) -> (r: Result<(), Error>)
        requires
            old(vol).wf(),
        ensures
            final(vol).wf(),
            final(vol).data == old(vol).data,
            final(vol).fail_ids == old(vol).fail_ids,
            final(vol).wal_fail == old(vol).wal_fail,
            r is Ok <==> !old(vol).wal_fail,
            r is Err ==> r == Err::<(), Error>(Error::Io) && final(vol).wals == old(vol).wals,
            r is Ok ==> final(vol).wals@.dom() == old(vol).wals@.dom().insert(wal.txid)
                && final(vol).wals@[wal.txid].txid == wal.txid
                && final(vol).wals@[wal.txid].state == WalState::Committed
                && final(vol).wals@[wal.txid].entries == wal.entries
                && forall|t2: u64| t2 != wal.txid && old(vol).wals@.dom().contains(t2)
                    ==> final(vol).wals@[t2] == old(vol).wals@[t2],
            wals_wf(*old(vol)) && wal.entries.wf() ==> wals_wf(*final(vol)),
    {
        if self.wal_fail_hit(vol) {
            return Err(Error::Io);
        }
        vol.wal_put(WalRec { txid: wal.txid, entries: wal.entries, state: WalState::Committed });
        proof {
            assert(vol.wals@.dom() =~= old(vol).wals@.dom().insert(wal.txid));
        }
        Ok(())
    }

    /// Durably mark that a transaction's abort has begun. The bracketing
    /// write itself is the marker a crash leaves behind, so it does not
    /// fail.
    pub fn begin_abort(&self, vol: &mut Volume, wal: WalRec)
        requires
            old(vol).wf(),
        ensures
            final(vol).wf(),
            final(vol).data == old(vol).data,
            final(vol).fail_ids == old(vol).fail_ids,
            final(vol).wal_fail == old(vol).wal_fail,
            final(vol).wals@.dom() == old(vol).wals@.dom().insert(wal.txid),
            final(vol).wals@[wal.txid].txid == wal.txid,
            final(vol).wals@[wal.txid].state == WalState::Aborting,
            final(vol).wals@[wal.txid].entries == wal.entries,
            forall|t2: u64| t2 != wal.txid && old(vol).wals@.dom().contains(t2)
                ==> final(vol).wals@[t2] == old(vol).wals@[t2],
            wals_wf(*old(vol)) && wal.entries.wf() ==> wals_wf(*final(vol)),
    {
        vol.wal_put(WalRec { txid: wal.txid, entries: wal.entries, state: WalState::Aborting });
        proof {
            assert(vol.wals@.dom() =~= old(vol).wals@.dom().insert(wal.txid));
        }
    }

    /// Durably mark a transaction's abort as finished.
    pub fn end_abort(&self, vol: &mut Volume, txid: Txid) -> (r: Result<(), Error>)
        requires
            old(vol).wf(),
        ensures
            final(vol).wf(),
            final(vol).data == old(vol).data,
            final(vol).fail_ids == old(vol).fail_ids,
            final(vol).wal_fail == old(vol).wal_fail,
            r is Ok <==> !old(vol).wal_fail,
            r is Err ==> r == Err::<(), Error>(Error::Io) && final(vol).wals == old(vol).wals,
            r is Ok ==> final(vol).wals@.dom() == old(vol).wals@.dom()
                && (old(vol).wals@.dom().contains(txid)
                    ==> final(vol).wals@[txid].txid == old(vol).wals@[txid].txid
                        && final(vol).wals@[txid].entries == old(vol).wals@[txid].entries
                        && final(vol).wals@[txid].state == WalState::Aborted)
                && forall|t2: u64| t2 != txid && old(vol).wals@.dom().contains(t2)
                    ==> final(vol).wals@[t2] == old(vol).wals@[t2],
            wals_wf(*old(vol)) ==> wals_wf(*final(vol)),
    {
        if self.wal_fail_hit(vol) {
            return Err(Error::Io);
        }
        match vol.wals.remove(txid) {
            None => {
                proof {
                    assert(old(vol).wals@.remove(txid) =~= old(vol).wals@);
                }
                Ok(())
            },
            Some(rec) => {
                let done = WalRec { txid: rec.txid, entries: rec.entries, state: WalState::Aborted };
                vol.wals.insert(txid, done);
                proof {
                    assert(vol.wals@.dom() =~= old(vol).wals@.dom());
                }
                Ok(())
            },
        }
    }

    /// Whether the next durable marker write would fail.
    fn wal_fail_hit(&self, vol: &Volume) -> (r: bool)
        ensures
            r == vol.wal_fail,
    {
        vol.wal_fail
    }
}

} // verus!
