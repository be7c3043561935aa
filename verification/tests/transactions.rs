use cowtx::txmgr::TxMgr;
use cowtx::volume::Volume;
use cowtx::{Arm, Error};

const TH: u64 = 7;
const WALQ: u64 = 900;

#[test]
fn trans_oper() {
    let vol = Volume::new();
    let mut tm = TxMgr::new(WALQ, vol);
    let val: u64 = 42;
    let val2: u64 = 43;
    let a: u64 = 1;
    let b: u64 = 2;

    // tx #1, new
    let tx = tm.begin_trans(TH).unwrap();
    tm.create(a, tx.txid, val).unwrap();
    assert_eq!(tm.read(a), Some(val));
    assert_eq!(tm.active_arm(a), Some(Arm::Right));
    tx.run_all(&mut tm, Ok(())).unwrap();
    assert_eq!(tm.read(a), Some(val));
    assert_eq!(tm.active_arm(a), Some(Arm::Right));

    // tx #2, new and update
    let tx = tm.begin_trans(TH).unwrap();
    tm.make_mut(a, tx.txid, val2).unwrap();
    tm.create(b, tx.txid, val).unwrap();
    tx.run_all(&mut tm, Ok(())).unwrap();
    assert_eq!(tm.read(a), Some(val2));
    assert_eq!(tm.active_arm(a), Some(Arm::Left));
    assert_eq!(tm.read(b), Some(val));
    assert_eq!(tm.active_arm(b), Some(Arm::Right));

    // tx #3, update and delete
    let tx = tm.begin_trans(TH).unwrap();
    tm.make_del(a, tx.txid).unwrap();
    tm.make_mut(b, tx.txid, val2).unwrap();
    tx.run_all(&mut tm, Ok(())).unwrap();
    assert_eq!(tm.read(a), None);
    assert_eq!(tm.read(b), Some(val2));
    assert_eq!(tm.active_arm(b), Some(Arm::Left));

    // tx #4, recycle tx #2
    let tx = tm.begin_trans(TH).unwrap();
    tm.make_mut(b, tx.txid, val).unwrap();
    tx.run_all(&mut tm, Ok(())).unwrap();
    assert_eq!(tm.read(b), Some(val));
    assert_eq!(tm.active_arm(b), Some(Arm::Right));

    // tx #5, recycle tx #3
    let tx = tm.begin_trans(TH).unwrap();
    tm.make_mut(b, tx.txid, val2).unwrap();
    tx.run_all(&mut tm, Ok(())).unwrap();
    assert_eq!(tm.read(b), Some(val2));
    assert_eq!(tm.active_arm(b), Some(Arm::Left));

    // more txs
    for i in 0..5u64 {
        let tx = tm.begin_trans(TH).unwrap();
        tm.make_mut(b, tx.txid, val2 + i).unwrap();
        tx.run_all(&mut tm, Ok(())).unwrap();
        let arm = if i % 2 == 0 { Arm::Right } else { Arm::Left };
        assert_eq!(tm.read(b), Some(val2 + i));
        assert_eq!(tm.active_arm(b), Some(arm));
    }
}

#[test]
fn trans_abort() {
    let vol = Volume::new();
    let mut tm = TxMgr::new(WALQ, vol);
    let val: u64 = 42;
    let a: u64 = 1;
    let b: u64 = 2;

    // tx #1, abort in the middle of tx
    let tx = tm.begin_trans(TH).unwrap();
    tm.create(a, tx.txid, val).unwrap();
    assert_eq!(
        tx.run(&mut tm, Err(Error::NotFound)).unwrap_err(),
        Error::NotFound
    );
    assert!(tm.txs_is_empty());
    assert_eq!(tm.read(a), None);

    // tx #2, abort during committing
    tm.vol_set_fail(b);
    let tx = tm.begin_trans(TH).unwrap();
    tm.create(b, tx.txid, val).unwrap();
    assert_eq!(tx.run_all(&mut tm, Ok(())).unwrap_err(), Error::InUse);
    assert!(tm.txs_is_empty());
    assert_eq!(tm.read(b), None);
}

#[test]
fn single_ownership() {
    let vol = Volume::new();
    let mut tm = TxMgr::new(WALQ, vol);
    let e: u64 = 5;
    let th1: u64 = 1;
    let th2: u64 = 2;

    let tx = tm.begin_trans(TH).unwrap();
    tm.create(e, tx.txid, 10).unwrap();
    tx.run_all(&mut tm, Ok(())).unwrap();

    // the first transaction stages a mutation to e
    let tx1 = tm.begin_trans(th1).unwrap();
    tm.make_mut(e, tx1.txid, 11).unwrap();

    // a second transaction on another thread fails to touch e
    let tx2 = tm.begin_trans(th2).unwrap();
    assert_eq!(tm.make_mut(e, tx2.txid, 12).unwrap_err(), Error::InTrans);
    assert_eq!(tm.make_del(e, tx2.txid).unwrap_err(), Error::InTrans);

    // once the first transaction ends, the second may claim e
    tx1.run(&mut tm, Err(Error::NotFound)).unwrap_err();
    tm.make_mut(e, tx2.txid, 12).unwrap();
    tx2.run_all(&mut tm, Ok(())).unwrap();
    assert_eq!(tm.read(e), Some(12));
}

#[test]
fn thread_reentrancy() {
    let vol = Volume::new();
    let mut tm = TxMgr::new(WALQ, vol);
    let e: u64 = 3;

    let tx = tm.begin_trans(TH).unwrap();
    assert!(!tm.txs_is_empty());
    tm.create(e, tx.txid, 1).unwrap();

    // a second transaction on the same thread is refused at once
    assert_eq!(tm.begin_trans(TH).unwrap_err(), Error::InTrans);

    // and the first transaction is undisturbed
    assert_eq!(tm.read(e), Some(1));
    tx.run_all(&mut tm, Ok(())).unwrap();
    assert!(tm.txs_is_empty());
    assert_eq!(tm.read(e), Some(1));

    // the thread's mark is cleared, so it may transact again
    let tx = tm.begin_trans(TH).unwrap();
    tx.commit(&mut tm).unwrap();
}

#[test]
fn atomic_visibility() {
    let vol = Volume::new();
    let mut tm = TxMgr::new(WALQ, vol);
    let e: u64 = 9;

    let tx = tm.begin_trans(TH).unwrap();
    tm.create(e, tx.txid, 42).unwrap();
    tx.run_all(&mut tm, Ok(())).unwrap();

    // a staged update is invisible until the commit completes
    let tx = tm.begin_trans(TH).unwrap();
    tm.make_mut(e, tx.txid, 43).unwrap();
    assert_eq!(tm.read(e), Some(42));
    assert_eq!(tm.active_arm(e), Some(Arm::Right));
    // a staged delete leaves the entity readable too
    tm.make_del(e, tx.txid).unwrap();
    assert_eq!(tm.read(e), Some(42));
    // a renewed update after the staged delete is still invisible
    tm.make_mut(e, tx.txid, 44).unwrap();
    assert_eq!(tm.read(e), Some(42));
    tx.run_all(&mut tm, Ok(())).unwrap();
    assert_eq!(tm.read(e), Some(44));
    assert_eq!(tm.active_arm(e), Some(Arm::Left));
}

#[test]
fn delete_resets_versioning() {
    let vol = Volume::new();
    let mut tm = TxMgr::new(WALQ, vol);
    let e: u64 = 4;

    let tx = tm.begin_trans(TH).unwrap();
    tm.create(e, tx.txid, 42).unwrap();
    tx.run_all(&mut tm, Ok(())).unwrap();
    let tx = tm.begin_trans(TH).unwrap();
    tm.make_mut(e, tx.txid, 43).unwrap();
    tx.run_all(&mut tm, Ok(())).unwrap();
    assert_eq!(tm.active_arm(e), Some(Arm::Left));

    // delete, then recreate under the same identifier
    let tx = tm.begin_trans(TH).unwrap();
    tm.make_del(e, tx.txid).unwrap();
    tx.run_all(&mut tm, Ok(())).unwrap();
    assert_eq!(tm.read(e), None);

    let tx = tm.begin_trans(TH).unwrap();
    tm.create(e, tx.txid, 7).unwrap();
    tx.run_all(&mut tm, Ok(())).unwrap();
    assert_eq!(tm.read(e), Some(7));
    assert_eq!(tm.active_arm(e), Some(Arm::Right));
}

#[test]
fn commit_failure_implies_abort() {
    let vol = Volume::new();
    let mut tm = TxMgr::new(WALQ, vol);
    let a: u64 = 1;
    let c: u64 = 3;

    let tx = tm.begin_trans(TH).unwrap();
    tm.create(a, tx.txid, 42).unwrap();
    tx.run_all(&mut tm, Ok(())).unwrap();

    // one entity of the transaction fails to persist
    tm.vol_set_fail(c);
    let tx = tm.begin_trans(TH).unwrap();
    tm.make_mut(a, tx.txid, 43).unwrap();
    tm.create(c, tx.txid, 1).unwrap();
    let txid = tx.txid;
    assert_eq!(tx.run_all(&mut tm, Ok(())).unwrap_err(), Error::InUse);

    // nothing became newly active, and the transaction is gone; its
    // abort could not discard c's staged write, so its record stays
    // resumable
    assert_eq!(tm.read(a), Some(42));
    assert_eq!(tm.active_arm(a), Some(Arm::Right));
    assert_eq!(tm.read(c), None);
    assert!(tm.txs_is_empty());
    assert_eq!(tm.wal_state(txid), Some(cowtx::wal::WalState::Aborting));

    // ownership was released: once storage accepts writes again, a new
    // transaction finishes that abort and may claim both entities
    tm.vol_clear_fails();
    let tx = tm.begin_trans(TH).unwrap();
    assert_eq!(tm.wal_state(txid), Some(cowtx::wal::WalState::Aborted));
    tm.make_mut(a, tx.txid, 44).unwrap();
    tx.run_all(&mut tm, Ok(())).unwrap();
    assert_eq!(tm.read(a), Some(44));
    assert_eq!(tm.active_arm(a), Some(Arm::Left));
}

#[test]
fn begin_marker_failure_clears_thread() {
    let vol = Volume::new();
    let mut tm = TxMgr::new(WALQ, vol);

    // the begin marker fails: the error surfaces and no thread mark leaks
    tm.vol_set_wal_fail(true);
    assert_eq!(tm.begin_trans(TH).unwrap_err(), Error::Io);

    // the same thread may begin again once markers write
    tm.vol_set_wal_fail(false);
    let tx = tm.begin_trans(TH).unwrap();
    tm.create(1, tx.txid, 2).unwrap();
    tx.run_all(&mut tm, Ok(())).unwrap();
    assert_eq!(tm.read(1), Some(2));
}

#[test]
fn stale_handle_reports_no_trans() {
    let vol = Volume::new();
    let mut tm = TxMgr::new(WALQ, vol);

    let tx = tm.begin_trans(TH).unwrap();
    tm.create(1, tx.txid, 2).unwrap();
    tx.commit(&mut tm).unwrap();
    // the handle no longer names a live transaction
    assert_eq!(tx.commit(&mut tm).unwrap_err(), Error::NoTrans);
    // an unknown entity cannot be staged
    let tx = tm.begin_trans(TH).unwrap();
    assert_eq!(tm.make_mut(99, tx.txid, 0).unwrap_err(), Error::NotFound);
    assert_eq!(tm.make_del(99, tx.txid).unwrap_err(), Error::NotFound);
    // an existing entity cannot be created twice
    assert_eq!(tm.create(1, tx.txid, 5).unwrap_err(), Error::InUse);
    tx.run_all(&mut tm, Ok(())).unwrap();
}
