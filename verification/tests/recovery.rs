use cowtx::txmgr::TxMgr;
use cowtx::volume::Volume;
use cowtx::wal::WalState;
use cowtx::{Arm, Error};

const TH: u64 = 7;
const WALQ: u64 = 900;

#[test]
fn crash_resume_completes_abort() {
    let vol = Volume::new();
    let mut tm = TxMgr::new(WALQ, vol);
    let a: u64 = 1;

    let tx = tm.begin_trans(TH).unwrap();
    tm.create(a, tx.txid, 42).unwrap();
    tx.run_all(&mut tm, Ok(())).unwrap();

    // an abort whose discard is refused stops between its begin-abort and
    // end-abort markers, like a crash mid-abort
    tm.vol_set_fail(a);
    let tx = tm.begin_trans(TH).unwrap();
    tm.make_mut(a, tx.txid, 43).unwrap();
    let txid = tx.txid;
    assert_eq!(
        tx.run(&mut tm, Err(Error::NotFound)).unwrap_err(),
        Error::NotFound
    );
    assert_eq!(tm.wal_state(txid), Some(WalState::Aborting));
    assert!(tm.txs_is_empty());

    // reopening the volume finishes that abort before anything else
    let mut vol = tm.take_vol();
    vol.clear_fails();
    let mut tm = TxMgr::open(WALQ, vol).unwrap();
    assert_eq!(tm.wal_state(txid), Some(WalState::Aborted));
    assert_eq!(tm.read(a), Some(42));
    assert_eq!(tm.active_arm(a), Some(Arm::Right));

    // and new transactions run normally afterwards
    let tx = tm.begin_trans(TH).unwrap();
    tm.make_mut(a, tx.txid, 43).unwrap();
    tx.run_all(&mut tm, Ok(())).unwrap();
    assert_eq!(tm.read(a), Some(43));
    assert_eq!(tm.active_arm(a), Some(Arm::Left));
}

#[test]
fn begin_trans_redoes_interrupted_abort() {
    let vol = Volume::new();
    let mut tm = TxMgr::new(WALQ, vol);
    let a: u64 = 1;

    let tx = tm.begin_trans(TH).unwrap();
    tm.create(a, tx.txid, 42).unwrap();
    tx.run_all(&mut tm, Ok(())).unwrap();

    tm.vol_set_fail(a);
    let tx = tm.begin_trans(TH).unwrap();
    tm.make_mut(a, tx.txid, 43).unwrap();
    let txid = tx.txid;
    tx.run(&mut tm, Err(Error::NotFound)).unwrap_err();
    assert_eq!(tm.wal_state(txid), Some(WalState::Aborting));

    // while the discard stays refused, beginning a transaction fails
    assert_eq!(tm.begin_trans(TH).unwrap_err(), Error::InUse);

    // once it can run, the next begin finishes the abort first
    let mut vol = tm.take_vol();
    vol.clear_fails();
    let mut tm = TxMgr::new(WALQ, vol);
    let tx = tm.begin_trans(TH).unwrap();
    assert_eq!(tm.wal_state(txid), Some(WalState::Aborted));
    tx.run_all(&mut tm, Ok(())).unwrap();
}

#[test]
fn reopen_shows_only_committed_state() {
    let vol = Volume::new();
    let mut tm = TxMgr::new(WALQ, vol);
    let a: u64 = 1;
    let b: u64 = 2;

    let tx = tm.begin_trans(TH).unwrap();
    tm.create(a, tx.txid, 42).unwrap();
    tx.run_all(&mut tm, Ok(())).unwrap();
    let tx = tm.begin_trans(TH).unwrap();
    tm.make_mut(a, tx.txid, 43).unwrap();
    tx.run_all(&mut tm, Ok(())).unwrap();

    // a created but never committed entity leaves nothing visible
    let tx = tm.begin_trans(TH).unwrap();
    tm.create(b, tx.txid, 9).unwrap();
    tx.run(&mut tm, Err(Error::InUse)).unwrap_err();

    let vol = tm.take_vol();
    let tm = TxMgr::open(WALQ, vol).unwrap();
    assert_eq!(tm.read(a), Some(43));
    assert_eq!(tm.active_arm(a), Some(Arm::Left));
    assert_eq!(tm.read(b), None);
    assert!(tm.txs_is_empty());
}
