//! The data store and the snapshot lifecycle decisions.

use netviz::error::NetVizError;
use netviz::models::check_snapshot;
use netviz::models::Network;
use netviz::refresh::apply_refresh;
use netviz::refresh::initial_snapshot;
use netviz::store::DataStore;

fn record(id: i64, name: &str, asn: i64) -> Network {
    Network {
        id,
        name: name.to_string(),
        asn,
        aka: None,
        status: None,
        info_type: None,
        policy_general: None,
        info_scope: None,
        info_prefixes4: None,
        info_prefixes6: None,
        ix_count: None,
        fac_count: None,
        website: None,
    }
}

#[test]
fn test_read_returns_installed_snapshot() {
    let store = DataStore::new(vec![record(1, "old", 1)]);
    let snap = store.read();
    assert_eq!(snap.len(), 1);
    assert_eq!(snap[0].name, "old");
}

#[test]
fn test_replace_swaps_snapshot_wholesale() {
    let store = DataStore::new(vec![record(1, "old", 1)]);
    store.replace(vec![record(2, "new-a", 2), record(3, "new-b", 3)]);
    let snap = store.read();
    assert_eq!(snap.len(), 2);
    assert_eq!(snap[0].name, "new-a");
    assert_eq!(snap[1].name, "new-b");
}

#[test]
fn test_concurrent_style_reads_see_one_snapshot() {
    let store = DataStore::new(vec![record(1, "old", 1)]);
    let before = store.read();
    store.replace(vec![record(2, "new", 2)]);
    let after = store.read();
    assert_eq!(before.len(), 1);
    assert_eq!(before[0].name, "old");
    assert_eq!(after.len(), 1);
    assert_eq!(after[0].name, "new");
}

#[test]
fn test_two_live_handles_observe_same_snapshot() {
    let store = DataStore::new(vec![record(1, "a", 1), record(2, "b", 2)]);
    let h1 = store.read_handle();
    let h2 = store.read_handle();
    DataStore::readers_agree(&h1, &h2, &store);
    assert_eq!(h1.borrow().len(), h2.borrow().len());
    assert_eq!(h1.borrow()[0].name, h2.borrow()[0].name);
    h1.release();
    h2.release();
}

#[test]
fn test_handle_observes_snapshot_without_copying() {
    let store = DataStore::new(vec![record(7, "solo", 7)]);
    let h = store.read_handle();
    assert_eq!(h.borrow().len(), 1);
    assert_eq!(h.borrow()[0].asn, 7);
    h.release();
    store.replace(vec![]);
    let h2 = store.read_handle();
    assert!(h2.borrow().is_empty());
    h2.release();
}

#[test]
fn test_check_snapshot_rejects_negative_counts() {
    let good = record(1, "good", 1);
    let mut bad = record(2, "bad", 2);
    bad.ix_count = Some(-3);
    assert!(check_snapshot(&vec![good.clone()]));
    assert!(!check_snapshot(&vec![good, bad]));
}

#[test]
fn test_initial_snapshot_accepts_well_formed_load() {
    let r = initial_snapshot(Ok(vec![record(1, "a", 1)]));
    assert!(r.is_ok());
    let store = r.ok().unwrap();
    assert_eq!(store.read().len(), 1);
}

#[test]
fn test_initial_snapshot_rejects_malformed_load() {
    let mut bad = record(1, "bad", 1);
    bad.info_prefixes4 = Some(-1);
    let r = initial_snapshot(Ok(vec![bad]));
    match r {
        Err(NetVizError::ParseFailure(_)) => {}
        _ => panic!("a malformed load must be a parse failure"),
    }
}

#[test]
fn test_initial_snapshot_passes_load_error_through() {
    let r = initial_snapshot(Err(NetVizError::IoFailure("missing cache".to_string())));
    match r {
        Err(e) => assert_eq!(e.message(), "IO error: missing cache"),
        Ok(_) => panic!("a failed load must be fatal at startup"),
    }
}

#[test]
fn test_apply_refresh_installs_new_snapshot() {
    let store = DataStore::new(vec![record(1, "old", 1)]);
    let r = apply_refresh(&store, Ok(vec![record(2, "new-a", 2), record(3, "new-b", 3)]));
    assert_eq!(r.ok(), Some(2));
    assert_eq!(store.read()[0].name, "new-a");
}

#[test]
fn test_failed_refresh_keeps_last_good_snapshot() {
    let store = DataStore::new(vec![record(1, "old", 1)]);
    let r = apply_refresh(
        &store,
        Err(NetVizError::UpstreamFailure("remote unreachable".to_string())),
    );
    match r {
        Err(e) => assert_eq!(e.message(), "upstream error: remote unreachable"),
        Ok(_) => panic!("a failed fetch must not install anything"),
    }
    assert_eq!(store.read()[0].name, "old");
}

#[test]
fn test_malformed_refresh_keeps_last_good_snapshot() {
    let store = DataStore::new(vec![record(1, "old", 1)]);
    let mut bad = record(2, "bad", 2);
    bad.fac_count = Some(-7);
    let r = apply_refresh(&store, Ok(vec![bad]));
    match r {
        Err(NetVizError::ParseFailure(_)) => {}
        _ => panic!("a malformed refresh must be a parse failure"),
    }
    assert_eq!(store.read()[0].name, "old");
}

#[test]
fn test_error_messages_name_the_failure_class() {
    assert_eq!(NetVizError::IoFailure("f".to_string()).message(), "IO error: f");
    assert_eq!(NetVizError::ParseFailure("g".to_string()).message(), "parse error: g");
    assert_eq!(
        NetVizError::UpstreamFailure("h".to_string()).message(),
        "upstream error: h"
    );
    assert_eq!(NetVizError::ConfigFailure("i".to_string()).message(), "config error: i");
}
