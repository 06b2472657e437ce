use cubechance::progress::LoadEvent;
use cubechance::refresh::{run_cycle, FetchError, RefreshCycle};
use cubechance::snapshot::{Competition, DatasetSnapshot, Person};
use cubechance::store::{LifecycleState, SnapshotStore};

fn person(id: &str, name: &str) -> Person {
    Person { id: id.to_string(), name: name.to_string() }
}

fn small_snapshot(tag: &str) -> DatasetSnapshot {
    DatasetSnapshot {
        people: vec![person("2009ZEMD01", tag)],
        comps: vec![Competition {
            id: "WC2025".to_string(),
            has_been: false,
            competitors: vec![],
        }],
    }
}

#[test]
fn successful_fetch_installs_loaded() {
    // However many Loading writes precede it, success settles in Loaded.
    let mut store = SnapshotStore::new();
    let events = vec![
        (LoadEvent::ZipFetched, 0),
        (LoadEvent::RecordPhaseTick(10, 100), 1),
        (LoadEvent::RecordPhaseTick(100, 100), 9),
        (LoadEvent::SecondaryPhaseStart, 10),
        (LoadEvent::SecondaryPhaseTick(20, 20), 30),
    ];
    let snap = small_snapshot("Erik");
    let err = run_cycle(&mut store, &events, Ok(snap.clone()));
    assert!(err.is_none());
    assert_eq!(*store.read(), LifecycleState::Loaded(snap));
}

#[test]
fn failed_fetch_restores_pre_cycle_state() {
    // The pre-cycle state comes back exactly, even though Loading values
    // were published in between.
    let mut store = SnapshotStore::new();
    let snap1 = small_snapshot("first");
    run_cycle(&mut store, &vec![], Ok(snap1.clone()));
    let before = store.read().clone();

    let events = vec![(LoadEvent::RecordPhaseTick(30, 100), 2)];
    let err = run_cycle(
        &mut store,
        &events,
        Err(FetchError { message: "connection reset".to_string() }),
    );
    assert_eq!(err, Some(FetchError { message: "connection reset".to_string() }));
    assert_eq!(*store.read(), before);
    assert_eq!(*store.read(), LifecycleState::Loaded(snap1));
}

#[test]
fn failed_then_successful_cycle() {
    // Two refresh cycles back to back: the first fails and leaves the state
    // as it was; the second succeeds and installs its snapshot.
    let mut store = SnapshotStore::new();
    let before = store.read().clone();
    assert_eq!(before, LifecycleState::NotLoaded);

    let events = vec![
        (LoadEvent::ZipFetched, 0),
        (LoadEvent::RecordPhaseTick(5, 10), 3),
    ];
    run_cycle(&mut store, &events, Err(FetchError { message: "timeout".to_string() }));
    assert_eq!(*store.read(), before);

    let snap2 = small_snapshot("second");
    let err = run_cycle(&mut store, &events, Ok(snap2.clone()));
    assert!(err.is_none());
    assert_eq!(*store.read(), LifecycleState::Loaded(snap2));
}

#[test]
fn events_publish_loading_values() {
    let mut store = SnapshotStore::new();
    let mut cycle = RefreshCycle::begin(&store);
    cycle.on_event(&mut store, LoadEvent::RecordPhaseTick(50, 100), 5);
    match store.read() {
        LifecycleState::Loading(frac, rate) => {
            assert_eq!((frac.num as u128) * 10000, 3688 * (frac.den as u128));
            assert_eq!((rate.num as u128) * 100000, 7376 * (rate.den as u128));
        }
        other => panic!("expected Loading, got {:?}", other),
    }
    let err = cycle.finish(&mut store, Err(FetchError { message: "boom".to_string() }));
    assert!(err.is_some());
    assert_eq!(*store.read(), LifecycleState::NotLoaded);
}
