use cubechance::query::{
    beat_pair, comp_by_id, person_by_id, placement, progress_report, upcoming, QueryError,
};
use cubechance::ratio::Ratio;
use cubechance::snapshot::{Competition, Competitor, DatasetSnapshot, Person};
use cubechance::store::LifecycleState;

fn person(id: &str, name: &str) -> Person {
    Person { id: id.to_string(), name: name.to_string() }
}

fn competitor(id: &str, events: &[&str]) -> Competitor {
    Competitor {
        id: id.to_string(),
        events: events.iter().map(|e| e.to_string()).collect(),
    }
}

fn sample_state() -> LifecycleState {
    LifecycleState::Loaded(DatasetSnapshot {
        people: vec![
            person("2009ZEMD01", "Erik Akkersdijk"),
            person("2012PONC01", "Victor Ponce"),
            person("2007VALK01", "Mats Valk"),
        ],
        comps: vec![
            Competition {
                id: "Old2019".to_string(),
                has_been: true,
                competitors: vec![competitor("2009ZEMD01", &["333"])],
            },
            Competition {
                id: "WC2025".to_string(),
                has_been: false,
                competitors: vec![
                    competitor("2009ZEMD01", &["333", "444"]),
                    competitor("2012PONC01", &["333"]),
                    competitor("2007VALK01", &["444"]),
                    competitor("1999GONE01", &["333"]),
                ],
            },
        ],
    })
}

#[test]
fn every_snapshot_endpoint_is_not_ready_before_first_load() {
    let state = LifecycleState::NotLoaded;
    let id = "2009ZEMD01".to_string();
    let ev = "333".to_string();
    assert_eq!(person_by_id(&state, &id).unwrap_err(), QueryError::NotReady);
    assert_eq!(comp_by_id(&state, &id).unwrap_err(), QueryError::NotReady);
    assert_eq!(upcoming(&state).unwrap_err(), QueryError::NotReady);
    assert_eq!(beat_pair(&state, &id, &id).unwrap_err(), QueryError::NotReady);
    assert_eq!(
        placement(&state, &id, &id, &ev).unwrap_err(),
        QueryError::NotReady
    );
    assert_eq!(progress_report(&state).unwrap_err(), QueryError::NotReady);
}

#[test]
fn unknown_id_is_not_found_and_distinct_from_not_ready() {
    let state = sample_state();
    let missing = "unknown-id".to_string();
    let err = person_by_id(&state, &missing).unwrap_err();
    assert_eq!(err, QueryError::NotFound);
    assert_ne!(err, QueryError::NotReady);
}

#[test]
fn known_id_resolves() {
    let state = sample_state();
    let id = "2007VALK01".to_string();
    let p = person_by_id(&state, &id).unwrap();
    assert_eq!(p.name, "Mats Valk");
}

#[test]
fn progress_report_reads_only_loading() {
    let loading = LifecycleState::Loading(
        Ratio { num: 3688, den: 10000 },
        Ratio { num: 7376, den: 100000 },
    );
    let (frac, rate) = progress_report(&loading).unwrap();
    assert_eq!(frac, Ratio { num: 3688, den: 10000 });
    assert_eq!(rate, Ratio { num: 7376, den: 100000 });
    assert_eq!(
        progress_report(&sample_state()).unwrap_err(),
        QueryError::NotReady
    );
}

#[test]
fn upcoming_keeps_only_future_competitions_in_order() {
    let state = sample_state();
    let comps = upcoming(&state).unwrap();
    assert_eq!(comps.len(), 1);
    assert_eq!(comps[0].id, "WC2025");
}

#[test]
fn comp_by_id_finds_and_misses() {
    let state = sample_state();
    let c = comp_by_id(&state, &"WC2025".to_string()).unwrap();
    assert!(!c.has_been);
    assert_eq!(
        comp_by_id(&state, &"Nowhere2020".to_string()).unwrap_err(),
        QueryError::NotFound
    );
}

#[test]
fn beat_pair_resolves_both_or_fails() {
    let state = sample_state();
    let a = "2009ZEMD01".to_string();
    let b = "2012PONC01".to_string();
    let (p1, p2) = beat_pair(&state, &a, &b).unwrap();
    assert_eq!(p1.name, "Erik Akkersdijk");
    assert_eq!(p2.name, "Victor Ponce");
    assert_eq!(
        beat_pair(&state, &a, &"ghost".to_string()).unwrap_err(),
        QueryError::NotFound
    );
}

#[test]
fn placement_pool_selects_same_event_others_with_profiles() {
    let state = sample_state();
    let comp = "WC2025".to_string();
    let id = "2009ZEMD01".to_string();
    let event = "333".to_string();
    let (p, pool) = placement(&state, &comp, &id, &event).unwrap();
    assert_eq!(p.id, "2009ZEMD01");
    // Of the four registrations: the person themself is excluded, Valk is
    // not registered for 333, and 1999GONE01 has no profile in the
    // snapshot; Ponce remains.
    assert_eq!(pool.len(), 1);
    assert_eq!(pool[0].id, "2012PONC01");
}

#[test]
fn placement_missing_comp_or_person_is_not_found() {
    let state = sample_state();
    let event = "333".to_string();
    assert_eq!(
        placement(&state, &"Nowhere2020".to_string(), &"2009ZEMD01".to_string(), &event)
            .unwrap_err(),
        QueryError::NotFound
    );
    assert_eq!(
        placement(&state, &"WC2025".to_string(), &"ghost".to_string(), &event).unwrap_err(),
        QueryError::NotFound
    );
}
