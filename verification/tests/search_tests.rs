use cubechance::query::QueryError;
use cubechance::search::{search_query, select_people, top_k, SEARCH_LIMIT};
use cubechance::snapshot::{DatasetSnapshot, Person};
use cubechance::store::LifecycleState;

fn person(id: &str, name: &str) -> Person {
    Person { id: id.to_string(), name: name.to_string() }
}

#[test]
fn query_is_percent_decoded_and_case_folded() {
    assert_eq!(search_query("Mats%20Valk").as_deref(), Some("mats valk"));
    assert_eq!(search_query("ERIK").as_deref(), Some("erik"));
    // A lone or ill-formed escape passes through unchanged.
    assert_eq!(search_query("50%").as_deref(), Some("50%"));
    assert_eq!(search_query("a%2zb").as_deref(), Some("a%2zb"));
    // Decoded bytes that are not UTF-8 are refused.
    assert_eq!(search_query("%FF"), None);
}

#[test]
fn top_k_orders_by_score_then_index() {
    let scores = vec![5u64, 9, 9, 1, 7];
    let picked = top_k(&scores, 3);
    // 9 at index 1 beats 9 at index 2 (earlier wins the tie), then 7.
    assert_eq!(picked, vec![1, 2, 4]);
}

#[test]
fn top_k_returns_everything_when_fewer_than_k() {
    let scores = vec![3u64, 3];
    assert_eq!(top_k(&scores, 20), vec![0, 1]);
    let empty: Vec<u64> = vec![];
    assert_eq!(top_k(&empty, 20), Vec::<usize>::new());
}

#[test]
fn select_people_caps_results_and_keeps_best_scores() {
    let people: Vec<Person> =
        (0..30).map(|i| person(&format!("id{:02}", i), &format!("name{:02}", i))).collect();
    let state = LifecycleState::Loaded(DatasetSnapshot { people, comps: vec![] });
    // Score equals the index: the selection is the last 30 - 20 .. 30
    // indices, highest score first.
    let scores: Vec<u64> = (0..30u64).collect();
    let found = select_people(&state, &scores).unwrap();
    assert_eq!(found.len(), SEARCH_LIMIT);
    assert_eq!(found[0].id, "id29");
    assert_eq!(found[19].id, "id10");
    // Every returned score is at least every left-out score.
    assert!(found.iter().all(|p| {
        let i: usize = p.id[2..].parse().unwrap();
        scores[i] >= 9
    }));
}

#[test]
fn select_people_needs_a_snapshot() {
    let scores: Vec<u64> = vec![];
    assert_eq!(
        select_people(&LifecycleState::NotLoaded, &scores).unwrap_err(),
        QueryError::NotReady
    );
}
