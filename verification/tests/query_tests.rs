use ambient_suggestions::query::{answer_query, answer_query_at};
use ambient_suggestions::rotator::Rotator;
use ambient_suggestions::store::SuggestionStore;
use ambient_suggestions::suggestion::Suggestion;

fn record(label: &str) -> Suggestion {
    Suggestion::new(
        label.to_string(),
        format!("run-{}", label.to_lowercase()),
        format!("about {}", label),
    )
}

fn seeded(labels: &[&str]) -> SuggestionStore {
    let mut v: Vec<Suggestion> = Vec::new();
    for l in labels {
        v.push(record(l));
    }
    SuggestionStore::new(v)
}

fn labels_of(items: &[Suggestion]) -> Vec<String> {
    items.iter().map(|s| s.suggestion.clone()).collect()
}

fn expect(labels: &[&str]) -> Vec<String> {
    labels.iter().map(|l| l.to_string()).collect()
}

#[test]
fn query_returns_exactly_five_of_a_larger_store() {
    let store = seeded(&["A", "B", "C", "D", "E", "F", "G", "H"]);
    let r = answer_query_at(&store, 100);
    assert_eq!(r.suggestions.len(), 5, "never fewer, never more");
    assert_eq!(
        labels_of(&r.suggestions),
        expect(&["A", "B", "C", "D", "E"])
    );
    assert_eq!(r.timestamp, 100);
}

#[test]
fn query_returns_all_of_a_short_store() {
    let store = seeded(&["A", "B", "C"]);
    let r = answer_query_at(&store, 7);
    assert_eq!(labels_of(&r.suggestions), expect(&["A", "B", "C"]));
}

#[test]
fn query_of_empty_store_is_empty_not_an_error() {
    let store = SuggestionStore::new(Vec::new());
    let r = answer_query(&store);
    assert!(r.suggestions.is_empty());
    let stamped = answer_query_at(&store, 42);
    assert!(stamped.suggestions.is_empty());
    assert_eq!(stamped.timestamp, 42);
}

#[test]
fn query_does_not_mutate_the_store() {
    let seed = ["A", "B", "C", "D", "E", "F", "G"];
    let store = seeded(&seed);
    let first = answer_query_at(&store, 1);
    let second = answer_query_at(&store, 2);
    assert_eq!(labels_of(&first.suggestions), labels_of(&second.suggestions));
    assert_eq!(labels_of(&store.to_vec()), expect(&seed));
}

#[test]
fn snapshot_is_independent_of_later_rotation() {
    let mut store = seeded(&["A", "B", "C", "D", "E", "F", "G", "H", "I", "J"]);
    let mut rot = Rotator::new(5);
    let before = answer_query_at(&store, 1);
    rot.tick(&mut store);
    assert_eq!(
        labels_of(&before.suggestions),
        expect(&["A", "B", "C", "D", "E"]),
        "an earlier snapshot is a copy, untouched by the tick"
    );
}

#[test]
fn interleaved_ticks_and_queries_see_whole_rotations() {
    let labels: Vec<String> = (0..12).map(|i| format!("S{:02}", i)).collect();
    let refs: Vec<&str> = labels.iter().map(|s| s.as_str()).collect();
    let mut store = seeded(&refs);
    let mut rot = Rotator::new(5);
    // A side model of the order: rotate left by 5 per tick.
    let mut model: Vec<String> = labels.clone();
    for round in 0..25 {
        let r = answer_query_at(&store, round);
        let predicted: Vec<String> = model.iter().take(5).cloned().collect();
        assert_eq!(
            labels_of(&r.suggestions),
            predicted,
            "each snapshot is the prefix of one whole rotation"
        );
        rot.tick(&mut store);
        let shift = 5 % model.len();
        model.rotate_left(shift);
    }
}

#[test]
fn end_to_end_ten_item_scenario() {
    let mut store = seeded(&["A", "B", "C", "D", "E", "F", "G", "H", "I", "J"]);
    let mut rot = Rotator::new(5);
    let at_seed_time = answer_query(&store);

    rot.tick(&mut store);
    let after_one = answer_query(&store);
    assert_eq!(
        labels_of(&after_one.suggestions),
        expect(&["F", "G", "H", "I", "J"])
    );
    assert!(after_one.timestamp >= at_seed_time.timestamp);

    rot.tick(&mut store);
    let after_two = answer_query(&store);
    assert_eq!(
        labels_of(&after_two.suggestions),
        expect(&["A", "B", "C", "D", "E"])
    );
    assert_eq!(
        labels_of(&store.to_vec()),
        expect(&["A", "B", "C", "D", "E", "F", "G", "H", "I", "J"])
    );
}
