use getver::names::{dedup, position};

fn strings(names: &[&str]) -> Vec<String> {
    names.iter().map(|n| n.to_string()).collect()
}

#[test]
fn dedup_of_nothing_is_empty() {
    let batch = dedup(&Vec::new());
    assert!(batch.is_empty());
    assert_eq!(batch.len(), 0);
    assert!(batch.names().is_empty());
}

#[test]
fn dedup_keeps_first_occurrences_in_order() {
    let batch = dedup(&strings(&["serde", "left-pad", "serde", "rand", "left-pad", "serde"]));
    assert_eq!(batch.names(), &strings(&["serde", "left-pad", "rand"]));
    assert_eq!(batch.len(), 3);
    assert!(!batch.is_empty());
}

#[test]
fn dedup_of_distinct_names_changes_nothing() {
    let names = strings(&["a", "b", "c"]);
    assert_eq!(dedup(&names).names(), &names);
}

#[test]
fn dedup_is_idempotent() {
    let once = dedup(&strings(&["x", "y", "x", "z", "y"]));
    let twice = dedup(once.names());
    assert_eq!(once.names(), twice.names());
}

#[test]
fn dedup_is_case_sensitive() {
    let batch = dedup(&strings(&["Serde", "serde", "SERDE", "serde"]));
    assert_eq!(batch.names(), &strings(&["Serde", "serde", "SERDE"]));
}

#[test]
fn dedup_tells_hyphen_from_underscore() {
    let batch = dedup(&strings(&["left-pad", "left_pad"]));
    assert_eq!(batch.len(), 2);
}

#[test]
fn dedup_size_is_number_of_distinct_names() {
    let names = strings(&["a", "a", "a", "b", "a", "b", "c", "", ""]);
    let distinct: std::collections::BTreeSet<&String> = names.iter().collect();
    assert_eq!(dedup(&names).len(), distinct.len());
    assert_eq!(dedup(&names).len(), 4);
}

#[test]
fn batch_contains_exactly_its_names() {
    let batch = dedup(&strings(&["serde", "rand", "serde"]));
    assert!(batch.contains(&"serde".to_string()));
    assert!(batch.contains(&"rand".to_string()));
    assert!(!batch.contains(&"tokio".to_string()));
    assert!(!batch.contains(&"".to_string()));
}

#[test]
fn position_is_the_first_place() {
    let names = strings(&["a", "b", "a", "c"]);
    assert_eq!(position(&names, &"a".to_string()), Some(0));
    assert_eq!(position(&names, &"b".to_string()), Some(1));
    assert_eq!(position(&names, &"c".to_string()), Some(3));
    assert_eq!(position(&names, &"d".to_string()), None);
    assert_eq!(position(&Vec::new(), &"a".to_string()), None);
}
