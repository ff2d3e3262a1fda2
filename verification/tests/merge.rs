use tbr::merge::{is_superseded, upsert_members};

fn strings(paths: &[&str]) -> Vec<String> {
    paths.iter().map(|p| p.to_string()).collect()
}

#[test]
fn upsert_ordering() {
    let pending = strings(&["C", "D"]);
    let existing = strings(&["A", "B", "C"]);
    assert_eq!(upsert_members(&pending, &existing), strings(&["C", "D", "A", "B"]));
}

#[test]
fn upsert_into_absent_archive() {
    let pending = strings(&["f"]);
    let existing = strings(&[]);
    assert_eq!(upsert_members(&pending, &existing), strings(&["f"]));
}

#[test]
fn upsert_twice_is_once() {
    let pending = strings(&["LICENSE", "CITATION.cff"]);
    let existing = strings(&["Cargo.lock", "Cargo.toml", "LICENSE"]);
    let once = upsert_members(&pending, &existing);
    assert_eq!(once, strings(&["LICENSE", "CITATION.cff", "Cargo.lock", "Cargo.toml"]));
    assert_eq!(upsert_members(&pending, &once), once);
}

#[test]
fn re_adding_moves_the_member_to_the_front() {
    let first = upsert_members(&strings(&["LICENSE"]), &strings(&[]));
    let second = upsert_members(&strings(&[".renovaterc.json5"]), &first);
    assert_eq!(second, strings(&[".renovaterc.json5", "LICENSE"]));
    let third = upsert_members(&strings(&["LICENSE"]), &second);
    assert_eq!(third, strings(&["LICENSE", ".renovaterc.json5"]));
}

#[test]
fn superseded_entries_are_recognised() {
    let pending = strings(&["a", "b"]);
    assert!(is_superseded(&"a".to_string(), &pending));
    assert!(is_superseded(&"b".to_string(), &pending));
    assert!(!is_superseded(&"c".to_string(), &pending));
    assert!(!is_superseded(&"a".to_string(), &strings(&[])));
}

#[test]
fn adding_nothing_keeps_every_entry_in_place() {
    let existing = strings(&["A", "B", "C"]);
    assert_eq!(upsert_members(&strings(&[]), &existing), existing);
}

#[test]
fn added_path_survives_exactly_once() {
    // The container format permits duplicate entries, so an old archive may
    // hold a path twice; adding that path supersedes every old occurrence,
    // and the deduplicated pending set contributes it once.
    let pending = strings(&["a"]);
    let existing = strings(&["a", "b", "a"]);
    assert_eq!(upsert_members(&pending, &existing), strings(&["a", "b"]));
}
