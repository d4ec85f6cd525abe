use engine::{Name, Tags};

#[test]
fn add_inserts_tag_once() {
    let mut tags = Tags::new(["Object"]);

    assert!(tags.add("Primitive"));
    assert!(!tags.add("Primitive"));
    assert_eq!(tags.values, vec!["Object", "Primitive"]);
}

#[test]
fn remove_deletes_existing_tag() {
    let mut tags = Tags::new(["Object", "Primitive"]);

    assert!(tags.remove("Object"));
    assert!(!tags.remove("Object"));
    assert_eq!(tags.values, vec!["Primitive"]);
}

#[test]
fn contains_finds_only_present_tags() {
    let tags = Tags::new(["Model", "VikingRoom"]);
    assert!(tags.contains("Model"));
    assert!(tags.contains("VikingRoom"));
    assert!(!tags.contains("Primitive"));
}

#[test]
fn remove_takes_only_first_duplicate() {
    let mut tags = Tags::new(["a", "b", "a"]);
    assert!(tags.remove("a"));
    assert_eq!(tags.values, vec!["b", "a"]);
    assert!(tags.contains("a"));
}

#[test]
fn name_copies_text() {
    let name = Name::new("player");
    assert_eq!(name.value, "player");
}

#[test]
fn add_then_remove_gives_the_tags_back() {
    let mut tags = Tags::new(["Model", "Room"]);
    assert!(tags.add("Extra"));
    assert!(tags.contains("Extra"));
    assert!(tags.remove("Extra"));
    assert_eq!(tags.values, vec!["Model".to_string(), "Room".to_string()]);
}
