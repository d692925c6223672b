use ghostty_styles::collection::{Collection, CollectionTheme, CycleOrder};
use ghostty_styles::cycling::advance;

fn theme(slug: &str, is_dark: bool) -> CollectionTheme {
    CollectionTheme {
        slug: slug.to_string(),
        title: slug.to_string(),
        is_dark,
        raw_config: format!("background = #000000"),
    }
}

fn collection(themes: Vec<CollectionTheme>, index: usize, order: CycleOrder) -> Collection {
    Collection {
        name: "test".to_string(),
        themes,
        current_index: index,
        order,
        interval: None,
    }
}

#[test]
fn sequential_three_theme_cycle() {
    let themes = vec![theme("a", true), theme("b", true), theme("c", true)];
    let mut coll = collection(themes, 0, CycleOrder::Sequential);

    let step = advance(&coll, None).unwrap();
    assert_eq!(step.next_index, 1);
    coll.current_index = step.next_index;

    let step = advance(&coll, None).unwrap();
    assert_eq!(step.next_index, 2);
    coll.current_index = step.next_index;

    let step = advance(&coll, None).unwrap();
    assert_eq!(step.next_index, 0);
}

#[test]
fn dark_constraint_skips_light_themes() {
    // Themes [dark, light, dark] under a dark constraint cycle between
    // indices 0 and 2, never visiting 1.
    let themes = vec![theme("d1", true), theme("l", false), theme("d2", true)];
    let mut coll = collection(themes, 0, CycleOrder::Sequential);

    let step = advance(&coll, Some(true)).unwrap();
    assert_eq!(step.next_index, 2);
    assert!(!step.constraint_dropped);
    coll.current_index = step.next_index;

    let step = advance(&coll, Some(true)).unwrap();
    assert_eq!(step.next_index, 0);
    assert!(!step.constraint_dropped);
}

#[test]
fn infeasible_constraint_falls_back_to_full_list() {
    // All themes are light but dark is wanted: the constraint is dropped
    // and cycling walks the full list instead of failing.
    let themes = vec![theme("l1", false), theme("l2", false), theme("l3", false)];
    let coll = collection(themes, 0, CycleOrder::Sequential);

    let step = advance(&coll, Some(true)).unwrap();
    assert!(step.constraint_dropped);
    assert_eq!(step.next_index, 1);
}

#[test]
fn empty_collection_is_an_error() {
    let coll = collection(Vec::new(), 0, CycleOrder::Sequential);
    let err = advance(&coll, None).unwrap_err();
    assert_eq!(err, "Collection 'test' is empty");
}

#[test]
fn out_of_range_index_is_clamped() {
    let themes = vec![theme("a", true), theme("b", true)];
    let coll = collection(themes, 9, CycleOrder::Sequential);
    // The stored index is clamped to 0, so the next index is 1.
    let step = advance(&coll, None).unwrap();
    assert_eq!(step.next_index, 1);
}

#[test]
fn shuffle_single_theme_repeats() {
    let themes = vec![theme("only", true)];
    let coll = collection(themes, 0, CycleOrder::Shuffle);
    let step = advance(&coll, None).unwrap();
    assert_eq!(step.next_index, 0);
}

#[test]
fn shuffle_never_repeats_current() {
    let themes = vec![theme("a", true), theme("b", true), theme("c", true)];
    let coll = collection(themes, 1, CycleOrder::Shuffle);
    for _ in 0..50 {
        let step = advance(&coll, None).unwrap();
        assert!(step.next_index < 3);
        assert_ne!(step.next_index, 1);
    }
}

#[test]
fn shuffle_respects_constraint() {
    let themes = vec![theme("d1", true), theme("l", false), theme("d2", true)];
    let coll = collection(themes, 0, CycleOrder::Shuffle);
    for _ in 0..50 {
        let step = advance(&coll, Some(true)).unwrap();
        assert_eq!(step.next_index, 2);
    }
}
