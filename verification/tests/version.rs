use local_swarm::version::{is_known, latest, text_precedes, Version};

#[test]
fn texts_are_ordered_like_a_dictionary() {
    assert!(text_precedes("", "a"));
    assert!(text_precedes("a", "b"));
    assert!(text_precedes("a", "ab"));
    assert!(text_precedes("ab", "b"));
    assert!(text_precedes("HEAD", "head"));
    assert!(!text_precedes("a", "a"));
    assert!(!text_precedes("", ""));
    assert!(!text_precedes("b", "a"));
    assert!(!text_precedes("ab", "a"));
    assert!(!text_precedes("b", "ab"));
}

#[test]
fn text_order_agrees_with_the_standard_order() {
    let samples = ["", "a", "ab", "abc", "abd", "b", "B", "z", "é", "e", "日本", "日", "~", "0", "10", "9"];
    for a in samples {
        for b in samples {
            assert_eq!(text_precedes(a, b), a < b, "for {:?} and {:?}", a, b);
        }
    }
}

#[test]
fn versions_are_ordered_by_number_then_label() {
    let old = Version::new(1, "zzz");
    let new = Version::new(2, "aaa");
    assert!(old.precedes(&new));
    assert!(!new.precedes(&old));
    let a = Version::new(3, "alpha");
    let b = Version::new(3, "beta");
    assert!(a.precedes(&b));
    assert!(!b.precedes(&a));
    assert!(!a.precedes(&a));
}

#[test]
fn version_order_agrees_with_the_derived_order() {
    let samples = [
        Version::new(0, "head"),
        Version::new(0, "HEAD"),
        Version::new(1, ""),
        Version::new(1, "a"),
        Version::new(2, "a"),
        Version::new(usize::MAX, "x"),
    ];
    for a in &samples {
        for b in &samples {
            assert_eq!(a.precedes(b), a < b);
            assert_eq!(a.same_as(b), a == b);
        }
    }
}

#[test]
fn a_handle_names_the_version_it_was_made_for() {
    let v = Version::new(7, "abc123");
    assert_eq!(v.number, 7);
    assert_eq!(v.label, "abc123");
    let copy = v.duplicate();
    assert_eq!(copy, v);
    assert!(v.same_as(&copy));
    assert!(!v.same_as(&Version::new(7, "abc124")));
    assert!(!v.same_as(&Version::new(8, "abc123")));
}

#[test]
fn known_versions_are_found() {
    let versions = vec![Version::new(0, "base"), Version::new(1, "next")];
    assert!(is_known(&versions, &Version::new(0, "base")));
    assert!(is_known(&versions, &Version::new(1, "next")));
    assert!(!is_known(&versions, &Version::new(1, "base")));
    assert!(!is_known(&versions, &Version::new(2, "next")));
    assert!(!is_known(&Vec::new(), &Version::new(0, "base")));
}

#[test]
fn the_latest_version_is_the_one_none_is_newer_than() {
    assert_eq!(latest(&Vec::new()), None);
    assert_eq!(latest(&vec![Version::new(5, "only")]), Some(0));
    let versions = vec![
        Version::new(1, "b"),
        Version::new(3, "a"),
        Version::new(2, "z"),
        Version::new(3, "c"),
        Version::new(0, "zz"),
    ];
    assert_eq!(latest(&versions), Some(3));
    let by_label = vec![Version::new(1, "b"), Version::new(1, "c"), Version::new(1, "a")];
    assert_eq!(latest(&by_label), Some(1));
}
