use tubecast::slug::slugify;

#[test]
fn slugify_basic() {
    assert_eq!(slugify("My TV"), "my-tv");
}

#[test]
fn slugify_collapses_dashes() {
    assert_eq!(slugify("Living Room TV!"), "living-room-tv");
    assert_eq!(slugify("foo!!bar"), "foo-bar");
}

#[test]
fn slugify_empty_falls_back() {
    assert_eq!(slugify("!!!"), "tv");
}

#[test]
fn slugify_always_valid() {
    for s in ["a", "-", "--a--", "É", "Bücher 7", "  x  y ", "50\" TCL", "日本", "A-B_c", "\t9\n"] {
        let r = slugify(s);
        assert!(!r.is_empty());
        assert!(!r.starts_with('-'));
        assert!(!r.ends_with('-'));
        assert!(!r.contains("--"));
        assert!(r.chars().all(|c| c.is_ascii_lowercase() || c.is_ascii_digit() || c == '-'));
    }
}

#[test]
fn slug_of_a_slug_is_itself() {
    for s in ["My TV", "foo!!bar", "!!!", "Bücher 7"] {
        assert_eq!(slugify(&slugify(s)), slugify(s));
    }
    assert_eq!(slugify("Bücher 7"), "b-cher-7");
    assert_eq!(slugify(""), "tv");
}
