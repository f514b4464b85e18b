use forklift::{empty_string_to_none, tracked_stacks_revset};

#[test]
fn tracked_stacks_revset_trims_the_prefix() {
    assert_eq!(
        tracked_stacks_revset("stack//"),
        "trunk() | @:: | mutable() | trunk()..(@ | bookmarks(glob:'stack/*') | bookmarks(glob:'forklift/frozen/*'))"
    );
}

#[test]
fn blank_strings_become_none() {
    assert_eq!(empty_string_to_none(Some("  ".to_owned())), None);
    assert_eq!(empty_string_to_none(Some(" a b ".to_owned())), Some("a b".to_owned()));
    assert_eq!(empty_string_to_none(None), None);
}
