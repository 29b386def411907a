use mddskmgr::desktop_key::{desktop_key, extract_guid_from_key};

#[test]
fn extracts_guid_from_key() {
    assert_eq!(
        extract_guid_from_key("Desktop(Guid(D178F97B-2525-4ED7-B219-6BA2AA6BE296))"),
        Some("D178F97B-2525-4ED7-B219-6BA2AA6BE296")
    );
    assert_eq!(extract_guid_from_key("not a key"), None);
}

#[test]
fn extract_needs_closing_parenthesis() {
    assert_eq!(extract_guid_from_key("Desktop(Guid(ABCD"), None);
    assert_eq!(extract_guid_from_key("Guid()"), Some(""));
    assert_eq!(extract_guid_from_key("x) Guid(A)B) Guid(C)"), Some("A"));
}

#[test]
fn key_formatting_round_trips() {
    let key = desktop_key("BBBB");
    assert_eq!(key, "Desktop(Guid(BBBB))");
    assert_eq!(extract_guid_from_key(&key), Some("BBBB"));
}
