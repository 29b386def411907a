use mddskmgr::config::{Config, DesktopLabel};
use mddskmgr::ipc::{
    bad_request, list_labels, list_response, resolve_response, respond, serialize_failed,
    window_to_resolve, Request,
};

fn store_with(key: &str, title: &str, description: &str) -> Config {
    let mut cfg = Config::default();
    cfg.desktops.insert(
        key.into(),
        DesktopLabel { title: title.into(), description: description.into() },
    );
    cfg
}

#[test]
fn list_returns_labels_by_guid() {
    let r = list_response(Ok(store_with("Desktop(Guid(AAAA))", "Work", "Tickets")));
    assert!(r.ok);
    assert!(r.error.is_none());
    assert!(r.desktop_id.is_none());
    assert!(r.label.is_none());
    let labels = r.labels.unwrap();
    assert_eq!(labels.len(), 1);
    assert_eq!(labels.get("AAAA").unwrap().title, "Work");
    assert_eq!(labels.get("AAAA").unwrap().description, "Tickets");
}

#[test]
fn list_fails_on_key_without_guid() {
    let mut cfg = store_with("Desktop(Guid(CCCC))", "Work", "Tickets");
    cfg.desktops.insert("guid-1".into(), DesktopLabel::default());
    let r = list_response(Ok(cfg));
    assert!(!r.ok);
    assert_eq!(r.error.as_deref(), Some("list failed: no GUID in key guid-1"));
    assert!(r.labels.is_none());
}

#[test]
fn list_keys_labels_by_guid_once() {
    let mut cfg = store_with("Desktop(Guid(AAAA))", "Work", "Tickets");
    cfg.desktops.insert("Desktop(Guid(BBBB))".into(), DesktopLabel::default());
    cfg.desktops.insert("Other(Guid(AAAA))".into(), DesktopLabel { title: "Home".into(), description: "".into() });
    let labels = list_labels(&cfg.desktops).unwrap();
    assert_eq!(labels.len(), 2);
    assert_eq!(labels.get("AAAA").unwrap().title, "Home");
    assert_eq!(labels.get("BBBB").unwrap().title, "");
}

#[test]
fn list_reports_load_failure() {
    let r = list_response(Err("broken".into()));
    assert!(!r.ok);
    assert_eq!(r.error.as_deref(), Some("list failed: broken"));
    assert!(r.labels.is_none());
}

#[test]
fn resolve_window_without_stored_label() {
    let request: Result<Request, String> = Ok(Request::ResolveWindow { hwnd: 12345 });
    assert_eq!(window_to_resolve(&request), Some(12345));
    let r = respond(
        request,
        Ok(store_with("Desktop(Guid(AAAA))", "Work", "Tickets")),
        Ok("BBBB".into()),
    );
    assert!(r.ok);
    assert!(r.error.is_none());
    assert!(r.labels.is_none());
    assert_eq!(r.desktop_id.as_deref(), Some("BBBB"));
    let label = r.label.unwrap();
    assert_eq!(label.title, "");
    assert_eq!(label.description, "");
}

#[test]
fn resolve_window_with_stored_label() {
    let r = resolve_response(Ok("AAAA".into()), Ok(store_with("Desktop(Guid(AAAA))", "Work", "Tickets")));
    assert!(r.ok);
    let label = r.label.unwrap();
    assert_eq!(label.title, "Work");
    assert_eq!(label.description, "Tickets");
}

#[test]
fn resolve_window_failures() {
    let r = resolve_response(Err("winvd: no desktop".into()), Ok(Config::default()));
    assert!(!r.ok);
    assert_eq!(r.error.as_deref(), Some("resolve_window failed: winvd: no desktop"));
    assert!(r.desktop_id.is_none() && r.label.is_none());
    let r = resolve_response(Ok("BBBB".into()), Err("bad json".into()));
    assert!(!r.ok);
    assert_eq!(r.error.as_deref(), Some("resolve_window failed: bad json"));
}

#[test]
fn bad_request_then_normal_request() {
    let r = bad_request("expected value at line 1 column 1");
    assert!(!r.ok);
    assert_eq!(r.error.as_deref(), Some("bad request: expected value at line 1 column 1"));
    assert!(r.labels.is_none() && r.desktop_id.is_none() && r.label.is_none());
    let r = respond(Err("expected value at line 1 column 1".into()), Ok(Config::default()), Err(String::new()));
    assert!(!r.ok);
    assert_eq!(r.error.as_deref(), Some("bad request: expected value at line 1 column 1"));
    assert_eq!(window_to_resolve(&Ok(Request::List)), None);
    let r = respond(Ok(Request::List), Ok(store_with("Desktop(Guid(AAAA))", "Work", "Tickets")), Err(String::new()));
    assert!(r.ok);
    assert_eq!(r.labels.unwrap().get("AAAA").unwrap().title, "Work");
}

#[test]
fn serialize_failure_message() {
    let r = serialize_failed("oops");
    assert!(!r.ok);
    assert_eq!(r.error.as_deref(), Some("serialize failed: oops"));
}

#[test]
fn request_variants_compare() {
    assert_eq!(Request::List, Request::List);
    assert_ne!(Request::List, Request::ResolveWindow { hwnd: 1 });
}
