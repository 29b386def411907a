use mddskmgr::config::{from_stored, Config, DesktopLabel, LabelMap, Hotkeys, KeyChord};

#[test]
fn default_config_has_expected_values() {
    let cfg = Config::default();
    assert_eq!(cfg.hotkeys.edit_title.key, "T");
    assert_eq!(cfg.hotkeys.edit_description.key, "D");
    assert_eq!(cfg.hotkeys.toggle_overlay.key, "O");
    assert_eq!(cfg.hotkeys.snap_position.key, "L");
    assert_eq!(cfg.appearance.font_family, "Segoe UI");
    assert_eq!(cfg.appearance.font_size_dip, 16);
    assert_eq!(cfg.appearance.margin_px, 8);
    assert!(!cfg.appearance.hide_on_fullscreen);
    assert!(cfg.desktops.is_empty());
    assert!(cfg.version.is_none());
}

fn legacy_with_snap(key: &str, version: Option<u32>) -> Config {
    Config {
        hotkeys: Hotkeys {
            snap_position: KeyChord {
                key: key.into(),
                ..Config::default().hotkeys.snap_position
            },
            ..Config::default().hotkeys
        },
        version,
        ..Config::default()
    }
}

#[test]
fn legacy_snap_key_migrates_to_l() {
    let (cfg, migrated) = from_stored(Some(legacy_with_snap("S", None)));
    assert!(migrated);
    assert_eq!(cfg.hotkeys.snap_position.key, "L");
    assert_eq!(cfg.version, Some(1));
    assert!(cfg.hotkeys.snap_position.ctrl);
    assert_eq!(cfg.hotkeys.edit_title.key, "T");
}

#[test]
fn versioned_document_keeps_snap_key() {
    let (cfg, migrated) = from_stored(Some(legacy_with_snap("S", Some(1))));
    assert!(!migrated);
    assert_eq!(cfg.hotkeys.snap_position.key, "S");
    assert_eq!(cfg.version, Some(1));

    let (cfg, migrated) = from_stored(Some(legacy_with_snap("S", Some(0))));
    assert!(!migrated);
    assert_eq!(cfg.hotkeys.snap_position.key, "S");
}

#[test]
fn legacy_document_with_other_key_is_not_migrated() {
    let (cfg, migrated) = from_stored(Some(legacy_with_snap("K", None)));
    assert!(!migrated);
    assert_eq!(cfg.hotkeys.snap_position.key, "K");
    assert!(cfg.version.is_none());

    let mut cfg = legacy_with_snap("s", None);
    assert!(!cfg.migrate());
    assert_eq!(cfg.hotkeys.snap_position.key, "s");
}

#[test]
fn migration_runs_once() {
    let mut cfg = legacy_with_snap("S", None);
    assert!(cfg.migrate());
    assert!(!cfg.migrate());
    assert_eq!(cfg.hotkeys.snap_position.key, "L");
    assert_eq!(cfg.version, Some(1));
}

#[test]
fn absent_document_gives_default() {
    let (cfg, migrated) = from_stored(None);
    assert!(!migrated);
    assert!(cfg.version.is_none());
    assert!(cfg.desktops.is_empty());
    assert_eq!(cfg.hotkeys.snap_position.key, "L");
}

#[test]
fn stored_document_without_migration_comes_back_equal() {
    let mut cfg = Config::default();
    cfg.version = Some(1);
    cfg.desktops.insert(
        "guid-1".into(),
        DesktopLabel { title: "Work".into(), description: "Tickets".into() },
    );
    let (back, migrated) = from_stored(Some(cfg.clone()));
    assert!(!migrated);
    assert_eq!(back.version, Some(1));
    assert_eq!(back.desktops.get("guid-1").unwrap().title, "Work");
    assert_eq!(back.desktops.get("guid-1").unwrap().description, "Tickets");
    assert_eq!(back.desktops.len(), 1);
}

#[test]
fn desktops_insert_replaces_and_get_finds() {
    let mut d = LabelMap::new();
    assert!(d.is_empty());
    assert!(d.get("k").is_none());
    d.insert("k".into(), DesktopLabel { title: "a".into(), description: "b".into() });
    d.insert("j".into(), DesktopLabel::default());
    d.insert("k".into(), DesktopLabel { title: "c".into(), description: "d".into() });
    assert_eq!(d.len(), 2);
    assert!(!d.is_empty());
    assert!(d.contains_key("j"));
    assert!(!d.contains_key("K"));
    assert_eq!(d.get("k").unwrap().title, "c");
    assert_eq!(d.get("k").unwrap().description, "d");
    assert_eq!(d.get("j").unwrap().title, "");
    assert_eq!(d.key_at(0), "k");
    assert_eq!(d.label_at(1).title, "");
}
