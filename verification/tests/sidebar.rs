use rustconn::sidebar::{
    ancestor_path, connection_tooltip, group_tooltip, menu_flags, note_badge_tooltip,
    present_connection_row, present_group_row, row_icon, split_marker_class, status_emblem,
    sync_indicator, RowIcon,
};

#[test]
fn split_markers_cycle_through_six_colours() {
    assert_eq!(split_marker_class(-1), None);
    assert_eq!(split_marker_class(0).as_deref(), Some("sidebar-split-0"));
    assert_eq!(split_marker_class(7).as_deref(), Some("sidebar-split-1"));
}

#[test]
fn the_ancestor_path_reads_from_the_root_down() {
    let parents = vec!["db".to_string(), "prod".to_string(), "eu".to_string()];
    assert_eq!(ancestor_path(&parents), "eu › prod › db");
    assert_eq!(ancestor_path(&Vec::new()), "");
}

#[test]
fn tooltips() {
    assert_eq!(group_tooltip("", "Prod", 3), "Prod (3)");
    assert_eq!(group_tooltip("eu", "Prod", 0), "eu › Prod");
    assert_eq!(connection_tooltip("eu › Prod", "web", "10.0.0.1"), "eu › Prod › web\n10.0.0.1");
    assert_eq!(connection_tooltip("", "web", "web"), "web");
}

#[test]
fn status_emblems() {
    let c = status_emblem("connected").unwrap();
    assert_eq!(c.icon, "object-select-symbolic");
    assert_eq!(c.css_class, "status-connected");
    assert_eq!(status_emblem("failed").unwrap().label, "Connection failed");
    assert!(status_emblem("").is_none());
}

#[test]
fn long_notes_are_cut_on_a_character_boundary() {
    assert_eq!(note_badge_tooltip("   "), None);
    assert_eq!(note_badge_tooltip("short note").as_deref(), Some("short note"));
    let ascii = "a".repeat(130);
    let cut = note_badge_tooltip(&ascii).unwrap();
    assert_eq!(cut, format!("{}…", "a".repeat(120)));
    // Two-byte characters: the last one that starts within 120 bytes starts at 120.
    let wide = "é".repeat(70);
    let cut = note_badge_tooltip(&wide).unwrap();
    assert_eq!(cut, format!("{}…", "é".repeat(60)));
}

#[test]
fn sync_indicators() {
    let ok = sync_indicator("master", "").unwrap();
    assert_eq!(ok.tooltip, "Master — synced to cloud");
    let err = sync_indicator("import", "offline").unwrap();
    assert_eq!(err.css_class, "error");
    assert_eq!(err.tooltip, "Sync error: offline");
    assert!(sync_indicator("none", "").is_none());
}

#[test]
fn icons_and_rows() {
    assert_eq!(row_icon("", false, false, "folder-symbolic"), RowIcon::Named("folder-symbolic".to_string()));
    assert_eq!(row_icon("🐧", true, false, "folder-symbolic"), RowIcon::Glyph("🐧".to_string()));
    assert_eq!(row_icon("missing-icon", false, false, "x"), RowIcon::Named("x".to_string()));
    let g = present_group_row("Prod", "", false, false, &vec!["eu".to_string()], 2, "master", "");
    assert_eq!(g.tooltip, "eu › Prod (2) — Master — synced to cloud");
    let c = present_connection_row(
        "web", "10.0.0.1", "", false, false, "network-server-symbolic", &Vec::new(),
        "connecting", "", 3,
    );
    assert_eq!(c.tooltip, "web\n10.0.0.1");
    assert_eq!(c.status.unwrap().css_class, "status-connecting");
    assert_eq!(c.note, None);
    assert_eq!(c.split_marker.as_deref(), Some("sidebar-split-3"));
}

#[test]
fn context_menu_flags() {
    let f = menu_flags("sftp", "connected", "abc", true);
    assert!(f.is_ssh && f.is_connected && f.is_recording);
    let g = menu_flags("rdp", "connected", "", true);
    assert!(!g.is_ssh && !g.is_recording);
}
