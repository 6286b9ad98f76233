use rustconn::notebook::{PageOwner, TerminalNotebook};

fn icons() -> Vec<(String, String)> {
    vec![("vnc".to_string(), "video-display-symbolic".to_string())]
}

#[test]
fn a_new_notebook_shows_the_welcome_page_when_asked() {
    let nb = TerminalNotebook::new(true, icons());
    assert_eq!(nb.n_pages(), 1);
    let quiet = TerminalNotebook::new(false, icons());
    assert_eq!(quiet.n_pages(), 0);
}

#[test]
fn the_first_session_tab_replaces_the_welcome_page() {
    let mut nb = TerminalNotebook::new(true, icons());
    let id = nb.create_vnc_session_tab(7, "desk");
    assert_eq!(nb.n_pages(), 1);
    assert!(nb.has_session_tab(id));
    assert!(nb.has_session(id));
}

#[test]
fn tooltips_and_titles() {
    assert_eq!(TerminalNotebook::tab_tooltip("srv", Some("10.0.0.1"), Some("Prod")), "srv\n10.0.0.1\n[Prod]");
    assert_eq!(TerminalNotebook::tab_tooltip("srv", Some(""), None), "srv");
    assert_eq!(TerminalNotebook::tab_title("srv", Some("Prod")), "[Prod] srv");
    assert_eq!(TerminalNotebook::tab_title("srv", None), "srv");
}

#[test]
fn parking_keeps_the_session_and_restoring_brings_the_tab_back() {
    let mut nb = TerminalNotebook::new(false, icons());
    let id = nb.create_vnc_session_tab_with_host(7, "desk", "10.0.0.9");
    nb.park_session_tab(id);
    assert!(!nb.has_session_tab(id));
    assert!(nb.is_parked(id));
    assert!(nb.has_session(id));
    nb.reparent_terminal_to_tab(id);
    assert!(nb.has_session_tab(id));
    assert!(!nb.is_parked(id));
}

#[test]
fn restoring_an_unparked_session_changes_nothing() {
    let mut nb = TerminalNotebook::new(false, icons());
    let id = nb.create_vnc_session_tab(7, "desk");
    assert!(!nb.restore_session_tab(id));
    assert_eq!(nb.n_pages(), 1);
}

#[test]
fn closing_a_parked_session_tears_it_down() {
    let mut nb = TerminalNotebook::new(false, icons());
    let a = nb.create_vnc_session_tab(1, "a");
    let b = nb.create_vnc_session_tab(2, "b");
    assert_ne!(a, b);
    nb.park_session_tab(a);
    nb.close_session(a);
    assert!(!nb.has_session(a));
    assert!(!nb.is_parked(a));
    assert!(nb.has_session_tab(b));
    assert_eq!(nb.n_pages(), 1);
}

#[test]
fn park_tab_page_without_a_mark_runs_the_teardown() {
    let mut nb = TerminalNotebook::new(false, icons());
    let a = nb.create_vnc_session_tab(1, "a");
    assert!(nb.park_tab_page(a));
    assert!(!nb.has_session(a));
    assert!(!nb.park_tab_page(a));
}

#[test]
fn the_welcome_page_comes_back_on_an_empty_notebook() {
    let mut nb = TerminalNotebook::new(true, icons());
    let a = nb.create_vnc_session_tab(1, "a");
    nb.close_session(a);
    assert_eq!(nb.n_pages(), 0);
    nb.ensure_welcome_page();
    assert_eq!(nb.n_pages(), 1);
    nb.remove_welcome_page();
    assert_eq!(nb.n_pages(), 0);
    let _ = PageOwner::Welcome;
}

#[test]
fn terminal_and_embedded_tabs_get_their_icons() {
    let mut nb = TerminalNotebook::new(true, vec![("ssh".to_string(), "utilities-terminal-symbolic".to_string())]);
    let t = nb.create_terminal_tab(1, "shell", "ssh");
    assert!(nb.has_session_tab(t));
    assert_eq!(nb.n_pages(), 1, "the welcome page made way");
    nb.add_embedded_rdp_tab(1000, 2, "desktop");
    nb.add_embedded_web_tab(1001, 3, "wiki");
    nb.add_embedded_session_tab(1002, 4, "viewer", "vnc");
    assert_eq!(nb.n_pages(), 4);
    assert!(nb.has_session(1002));
    nb.close_session(1000);
    assert!(!nb.has_session(1000));
    assert_eq!(nb.n_pages(), 3);
}

#[test]
fn reusing_a_session_id_replaces_the_session_and_leaves_its_old_page() {
    let mut nb = TerminalNotebook::new(false, icons());
    nb.add_embedded_rdp_tab(42, 7, "first");
    assert_eq!(nb.n_pages(), 1);
    nb.add_embedded_web_tab(42, 8, "second");
    assert_eq!(nb.n_pages(), 2);
    assert!(nb.has_session(42));
    assert!(nb.has_session_tab(42));
    nb.close_session(42);
    assert!(!nb.has_session(42));
    assert!(!nb.has_session_tab(42));
    assert_eq!(nb.n_pages(), 1);
}

#[test]
fn reusing_the_id_of_a_parked_session_gives_it_a_tab_while_it_stays_parked() {
    let mut nb = TerminalNotebook::new(false, icons());
    nb.add_embedded_rdp_tab(5, 7, "a");
    nb.park_session_tab(5);
    assert!(nb.is_parked(5));
    nb.add_embedded_rdp_tab(5, 7, "b");
    assert!(nb.is_parked(5));
    assert!(nb.has_session_tab(5));
    nb.reparent_terminal_to_tab(5);
    assert!(!nb.is_parked(5));
    assert!(nb.has_session_tab(5));
    assert_eq!(nb.n_pages(), 2);
}
