use rustconn::tunnel::{connection_gone_body, tunnel_not_started_title, tunnel_toggle, TunnelToggle, tunnel_list_layout, TunnelListLayout, 
    connection_subtitle, delete_confirmation_body, forwards_subtitle, missing_program_remedy,
    remove_tunnel, shown_user, toggle_button, tunnel_name, tunnel_row_status,
    tunnel_start_error_body, TunnelRecord, TunnelStartError,
};

fn program_not_found(program: &str) -> TunnelStartError {
    TunnelStartError::ProgramNotFound { program: program.to_string() }
}

#[test]
fn a_missing_mptcpize_does_not_send_the_user_to_install_openssh() {
    let body = tunnel_start_error_body("mysql prod", &program_not_found("mptcpize"));
    assert!(body.contains("mptcpize"), "program name missing: {body}");
    assert!(!body.contains("OpenSSH"), "still naming the wrong package: {body}");
    assert!(body.contains("mptcpd"), "no remedy offered: {body}");
}

#[test]
fn a_missing_ssh_still_names_the_openssh_client() {
    let body = tunnel_start_error_body("mysql prod", &program_not_found("ssh"));
    assert!(body.contains("OpenSSH"), "remedy missing: {body}");
    assert!(!body.contains("mptcpd"), "wrong remedy: {body}");
}

#[test]
fn an_unknown_program_gets_generic_advice_and_never_a_guessed_package() {
    let remedy = missing_program_remedy("some-future-wrapper");
    assert!(!remedy.is_empty());
    assert!(!remedy.contains("OpenSSH"));
    assert!(!remedy.contains("mptcpd"));
    assert!(remedy.contains("PATH"), "no actionable advice: {remedy}");
}

#[test]
fn every_variant_names_the_tunnel_it_is_about() {
    let errors = [
        program_not_found("ssh"),
        TunnelStartError::NotSshConnection,
        TunnelStartError::AlreadyRunning,
        TunnelStartError::Other("Tunnel not found".to_string()),
        TunnelStartError::Other("Connection not found".to_string()),
    ];
    for error in errors {
        let body = tunnel_start_error_body("mysql prod", &error);
        assert!(body.contains("mysql prod"), "{error:?} produced a body with no tunnel name: {body}");
    }
}

#[test]
fn the_fallback_arm_passes_the_systems_own_words_through() {
    let error = TunnelStartError::Other("no pty available".to_string());
    let body = tunnel_start_error_body("mysql prod", &error);
    assert!(body.contains("no pty available"), "system message was dropped: {body}");
}

#[test]
fn the_start_error_bodies_read_exactly() {
    assert_eq!(
        tunnel_start_error_body("db", &TunnelStartError::AlreadyRunning),
        "“db” is already running."
    );
    assert_eq!(
        tunnel_start_error_body("db", &program_not_found("ssh")),
        "“db” needs ssh, which is not installed or not on PATH. Install the OpenSSH client and try again."
    );
}

#[test]
fn a_crashed_tunnel_shows_its_trimmed_error() {
    let s = tunnel_row_status(false, Some("  Permission denied\n"));
    assert_eq!(s.icon, "dialog-warning-symbolic");
    assert_eq!(s.css_class, "error");
    assert_eq!(s.state_text, "Stopped unexpectedly");
    assert_eq!(s.last_error.as_deref(), Some("Permission denied"));
}

#[test]
fn a_running_tunnel_ignores_an_old_failure() {
    let s = tunnel_row_status(true, Some("old"));
    assert_eq!(s.css_class, "success");
    assert_eq!(s.state_text, "Running");
    assert_eq!(s.last_error, None);
    let stopped = tunnel_row_status(false, None);
    assert_eq!(stopped.css_class, "dim-label");
    assert_eq!(stopped.state_text, "Stopped");
}

#[test]
fn row_texts() {
    assert_eq!(toggle_button(true).1, "Stop Tunnel");
    assert_eq!(toggle_button(false).0, "media-playback-start-symbolic");
    assert_eq!(forwards_subtitle(0, "ignored"), "No port forwards configured");
    assert_eq!(forwards_subtitle(2, "L 8080 → 80"), "L 8080 → 80");
    assert_eq!(
        connection_subtitle(Some(("web", "admin", "10.0.0.1"))),
        "web (admin@10.0.0.1)"
    );
    assert_eq!(connection_subtitle(None), "Unknown connection");
    assert_eq!(shown_user(None), "?");
    assert_eq!(
        delete_confirmation_body("db"),
        "Tunnel \"db\" will be permanently removed."
    );
}

#[test]
fn removing_a_tunnel_keeps_the_others_in_order() {
    let tunnels = vec![
        TunnelRecord { id: 1, name: "a".to_string() },
        TunnelRecord { id: 2, name: "b".to_string() },
        TunnelRecord { id: 3, name: "c".to_string() },
    ];
    assert_eq!(tunnel_name(&tunnels, 2), "b");
    assert_eq!(tunnel_name(&tunnels, 9), "");
    let left = remove_tunnel(&tunnels, 2);
    let ids: Vec<u128> = left.iter().map(|t| t.id).collect();
    assert_eq!(ids, vec![1, 3]);
}

#[test]
fn tunnel_list_without_tunnels_shows_the_empty_page() {
    assert!(matches!(tunnel_list_layout(&vec![]), TunnelListLayout::Empty));
}

#[test]
fn tunnel_list_splits_running_from_stopped_in_order() {
    match tunnel_list_layout(&vec![false, true, true, false, true]) {
        TunnelListLayout::Groups { active, stopped } => {
            assert_eq!(active, vec![1, 2, 4]);
            assert_eq!(stopped, vec![0, 3]);
        }
        TunnelListLayout::Empty => panic!("a list with tunnels is not empty"),
    }
}

#[test]
fn toggling_a_running_tunnel_stops_it() {
    assert!(matches!(tunnel_toggle(true, true, Some("pw")), TunnelToggle::Stop));
    assert!(matches!(tunnel_toggle(true, false, None), TunnelToggle::Stop));
}

#[test]
fn toggling_a_stopped_tunnel_starts_it_with_a_non_empty_cached_password() {
    match tunnel_toggle(false, true, Some("secret")) {
        TunnelToggle::Start { password } => assert_eq!(password.as_deref(), Some("secret")),
        other => panic!("expected a start, got {other:?}"),
    }
    match tunnel_toggle(false, true, Some("")) {
        TunnelToggle::Start { password } => assert_eq!(password, None),
        other => panic!("expected a start, got {other:?}"),
    }
    match tunnel_toggle(false, true, None) {
        TunnelToggle::Start { password } => assert_eq!(password, None),
        other => panic!("expected a start, got {other:?}"),
    }
}

#[test]
fn a_tunnel_whose_connection_is_gone_is_explained() {
    assert!(matches!(tunnel_toggle(false, false, Some("x")), TunnelToggle::ConnectionGone));
    assert_eq!(tunnel_not_started_title(), "Tunnel Did Not Start");
    assert_eq!(
        connection_gone_body("db"),
        "“db” refers to an SSH connection that no longer exists. Edit the tunnel and pick a connection."
    );
}
