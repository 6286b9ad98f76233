use rustconn::embedded_rdp::detect::{
    detect_best_freerdp, detect_best_freerdp_for_remoteapp, detect_wlfreerdp, detect_xfreerdp,
    wayland_first_candidates, x11_first_candidates,
};

fn names(v: &[&str]) -> Vec<String> {
    v.iter().map(|s| s.to_string()).collect()
}

#[test]
fn test_wayland_candidates_prefer_sdl3() {
    let candidates = wayland_first_candidates();
    assert!(candidates.iter().any(|c| c == "wlfreerdp3"));
    assert!(candidates.iter().any(|c| c == "wlfreerdp"));
    assert!(candidates.iter().any(|c| c == "sdl-freerdp3"));
    assert!(candidates.iter().any(|c| c == "sdl-freerdp"));
    // Maintained SDL3 first, deprecated wlfreerdp as fallback, X11 last.
    let sdl_pos = candidates.iter().position(|c| c == "sdl-freerdp3").unwrap();
    let wl_pos = candidates.iter().position(|c| c == "wlfreerdp3").unwrap();
    let x11_pos = candidates.iter().position(|c| c == "xfreerdp3").unwrap();
    assert!(sdl_pos < wl_pos);
    assert!(wl_pos < x11_pos);
}

#[test]
fn test_x11_candidates_prefer_xfreerdp() {
    let candidates = x11_first_candidates();
    let x11_pos = candidates.iter().position(|c| c == "xfreerdp3").unwrap();
    let sdl_pos = candidates.iter().position(|c| c == "sdl-freerdp3").unwrap();
    let wl_pos = candidates.iter().position(|c| c == "wlfreerdp3").unwrap();
    assert!(x11_pos < sdl_pos);
    assert!(sdl_pos < wl_pos);
}

#[test]
fn wayland_session_picks_sdl_over_xfreerdp() {
    let installed = names(&["xfreerdp3", "sdl-freerdp3"]);
    assert_eq!(detect_best_freerdp(true, &installed).as_deref(), Some("sdl-freerdp3"));
}

#[test]
fn x11_session_picks_xfreerdp_over_sdl() {
    let installed = names(&["sdl-freerdp3", "xfreerdp"]);
    assert_eq!(detect_best_freerdp(false, &installed).as_deref(), Some("xfreerdp"));
}

#[test]
fn nothing_installed_means_no_client() {
    assert_eq!(detect_best_freerdp(true, &Vec::new()), None);
    assert_eq!(detect_best_freerdp(false, &names(&["remmina"])), None);
}

#[test]
fn external_mode_makes_the_same_choice() {
    let installed = names(&["wlfreerdp", "xfreerdp"]);
    assert_eq!(detect_xfreerdp(true, &installed), detect_best_freerdp(true, &installed));
    assert_eq!(detect_xfreerdp(true, &installed).as_deref(), Some("wlfreerdp"));
}

#[test]
fn embedding_needs_wayland_and_a_wlfreerdp_binary() {
    assert!(detect_wlfreerdp(true, &names(&["wlfreerdp3"])));
    assert!(detect_wlfreerdp(true, &names(&["wlfreerdp"])));
    assert!(!detect_wlfreerdp(false, &names(&["wlfreerdp3"])));
    assert!(!detect_wlfreerdp(true, &names(&["sdl-freerdp3"])));
}

#[test]
fn remoteapp_uses_only_xfreerdp_and_marks_host_binaries() {
    assert_eq!(
        detect_best_freerdp_for_remoteapp(&names(&["sdl-freerdp", "xfreerdp"]), false, &Vec::new())
            .as_deref(),
        Some("xfreerdp")
    );
    assert_eq!(
        detect_best_freerdp_for_remoteapp(&names(&["wlfreerdp"]), true, &names(&["xfreerdp3"]))
            .as_deref(),
        Some("host:xfreerdp3")
    );
    assert_eq!(
        detect_best_freerdp_for_remoteapp(&names(&["wlfreerdp"]), false, &names(&["xfreerdp3"])),
        None
    );
}
