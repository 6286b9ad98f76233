use rustconn::embedded_spice::{
    connect_outcome, reconnect_without_config, SpiceConnectionState, SpicePixelBuffer, ViewerLaunch,
};

#[test]
fn test_spice_connection_state_display() {
    assert_eq!(SpiceConnectionState::Disconnected.to_string(), "Disconnected");
    assert_eq!(SpiceConnectionState::Connecting.to_string(), "Connecting");
    assert_eq!(SpiceConnectionState::Connected.to_string(), "Connected");
    assert_eq!(SpiceConnectionState::Error.to_string(), "Error");
}

#[test]
fn test_pixel_buffer_new() {
    let buffer = SpicePixelBuffer::new(100, 50);
    assert_eq!(buffer.width(), 100);
    assert_eq!(buffer.height(), 50);
    assert_eq!(buffer.data().len(), 100 * 50 * 4);
}

#[test]
fn test_pixel_buffer_resize() {
    let mut buffer = SpicePixelBuffer::new(100, 50);
    buffer.resize(200, 100);
    assert_eq!(buffer.width(), 200);
    assert_eq!(buffer.height(), 100);
    assert_eq!(buffer.data().len(), 200 * 100 * 4);
}

#[test]
fn update_region_copies_rows_and_clips_at_the_edges() {
    let mut buffer = SpicePixelBuffer::new(4, 2);
    // A 2x3 block at (3, 1): one pixel fits horizontally, one row vertically.
    let src: Vec<u8> = (1..=24).collect();
    buffer.update_region(3, 1, 2, 3, &src, 8);
    let data = buffer.data();
    let row1 = 16;
    assert_eq!(&data[row1 + 12..row1 + 16], &[1, 2, 3, 4]);
    assert!(data[..row1 + 12].iter().all(|b| *b == 0));
}

#[test]
fn clear_zeroes_the_buffer_and_resize_keeps_old_bytes() {
    let mut buffer = SpicePixelBuffer::new(1, 1);
    buffer.update_region(0, 0, 1, 1, &[9, 9, 9, 9], 4);
    buffer.resize(2, 1);
    assert_eq!(buffer.data(), &[9, 9, 9, 9, 0, 0, 0, 0]);
    buffer.clear();
    assert!(buffer.data().iter().all(|b| *b == 0));
}

#[test]
fn launch_outcomes() {
    let ok = connect_outcome(&ViewerLaunch::Launched);
    assert_eq!(ok.state, SpiceConnectionState::Connected);
    assert!(ok.error.is_none());
    let missing = connect_outcome(&ViewerLaunch::NoViewerFound);
    assert_eq!(missing.state, SpiceConnectionState::Error);
    assert_eq!(missing.error.as_deref(), Some("No SPICE viewer found"));
    let failed = connect_outcome(&ViewerLaunch::LaunchFailed("boom".to_string()));
    assert_eq!(failed.reported.as_deref(), Some("Failed to launch viewer: boom"));
    assert!(SpiceConnectionState::Error.shows_reconnect());
    assert!(!SpiceConnectionState::Connected.shows_reconnect());
    assert_eq!(reconnect_without_config(), "No previous configuration to reconnect");
}

#[test]
fn status_texts() {
    assert_eq!(rustconn::embedded_spice::status_text(SpiceConnectionState::Connected, false), "Session running in external window");
    assert_eq!(rustconn::embedded_spice::status_text(SpiceConnectionState::Connected, true), "Connected");
    assert_eq!(rustconn::embedded_spice::status_text(SpiceConnectionState::Disconnected, true), "Session ended");
}
