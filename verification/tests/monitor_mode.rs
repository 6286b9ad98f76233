use rustconn::monitor_mode::{from_index, index_of, labels, mode_row_subtitle, MonitorMode};

#[test]
fn every_mode_round_trips_through_its_index() {
    for mode in MonitorMode::all() {
        assert_eq!(from_index(index_of(mode)), mode, "{mode:?} does not survive the picker");
    }
}

#[test]
fn off_is_first_so_an_unset_picker_means_off() {
    assert_eq!(from_index(0), MonitorMode::Off);
    assert_eq!(index_of(MonitorMode::Off), 0);
}

#[test]
fn an_out_of_range_index_falls_back_to_off() {
    assert_eq!(from_index(u32::MAX), MonitorMode::Off);
    let past_the_end = u32::try_from(MonitorMode::all().len()).expect("small");
    assert_eq!(from_index(past_the_end), MonitorMode::Off);
}

#[test]
fn there_is_one_label_per_mode() {
    assert_eq!(labels().len(), MonitorMode::all().len());
    assert!(!mode_row_subtitle().is_empty());
}
