use rustconn::embedded_rdp::ephemeral_args::{args_file_content, EphemeralRdpArgs};

fn secrets(pairs: &[(&str, &str)]) -> Vec<(String, String)> {
    pairs.iter().map(|(f, s)| (f.to_string(), s.to_string())).collect()
}

#[test]
fn writes_multiple_secret_args_one_per_line() {
    let content = args_file_content(
        &Vec::new(),
        &secrets(&[("p", "session-pw"), ("gp", "gateway-pw")]),
    );
    assert_eq!(content, "/p:session-pw\n/gp:gateway-pw\n");
}

#[test]
fn write_all_combines_plain_and_secret_args() {
    let plain = vec![
        "/v:myhost".to_string(),
        "/u:admin".to_string(),
        "/w:1920".to_string(),
        "/h:1080".to_string(),
        "+clipboard".to_string(),
    ];
    let content = args_file_content(&plain, &secrets(&[("p", "s3cret")]));
    assert_eq!(content, "/v:myhost\n/u:admin\n/w:1920\n/h:1080\n+clipboard\n/p:s3cret\n");
}

#[test]
fn write_all_no_secrets_writes_only_plain_args() {
    let plain = vec!["/v:host".to_string(), "/cert:ignore".to_string()];
    let content = args_file_content(&plain, &Vec::new());
    assert_eq!(content, "/v:host\n/cert:ignore\n");
}

#[test]
fn the_args_file_is_named_by_its_uuid_inside_the_directory() {
    let id: u128 = 0x12345678_1234_1234_1234_123456789abc;
    let args = EphemeralRdpArgs::in_dir_with_id(b"/run/user/1000", id);
    assert_eq!(
        args.path(),
        b"/run/user/1000/rustconn-rdp-12345678-1234-1234-1234-123456789abc.args"
    );
    let slash = EphemeralRdpArgs::in_dir_with_id(b"/tmp/", id);
    assert_eq!(slash.path(), b"/tmp/rustconn-rdp-12345678-1234-1234-1234-123456789abc.args");
}

#[test]
fn fresh_args_files_get_distinct_names() {
    let a = EphemeralRdpArgs::in_dir(b"/tmp");
    let b = EphemeralRdpArgs::in_dir(b"/tmp");
    assert!(a.path().starts_with(b"/tmp/rustconn-rdp-"));
    assert!(a.path().ends_with(b".args"));
    assert_ne!(a.path(), b.path());
}
