use not_rsync::remote::parse_server_pid;

#[test]
fn pid_with_leading_zeros() {
    assert_eq!(parse_server_pid(b"01234"), Some(1234));
    assert_eq!(parse_server_pid(b"00000"), Some(0));
}

#[test]
fn pid_with_plus_sign() {
    assert_eq!(parse_server_pid(b"+0012"), Some(12));
    assert_eq!(parse_server_pid(b"+"), None);
}

#[test]
fn pid_rejects_non_digits() {
    assert_eq!(parse_server_pid(b"12a45"), None);
    assert_eq!(parse_server_pid(b"1234\n"), None);
    assert_eq!(parse_server_pid(b"-1234"), None);
    assert_eq!(parse_server_pid(&[0xff, 0x31]), None);
    assert_eq!(parse_server_pid(b""), None);
}

#[test]
fn pid_overflow() {
    assert_eq!(parse_server_pid(b"4294967295"), Some(u32::MAX));
    assert_eq!(parse_server_pid(b"4294967296"), None);
    assert_eq!(parse_server_pid(b"99999999999999999999"), None);
}

#[test]
fn pid_announcement_reads_back() {
    for pid in [0u32, 7, 42, 31337, 99999] {
        let announced = format!("{:05}", pid);
        assert_eq!(parse_server_pid(announced.as_bytes()), Some(pid));
    }
}

#[test]
fn long_pid_is_cut_to_five_digits() {
    let announced = format!("{:05}", 123456u32);
    assert_eq!(parse_server_pid(&announced.as_bytes()[..5]), Some(12345));
}
