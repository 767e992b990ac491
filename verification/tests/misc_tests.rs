use nipart::{
    classify_message, frame_message, parse_message_size, ErrorKind, NetworkCommitQueryOption, NipartConnection,
    NipartDhcpConfig, NipartDhcpConfigV4, NipartDhcpConfigV6, NipartError, NipartEventAddress, NipartLockOption,
    NipartLogEntry, NipartLogLevel, NipartMessageKind, NipartUuid, NipartstateApplyOption, NipartstateQueryOption,
    NipartstateStateKind, IPC_MAX_SIZE,
};

#[test]
fn log_level_names() {
    for l in [
        NipartLogLevel::Off,
        NipartLogLevel::Error,
        NipartLogLevel::Warn,
        NipartLogLevel::Info,
        NipartLogLevel::Debug,
        NipartLogLevel::Trace,
    ] {
        assert_eq!(NipartLogLevel::from_name(l.as_str()).unwrap(), l);
    }
    assert_eq!(NipartLogLevel::from_name("loud").unwrap_err().kind(), ErrorKind::InvalidLogLevel);
}

#[test]
fn log_entry_target() {
    let e = NipartLogEntry::new_warn("daemon".into(), "disk full".into());
    let (target, level) = e.emit_target().unwrap();
    assert_eq!(target, "nipart.daemon");
    assert_eq!(level, NipartLogLevel::Warn);
    let off = NipartLogEntry::new("x".into(), NipartLogLevel::Off, "m".into());
    assert!(off.emit_target().is_none());
    assert_eq!(e.ipc_kind(), "log");
}

#[test]
fn uuid_text_round_trip() {
    let u = NipartUuid::from_u128(0x0123456789abcdef0123456789abcdef);
    let text = u.to_display_string();
    assert_eq!(text, "01234567-89ab-cdef-0123-456789abcdef");
    assert_eq!(NipartUuid::from_str(&text).unwrap(), u);
    assert_eq!(NipartUuid::from_str("not-a-uuid").unwrap_err().kind(), ErrorKind::InvalidArgument);
    assert_ne!(NipartUuid::new().as_u128(), 0);
    assert_eq!(NipartUuid::void().as_u128(), 0);
}

#[test]
fn ipc_framing() {
    let data = b"{\"kind\":\"log\"}".to_vec();
    let framed = frame_message(&data).unwrap();
    assert_eq!(&framed[..4], &[0u8, 0, 0, 14]);
    assert_eq!(&framed[4..], &data[..]);
    let size = parse_message_size([framed[0], framed[1], framed[2], framed[3]]).unwrap();
    assert_eq!(size, data.len());
    assert_eq!(parse_message_size([0, 0, 0, 0]).unwrap_err().kind(), ErrorKind::IpcFailure);
    assert_eq!(parse_message_size([0, 0xa0, 0, 0]).unwrap_err().kind(), ErrorKind::IpcMessageTooLarge);
    assert_eq!(parse_message_size([0, 0x9f, 0xff, 0xff]).unwrap(), IPC_MAX_SIZE - 1);
    let big = vec![0u8; IPC_MAX_SIZE + 1];
    assert_eq!(frame_message(&big).unwrap_err().kind(), ErrorKind::IpcMessageTooLarge);
}

#[test]
fn ipc_message_kinds() {
    assert_eq!(classify_message("error", "network_state").unwrap(), NipartMessageKind::Error);
    assert_eq!(classify_message("log", "network_state").unwrap(), NipartMessageKind::Log);
    assert_eq!(classify_message("network_state", "network_state").unwrap(), NipartMessageKind::Data);
    assert_eq!(classify_message("ping", "network_state").unwrap_err().kind(), ErrorKind::Bug);
}

#[test]
fn state_options() {
    let q = NipartstateQueryOption::saved().include_secrets(true);
    assert_eq!(q.kind, NipartstateStateKind::SavedNetworkState);
    assert!(q.include_secrets);
    assert_eq!(q.version, 1);
    assert_eq!(NipartstateQueryOption::running().kind, NipartstateStateKind::RunningNetworkState);
    let a = NipartstateApplyOption::new().skip_verify();
    assert!(a.skip_verify && !a.memory_only);
    let b = NipartstateApplyOption::new().dhcp_in_no_daemon();
    assert!(b.dhcp_in_no_daemon);
    assert!(!b.memory_only);
}

#[test]
fn dhcp_and_lock_text() {
    let v4 = NipartDhcpConfigV4::new("eth0".into(), true);
    assert_eq!(v4.timeout, 30);
    assert_eq!(v4.to_display_string(), "eth0:enabled");
    let v6 = NipartDhcpConfigV6::new("eth0".into(), false);
    assert_eq!(NipartDhcpConfig::V6(v6).to_display_string(), "dhcpv6:eth0:disable");
    assert_eq!(NipartDhcpConfig::V4(v4).to_display_string(), "dhcpv4:eth0:enabled");
    assert_eq!(NipartLockOption::new(5).to_display_string(), "lock_option.timeout:5s");
    assert_eq!(NipartEventAddress::Unicast("p1".into()).to_display_string(), "p1");
    assert_eq!(NipartEventAddress::AllPlugins.to_display_string(), "all_plugins");
    assert_eq!(NetworkCommitQueryOption::default().count, 0);
}

#[test]
fn connection_merge_sources() {
    let mut me = NipartConnection::new("a: 1".into());
    assert_eq!(me.merge_sources(&vec![]).unwrap_err().kind(), ErrorKind::Bug);
    me.name = Some("eth0".into());
    me.uuid = Some("u1".into());
    let mut other = NipartConnection::new("b: 2".into());
    other.name = Some("eth0".into());
    let srcs = me.merge_sources(&vec![other]).unwrap();
    assert_eq!(srcs, vec!["a: 1".to_string(), "b: 2".to_string()]);
    let mut wrong = NipartConnection::new("c: 3".into());
    wrong.uuid = Some("u2".into());
    assert_eq!(me.merge_sources(&vec![wrong]).unwrap_err().kind(), ErrorKind::PluginFailure);
}

#[test]
fn error_text() {
    let e = NipartError::new(ErrorKind::InvalidArgument, "bad".into());
    assert_eq!(e.to_display_string(), "invalid-argument: bad");
    assert_eq!(e.ipc_kind(), "error");
}
