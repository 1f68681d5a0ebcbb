use sysmon_companion::session::{
    refresh_interval_secs, ControlFrame, Directive, ErrorCode, HostFrame, LayerSettings, Session,
    DEFAULT_INTERVAL_SECS,
};

fn settings(interval: Option<&str>) -> LayerSettings {
    LayerSettings { refresh_interval: interval.map(|s| s.to_string()) }
}

fn init(v: u32, interval: Option<&str>) -> HostFrame {
    HostFrame::Init { v, layer_settings: settings(interval) }
}

fn update(v: u32, interval: Option<&str>) -> HostFrame {
    HostFrame::Settings { v, layer_settings: settings(interval) }
}

fn fail_of(d: &Directive) -> (ErrorCode, String) {
    match d {
        Directive::Fail { code, message } => (*code, message.clone()),
        other => panic!("expected a failure, got {:?}", other),
    }
}

#[test]
fn known_intervals() {
    assert_eq!(refresh_interval_secs(&Some("1s".to_string())), Some(1));
    assert_eq!(refresh_interval_secs(&Some("2s".to_string())), Some(2));
    assert_eq!(refresh_interval_secs(&Some("5s".to_string())), Some(5));
    assert_eq!(DEFAULT_INTERVAL_SECS, 1);
}

#[test]
fn unknown_or_missing_intervals() {
    assert_eq!(refresh_interval_secs(&Some("10s".to_string())), None);
    assert_eq!(refresh_interval_secs(&Some("5".to_string())), None);
    assert_eq!(refresh_interval_secs(&Some("".to_string())), None);
    assert_eq!(refresh_interval_secs(&None), None);
}

#[test]
fn full_lifecycle() {
    let mut s = Session::new();
    let d = s.handle(&init(4, Some("2s")));
    assert!(matches!(d, Directive::Start { interval_secs: 2 }));
    assert!(matches!(d.reply(), Some(ControlFrame::Ready { v: 4 })));
    assert_eq!(s, Session { initialized: true, ended: false });

    let d = s.handle(&update(4, Some("5s")));
    assert!(matches!(d, Directive::Reconfigure { interval_secs: 5 }));
    assert!(d.reply().is_none());

    let d = s.handle(&HostFrame::Message { v: 4 });
    assert!(matches!(d, Directive::Continue));
    assert!(d.reply().is_none());

    let d = s.handle(&HostFrame::Shutdown { v: 4 });
    assert!(matches!(d, Directive::Shutdown));
    assert!(d.reply().is_none());
    assert_eq!(s, Session { initialized: true, ended: true });
}

#[test]
fn wrong_version_fails_with_its_number() {
    let mut s = Session::new();
    let d = s.handle(&HostFrame::Message { v: 3 });
    assert_eq!(fail_of(&d), (ErrorCode::ProtocolVersion, "unsupported protocol version 3".to_string()));
    assert!(s.ended);
    match d.reply() {
        Some(ControlFrame::Error { v, message, code }) => {
            assert_eq!(v, 4);
            assert_eq!(message, "unsupported protocol version 3");
            assert_eq!(code.text(), "protocol-version");
        }
        other => panic!("unexpected reply {:?}", other),
    }
}

#[test]
fn wrong_version_after_init() {
    let mut s = Session::new();
    s.handle(&init(4, Some("1s")));
    let d = s.handle(&update(12, Some("1s")));
    assert_eq!(fail_of(&d), (ErrorCode::ProtocolVersion, "unsupported protocol version 12".to_string()));
    assert!(s.ended);
}

#[test]
fn second_init_is_a_lifecycle_error() {
    let mut s = Session::new();
    assert!(matches!(s.handle(&init(4, Some("1s"))), Directive::Start { interval_secs: 1 }));
    let d = s.handle(&init(4, Some("1s")));
    assert_eq!(fail_of(&d), (ErrorCode::ProtocolState, "invalid companion lifecycle frame".to_string()));
    assert_eq!(ErrorCode::ProtocolState.text(), "protocol-state");
    assert!(s.ended);
}

#[test]
fn frames_before_init_are_lifecycle_errors() {
    let mut s = Session::new();
    let d = s.handle(&update(4, Some("1s")));
    assert_eq!(fail_of(&d).0, ErrorCode::ProtocolState);
    assert_eq!(s, Session { initialized: false, ended: true });

    let mut s = Session::new();
    let d = s.handle(&HostFrame::Message { v: 4 });
    assert_eq!(fail_of(&d).0, ErrorCode::ProtocolState);
}

#[test]
fn shutdown_before_init_ends_quietly() {
    let mut s = Session::new();
    let d = s.handle(&HostFrame::Shutdown { v: 4 });
    assert!(matches!(d, Directive::Shutdown));
    assert_eq!(s, Session { initialized: false, ended: true });
}

#[test]
fn invalid_interval_fails_the_session() {
    let mut s = Session::new();
    let d = s.handle(&init(4, Some("3s")));
    assert_eq!(fail_of(&d), (ErrorCode::SettingsInvalid, "refreshInterval must be 1s, 2s or 5s".to_string()));
    assert_eq!(ErrorCode::SettingsInvalid.text(), "settings-invalid");
    assert_eq!(s, Session { initialized: false, ended: true });

    let mut s = Session::new();
    let d = s.handle(&init(4, None));
    assert_eq!(fail_of(&d).0, ErrorCode::SettingsInvalid);

    let mut s = Session::new();
    s.handle(&init(4, Some("5s")));
    let d = s.handle(&update(4, None));
    assert_eq!(fail_of(&d).0, ErrorCode::SettingsInvalid);
    assert!(s.ended);
}

#[test]
fn versions_of_each_frame_kind() {
    assert_eq!(init(3, None).version(), 3);
    assert_eq!(update(2, None).version(), 2);
    assert_eq!(HostFrame::Message { v: 9 }.version(), 9);
    assert_eq!(HostFrame::Shutdown { v: 4 }.version(), 4);
}

#[test]
fn version_one_is_refused() {
    let mut s = Session::new();
    let d = s.handle(&init(1, Some("1s")));
    assert_eq!(fail_of(&d), (ErrorCode::ProtocolVersion, "unsupported protocol version 1".to_string()));
    assert_eq!(s, Session { initialized: false, ended: true });
}
