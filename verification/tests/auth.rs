use penbridge::bridge::{
    event_touch_id, parse_client_pin, AuthReply, BridgeState, PinInput, PIN_MAX, PIN_MIN,
};

fn in_range(p: u32) -> bool {
    (PIN_MIN..=PIN_MAX).contains(&p)
}

#[test]
fn new_bridge_defaults() {
    let st = BridgeState::new("192.168.1.5".to_string(), 30012);
    assert!(st.needs_auth);
    assert!(st.himetric);
    assert!(st.touch_input);
    assert!(st.auto_fullscreen);
    assert!(!st.y_scaling());
    assert!(in_range(st.pin.unwrap()));
    assert_eq!(st.server_info.ip, "192.168.1.5");
    assert_eq!(st.server_info.port, 30012);
    assert_eq!(st.server_info.url, "http://192.168.1.5:30012");
}

#[test]
fn unknown_session_is_refused_while_auth_is_on() {
    let st = BridgeState::new("10.0.0.1".to_string(), 30012);
    assert!(!st.is_authenticated("abc"));
}

#[test]
fn any_session_is_accepted_while_auth_is_off() {
    let mut st = BridgeState::new("10.0.0.1".to_string(), 30012);
    assert!(!st.toggle_auth());
    assert!(st.is_authenticated("abc"));
    assert!(st.toggle_auth());
    assert!(!st.is_authenticated("abc"));
}

#[test]
fn admitted_session_then_removed() {
    let mut st = BridgeState::new("10.0.0.1".to_string(), 30012);
    st.add_authenticated("s1");
    assert!(st.is_authenticated("s1"));
    assert!(!st.is_authenticated("s2"));
    st.add_authenticated("s1");
    st.add_authenticated("s2");
    st.remove_authenticated("s1");
    assert!(!st.is_authenticated("s1"));
    assert!(st.is_authenticated("s2"));
    st.remove_authenticated("missing");
    assert!(st.is_authenticated("s2"));
}

#[test]
fn generated_pin_is_in_force_and_in_range() {
    let mut st = BridgeState::new("10.0.0.1".to_string(), 30012);
    for _ in 0..200 {
        let p = st.generate_pin();
        assert!(in_range(p));
        assert_eq!(st.pin, Some(p));
        assert_eq!(p.to_string().len(), 4);
    }
}

#[test]
fn check_authentication_replies() {
    let mut st = BridgeState::new("10.0.0.1".to_string(), 30012);
    st.pin = Some(4321);
    assert_eq!(st.check_authentication(), AuthReply::NeedsAuthentication { pin: 4321 });
    assert_eq!(st.pin, Some(4321));
    st.pin = None;
    match st.check_authentication() {
        AuthReply::NeedsAuthentication { pin } => {
            assert!(in_range(pin));
            assert_eq!(st.pin, Some(pin));
        }
        AuthReply::Authenticated => panic!("authentication is on"),
    }
    st.toggle_auth();
    st.pin = None;
    assert_eq!(st.check_authentication(), AuthReply::Authenticated);
    assert_eq!(st.pin, None);
}

#[test]
fn right_pin_admits() {
    let mut st = BridgeState::new("10.0.0.1".to_string(), 30012);
    st.pin = Some(2468);
    assert_eq!(st.authenticate("sid-a", Some(2468)), AuthReply::Authenticated);
    assert!(st.is_authenticated("sid-a"));
    assert_eq!(st.pin, Some(2468));
}

#[test]
fn wrong_pin_rotates_and_refuses() {
    let mut st = BridgeState::new("10.0.0.1".to_string(), 30012);
    st.pin = Some(2468);
    match st.authenticate("sid-a", Some(1357)) {
        AuthReply::NeedsAuthentication { pin } => {
            assert!(in_range(pin));
            assert_eq!(st.pin, Some(pin));
        }
        AuthReply::Authenticated => panic!("wrong PIN admitted"),
    }
    assert!(!st.is_authenticated("sid-a"));
    match st.authenticate("sid-b", None) {
        AuthReply::NeedsAuthentication { .. } => {}
        AuthReply::Authenticated => panic!("missing PIN admitted"),
    }
    assert!(!st.is_authenticated("sid-b"));
}

#[test]
fn no_pin_in_force_refuses_everything() {
    let mut st = BridgeState::new("10.0.0.1".to_string(), 30012);
    st.pin = None;
    assert!(matches!(
        st.authenticate("sid-a", Some(1111)),
        AuthReply::NeedsAuthentication { .. }
    ));
    assert!(!st.is_authenticated("sid-a"));
    assert!(st.pin.is_some());
}

#[test]
fn rotation_only_while_auth_is_on() {
    let mut st = BridgeState::new("10.0.0.1".to_string(), 30012);
    let p = st.rotate_pin().unwrap();
    assert!(in_range(p));
    assert_eq!(st.pin, Some(p));
    st.toggle_auth();
    st.pin = Some(5555);
    assert_eq!(st.rotate_pin(), None);
    assert_eq!(st.pin, Some(5555));
}

#[test]
fn client_pin_from_text() {
    let t = |s: &str| parse_client_pin(&PinInput::Text(s.to_string()));
    assert_eq!(t("1234"), Some(1234));
    assert_eq!(t("0042"), Some(42));
    assert_eq!(t("+42"), Some(42));
    assert_eq!(t("4294967295"), Some(u32::MAX));
    assert_eq!(t("4294967296"), None);
    assert_eq!(t("99999999999999999999"), None);
    assert_eq!(t(""), None);
    assert_eq!(t("+"), None);
    assert_eq!(t("-1"), None);
    assert_eq!(t("12a"), None);
    assert_eq!(t(" 12"), None);
    assert_eq!(t("++1"), None);
    assert_eq!(t("١٢"), None);
    for s in ["7", "1234", "+9", "00", "4294967295", "x", "-0", ""] {
        assert_eq!(t(s), s.parse::<u32>().ok());
    }
}

#[test]
fn client_pin_from_number_and_other() {
    assert_eq!(parse_client_pin(&PinInput::Number(9876)), Some(9876));
    assert_eq!(parse_client_pin(&PinInput::Number((1u64 << 32) + 5)), Some(5));
    assert_eq!(parse_client_pin(&PinInput::Other), None);
}

#[test]
fn touch_id_from_event() {
    assert_eq!(event_touch_id(Some(7)), 7);
    assert_eq!(event_touch_id(None), 0);
    assert_eq!(event_touch_id(Some((1u64 << 32) + 3)), 3);
}

#[test]
fn drawn_pins_vary() {
    let mut st = BridgeState::new("10.0.0.1".to_string(), 30012);
    let first = st.generate_pin();
    let mut differs = false;
    for _ in 0..100 {
        if st.generate_pin() != first {
            differs = true;
        }
    }
    assert!(differs);
}

#[test]
fn shown_pin_reads_back() {
    let mut st = BridgeState::new("10.0.0.1".to_string(), 30012);
    for _ in 0..50 {
        let p = st.generate_pin();
        let mut shown = String::new();
        penbridge::text::push_decimal(&mut shown, p);
        assert_eq!(shown.len(), 4);
        assert_eq!(parse_client_pin(&PinInput::Text(shown)), Some(p));
        assert_eq!(st.authenticate("typed", Some(p)), AuthReply::Authenticated);
        assert!(st.is_authenticated("typed"));
        st.remove_authenticated("typed");
        assert!(!st.is_authenticated("typed"));
    }
}

#[test]
fn new_pin_keeps_admitted_sessions() {
    let mut st = BridgeState::new("10.0.0.1".to_string(), 30012);
    st.add_authenticated("kept");
    st.generate_pin();
    assert!(st.is_authenticated("kept"));
    let _ = st.authenticate("other", None);
    assert!(st.is_authenticated("kept"));
    assert!(!st.is_authenticated("other"));
}
