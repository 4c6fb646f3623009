use penbridge::bridge::BridgeState;
use penbridge::text::{accent_color_hex, push_decimal, server_url};

#[test]
fn toggles_return_new_value_and_flip_back() {
    let mut st = BridgeState::new("10.0.0.1".to_string(), 30012);
    assert!(!st.toggle_himetric());
    assert!(!st.himetric);
    assert!(st.toggle_himetric());
    assert!(!st.toggle_touch());
    assert!(!st.touch_input);
    assert!(st.toggle_touch());
    assert!(!st.toggle_auto_fullscreen());
    assert!(st.toggle_auto_fullscreen());
    assert!(st.toggle_y_scaling());
    assert!(st.y_scaling());
    assert!(!st.toggle_y_scaling());
    assert!(st.needs_auth && st.himetric && st.touch_input && st.auto_fullscreen);
}

#[test]
fn settings_snapshot() {
    let mut st = BridgeState::new("10.0.0.1".to_string(), 30012);
    st.toggle_himetric();
    st.toggle_y_scaling();
    let s = st.get_settings("1920x1080 @ 100% scale".to_string());
    assert!(s.needs_auth);
    assert!(!s.himetric);
    assert!(s.touch_input);
    assert!(s.auto_fullscreen);
    assert!(s.y_scaling);
    assert_eq!(s.monitor_name, "1920x1080 @ 100% scale");
}

#[test]
fn address_change_rebuilds_url() {
    let mut st = BridgeState::new("10.0.0.1".to_string(), 8080);
    st.update_ip("172.16.0.9".to_string());
    assert_eq!(st.server_info.ip, "172.16.0.9");
    assert_eq!(st.server_info.port, 8080);
    assert_eq!(st.server_info.url, "http://172.16.0.9:8080");
}

#[test]
fn url_formatting() {
    assert_eq!(server_url("127.0.0.1", 0), "http://127.0.0.1:0");
    assert_eq!(server_url("host", 65535), "http://host:65535");
    assert_eq!(server_url("a", 30012), format!("http://{}:{}", "a", 30012));
}

#[test]
fn decimal_formatting() {
    for n in [0u32, 7, 10, 99, 1111, 9999, 30012, u32::MAX] {
        let mut s = String::from("n=");
        push_decimal(&mut s, n);
        assert_eq!(s, format!("n={}", n));
    }
}

#[test]
fn accent_color() {
    assert_eq!(accent_color_hex(0x00ccbbaa), "#aabbcc");
    assert_eq!(accent_color_hex(0xff123456), "#563412");
    assert_eq!(accent_color_hex(0), "#000000");
    let c: u32 = 0xc40078d7;
    let expected = format!(
        "#{:02x}{:02x}{:02x}",
        (c & 0xFF) as u8,
        ((c >> 8) & 0xFF) as u8,
        ((c >> 16) & 0xFF) as u8
    );
    assert_eq!(accent_color_hex(c), expected);
}
