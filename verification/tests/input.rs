use penbridge::bridge::BridgeState;
use penbridge::pen::{PenInjection, PenMode, PenPhase};
use penbridge::touch::{FrameContact, TouchPhase};

fn sorted(mut f: Vec<FrameContact>) -> Vec<FrameContact> {
    f.sort_by_key(|c| c.id);
    f
}

fn contact(id: u32, x: i32, y: i32, phase: TouchPhase, primary: bool) -> FrameContact {
    FrameContact { id, x, y, phase, himetric: true, is_primary: primary }
}

#[test]
fn first_finger_is_primary() {
    let mut st = BridgeState::new("10.0.0.1".to_string(), 30012);
    let f = st.inject_touch_down(3, 10, 20).unwrap();
    assert_eq!(f, vec![contact(3, 10, 20, TouchPhase::Down, true)]);
}

#[test]
fn second_finger_joins_frame() {
    let mut st = BridgeState::new("10.0.0.1".to_string(), 30012);
    st.inject_touch_down(1, 10, 20);
    let f = sorted(st.inject_touch_down(2, 30, 40).unwrap());
    assert_eq!(
        f,
        vec![
            contact(1, 10, 20, TouchPhase::Contact, true),
            contact(2, 30, 40, TouchPhase::Down, false),
        ]
    );
    let f = sorted(st.inject_touch_contact(1, 11, 21).unwrap());
    assert_eq!(
        f,
        vec![
            contact(1, 11, 21, TouchPhase::Contact, true),
            contact(2, 30, 40, TouchPhase::Contact, false),
        ]
    );
}

#[test]
fn lifting_reports_up_then_forgets() {
    let mut st = BridgeState::new("10.0.0.1".to_string(), 30012);
    st.inject_touch_down(1, 10, 20);
    st.inject_touch_down(2, 30, 40);
    let f = sorted(st.inject_touch_up(1, 12, 22).unwrap());
    assert_eq!(
        f,
        vec![
            contact(1, 12, 22, TouchPhase::Up, true),
            contact(2, 30, 40, TouchPhase::Contact, false),
        ]
    );
    let f = st.inject_touch_contact(2, 31, 41).unwrap();
    assert_eq!(f, vec![contact(2, 31, 41, TouchPhase::Contact, false)]);
    let f = st.inject_touch_up(2, 31, 41).unwrap();
    assert_eq!(f, vec![contact(2, 31, 41, TouchPhase::Up, false)]);
    assert_eq!(st.inject_touch_up(2, 0, 0), None);
    assert_eq!(st.inject_touch_contact(2, 0, 0), None);
    let f = st.inject_touch_down(5, 1, 1).unwrap();
    assert_eq!(f, vec![contact(5, 1, 1, TouchPhase::Down, true)]);
}

#[test]
fn unknown_finger_moving_reports_others() {
    let mut st = BridgeState::new("10.0.0.1".to_string(), 30012);
    st.inject_touch_down(1, 10, 20);
    let f = st.inject_touch_contact(9, 0, 0).unwrap();
    assert_eq!(f, vec![contact(1, 10, 20, TouchPhase::Contact, true)]);
    let f = st.inject_touch_up(9, 0, 0).unwrap();
    assert_eq!(f, vec![contact(1, 10, 20, TouchPhase::Contact, true)]);
}

#[test]
fn touch_input_off_ignores_down_and_move_but_not_up() {
    let mut st = BridgeState::new("10.0.0.1".to_string(), 30012);
    st.inject_touch_down(1, 10, 20);
    assert!(!st.toggle_touch());
    assert_eq!(st.inject_touch_down(2, 5, 5), None);
    assert_eq!(st.inject_touch_contact(1, 50, 50), None);
    let f = st.inject_touch_up(1, 12, 22).unwrap();
    assert_eq!(f, vec![contact(1, 12, 22, TouchPhase::Up, true)]);
    assert_eq!(st.inject_touch_up(1, 12, 22), None);
}

#[test]
fn same_finger_down_twice_loses_primary() {
    let mut st = BridgeState::new("10.0.0.1".to_string(), 30012);
    st.inject_touch_down(1, 10, 20);
    let f = st.inject_touch_down(1, 15, 25).unwrap();
    assert_eq!(f, vec![contact(1, 15, 25, TouchPhase::Down, false)]);
}

#[test]
fn frame_carries_himetric_setting() {
    let mut st = BridgeState::new("10.0.0.1".to_string(), 30012);
    st.toggle_himetric();
    let f = st.inject_touch_down(4, 1, 2).unwrap();
    assert!(!f[0].himetric);
}

fn pen(phase: PenPhase, mode: PenMode, second: bool, himetric: Option<bool>) -> PenInjection {
    PenInjection { phase, x: 5, y: 6, mode, second_button: second, himetric }
}

#[test]
fn pen_modes() {
    let st = BridgeState::new("10.0.0.1".to_string(), 30012);
    assert_eq!(st.inject_pen_down(5, 6, false, false), pen(PenPhase::Down, PenMode::Default, false, None));
    assert_eq!(st.inject_pen_down(5, 6, true, true), pen(PenPhase::Down, PenMode::Eraser, false, None));
    assert_eq!(st.inject_pen_down(5, 6, false, true), pen(PenPhase::Down, PenMode::Barrel, true, None));
    assert_eq!(st.inject_pen_hover(5, 6, true, false), pen(PenPhase::Hover, PenMode::Inverted, false, None));
    assert_eq!(st.inject_pen_hover(5, 6, false, true), pen(PenPhase::Hover, PenMode::Barrel, true, None));
    assert_eq!(st.inject_pen_hover(5, 6, false, false), pen(PenPhase::Hover, PenMode::Default, false, None));
    assert_eq!(st.inject_pen_up(5, 6), pen(PenPhase::Up, PenMode::Default, false, None));
    assert_eq!(
        st.inject_pen_contact(5, 6, true, false),
        pen(PenPhase::Contact, PenMode::Eraser, false, Some(true))
    );
    assert_eq!(
        st.inject_pen_contact(5, 6, false, true),
        pen(PenPhase::Contact, PenMode::Barrel, true, Some(true))
    );
}
