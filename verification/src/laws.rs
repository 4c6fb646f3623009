//! Properties of the bridge that span several operations.

use crate::bridge::{
    admit_session, authorized, dismiss_session, moved_contacts, pin_in_range, press, release,
    switch_value, toggled, touch_consistent, with_pin, BridgeView, Switch,
};
use crate::pen::{pen_injection, PenMode, PenPhase};
use crate::text::{
    accent_text, all_digits, decimal_chars, digit_value, digits_value, hex_byte, hex_char,
    is_digit, parse_u32_text, unsigned_digits,
};
use crate::touch::{is_frame_of, ActiveTouch, FrameContact, TouchPhase};
use vstd::prelude::*;

verus! {

/// A session that has just been admitted may drive the pointer.
pub proof fn lemma_admitted_session_is_authorized(v: BridgeView, sid: Seq<char>)
    ensures
        authorized(admit_session(v, sid), sid),
{
}

/// A session that has been forgotten may drive the pointer only while
/// authentication is off.
pub proof fn lemma_dismissed_session_needs_pin(v: BridgeView, sid: Seq<char>)
    ensures
        authorized(dismiss_session(v, sid), sid) == !v.needs_auth,
{
}

/// Forgetting a session that had just been admitted restores the state.
pub proof fn lemma_dismiss_undoes_admit(v: BridgeView, sid: Seq<char>)
    requires
        !v.sessions.contains(sid),
    ensures
        dismiss_session(admit_session(v, sid), sid) == v,
{
    assert(v.sessions.insert(sid).remove(sid) =~= v.sessions);
}

/// Admitting or forgetting one session leaves every other session as it was.
pub proof fn lemma_sessions_independent(v: BridgeView, sid: Seq<char>, other: Seq<char>)
    requires
        sid != other,
    ensures
        authorized(admit_session(v, sid), other) == authorized(v, other),
        authorized(dismiss_session(v, sid), other) == authorized(v, other),
{
}

/// Putting a new PIN in force neither admits nor refuses any session.
pub proof fn lemma_new_pin_keeps_sessions(v: BridgeView, pin: u32, sid: Seq<char>)
    ensures
        authorized(with_pin(v, pin), sid) == authorized(v, sid),
        with_pin(v, pin).sessions == v.sessions,
{
}

/// Flipping a switch changes that switch and no other.
pub proof fn lemma_toggle_flips_one_switch(v: BridgeView, s: Switch, t: Switch)
    ensures
        switch_value(toggled(v, s), s) == !switch_value(v, s),
        t != s ==> switch_value(toggled(v, t), s) == switch_value(v, s),
        toggled(v, s).pin == v.pin && toggled(v, s).sessions == v.sessions,
        toggled(v, s).contacts == v.contacts && toggled(v, s).first_touch == v.first_touch,
{
}

/// Flipping a switch twice restores the state.
pub proof fn lemma_toggle_twice_restores(v: BridgeView, s: Switch)
    ensures
        toggled(toggled(v, s), s) == v,
{
}

/// Every touch step keeps the touch bookkeeping consistent.
pub proof fn lemma_touch_steps_keep_consistency(v: BridgeView, id: u32, x: i32, y: i32)
    requires
        touch_consistent(v),
    ensures
        touch_consistent(press(v, id, x, y)),
        touch_consistent(release(v, id)),
        touch_consistent(BridgeView { contacts: moved_contacts(v.contacts, id, x, y), ..v }),
{
    let p = press(v, id, x, y);
    assert forall|k: u32| #[trigger] p.contacts.contains_key(k) && p.contacts[k].is_primary implies
        p.first_touch == Some(k) by {
        if k != id {
            assert(v.contacts.contains_key(k));
        }
    }
    let r = release(v, id);
    assert forall|k: u32| #[trigger] r.contacts.contains_key(k) && r.contacts[k].is_primary implies
        r.first_touch == Some(k) by {
        assert(v.contacts.contains_key(k));
    }
    let m = BridgeView { contacts: moved_contacts(v.contacts, id, x, y), ..v };
    assert forall|k: u32| #[trigger] m.contacts.contains_key(k) && m.contacts[k].is_primary implies
        m.first_touch == Some(k) by {
        assert(v.contacts.contains_key(k));
    }
}

/// At most one contact is primary.
pub proof fn lemma_single_primary(v: BridgeView, a: u32, b: u32)
    requires
        touch_consistent(v),
        v.contacts.contains_key(a) && v.contacts[a].is_primary,
        v.contacts.contains_key(b) && v.contacts[b].is_primary,
    ensures
        a == b,
{
}

/// The first finger of a gesture is primary and begins it; a finger that
/// joins while others are down is not primary and leaves the first touch alone.
pub proof fn lemma_primary_is_first_finger(v: BridgeView, id: u32, x: i32, y: i32)
    ensures
        v.contacts.is_empty() ==> press(v, id, x, y).contacts[id].is_primary && press(
            v,
            id,
            x,
            y,
        ).first_touch == Some(id),
        !v.contacts.is_empty() ==> !press(v, id, x, y).contacts[id].is_primary && press(
            v,
            id,
            x,
            y,
        ).first_touch == v.first_touch,
{
}

/// A finger that goes down and lifts again, with no other change between,
/// leaves the touch state as it was.
pub proof fn lemma_release_undoes_press(v: BridgeView, id: u32, x: i32, y: i32)
    requires
        touch_consistent(v),
        !v.contacts.contains_key(id),
    ensures
        release(press(v, id, x, y), id) == v,
{
    let after = release(press(v, id, x, y), id);
    assert(after.contacts =~= v.contacts);
    if v.contacts.is_empty() {
        assert(v.first_touch is None);
    }
}

/// A finger that is not down lifting changes nothing.
pub proof fn lemma_release_unknown_finger(v: BridgeView, id: u32)
    requires
        touch_consistent(v),
        !v.contacts.contains_key(id),
    ensures
        release(v, id) == v,
{
    assert(v.contacts.remove(id) =~= v.contacts);
}

proof fn lemma_decimal_chars_read_back(n: nat)
    ensures
        decimal_chars(n).len() > 0,
        all_digits(decimal_chars(n)),
        digits_value(decimal_chars(n)) == n,
    decreases n,
{
    if n < 10 {
        let s = decimal_chars(n);
        assert(s.drop_last() =~= Seq::<char>::empty());
        assert(digits_value(Seq::<char>::empty()) == 0);
        assert(digit_value(hex_char(n)) == n);
        assert(digits_value(s) == digits_value(s.drop_last()) * 10 + digit_value(s.last()));
    } else {
        lemma_decimal_chars_read_back(n / 10);
        let s = decimal_chars(n);
        assert(s.drop_last() =~= decimal_chars(n / 10));
        assert(digit_value(hex_char(n % 10)) == n % 10);
        assert(is_digit(hex_char(n % 10)));
        assert(digits_value(s) == digits_value(s.drop_last()) * 10 + digit_value(s.last()));
        assert forall|i: int| 0 <= i < s.len() implies is_digit(#[trigger] s[i]) by {
            if i < s.len() - 1 {
                assert(s[i] == decimal_chars(n / 10)[i]);
            }
        }
    }
}

/// A PIN written in decimal reads back as itself.
pub proof fn lemma_pin_text_round_trip(pin: u32)
    ensures
        parse_u32_text(decimal_chars(pin as nat)) == Some(pin),
{
    let s = decimal_chars(pin as nat);
    lemma_decimal_chars_read_back(pin as nat);
    assert(is_digit(s[0]));
    assert(unsigned_digits(s) == s);
}

/// Every PIN the bridge hands out is written with four digits.
pub proof fn lemma_pin_has_four_digits(pin: u32)
    requires
        pin_in_range(pin),
    ensures
        decimal_chars(pin as nat).len() == 4,
{
    let n = pin as nat;
    assert(decimal_chars(n / 1000).len() == 1);
    assert(decimal_chars(n / 100).len() == 2) by {
        assert((n / 100) / 10 == n / 1000);
    }
    assert(decimal_chars(n / 10).len() == 3) by {
        assert((n / 10) / 10 == n / 100);
    }
}

/// When the pen touches or draws, the eraser end wins over the barrel
/// button, the barrel button over the plain tip; the second-button flag is
/// set exactly for the barrel; position, phase and HIMETRIC pass through.
pub proof fn lemma_pen_touching_modes(
    phase: PenPhase,
    x: i32,
    y: i32,
    erase: bool,
    barrel: bool,
    himetric: Option<bool>,
)
    requires
        phase == PenPhase::Down || phase == PenPhase::Contact,
    ensures
        ({
            let r = pen_injection(phase, x, y, erase, barrel, himetric);
            &&& r.phase == phase && r.x == x && r.y == y && r.himetric == himetric
            &&& erase ==> r.mode == PenMode::Eraser && !r.second_button
            &&& !erase && barrel ==> r.mode == PenMode::Barrel && r.second_button
            &&& !erase && !barrel ==> r.mode == PenMode::Default && !r.second_button
        }),
{
}

/// While hovering the eraser end reads as an inverted pen, the barrel button
/// as barrel with the second button; lifting always reports the plain pen
/// without buttons.
pub proof fn lemma_pen_hover_and_lift_modes(
    x: i32,
    y: i32,
    erase: bool,
    barrel: bool,
    himetric: Option<bool>,
)
    ensures
        ({
            let r = pen_injection(PenPhase::Hover, x, y, erase, barrel, himetric);
            &&& erase ==> r.mode == PenMode::Inverted && !r.second_button
            &&& !erase && barrel ==> r.mode == PenMode::Barrel && r.second_button
            &&& !erase && !barrel ==> r.mode == PenMode::Default && !r.second_button
        }),
        ({
            let r = pen_injection(PenPhase::Up, x, y, erase, barrel, himetric);
            r.mode == PenMode::Default && !r.second_button && r.x == x && r.y == y
        }),
{
}

/// In every touch frame, the changed contact carries the event's phase, every
/// other contact is reported as still in contact, each entry has the position
/// and role that contact has, and every entry carries the HIMETRIC setting.
pub proof fn lemma_touch_frame_entries(
    frame: Seq<FrameContact>,
    contacts: Map<u32, ActiveTouch>,
    changed: u32,
    phase: TouchPhase,
    himetric: bool,
    i: int,
)
    requires
        is_frame_of(frame, contacts, changed, phase, himetric),
        0 <= i < frame.len(),
    ensures
        frame[i].himetric == himetric,
        frame[i].id == changed ==> frame[i].phase == phase,
        frame[i].id != changed ==> frame[i].phase == TouchPhase::Contact,
        contacts.contains_key(frame[i].id),
        frame[i].x == contacts[frame[i].id].x,
        frame[i].y == contacts[frame[i].id].y,
        frame[i].is_primary == contacts[frame[i].id].is_primary,
{
}

/// The value of a lower-case hexadecimal digit, or -1 for any other character.
pub open spec fn hex_digit_value(c: char) -> int {
    if '0' <= c && c <= '9' {
        (c as int) - ('0' as int)
    } else if 'a' <= c && c <= 'f' {
        (c as int) - ('a' as int) + 10
    } else {
        -1
    }
}

/// The digit written for nibble `d` is the `d`-th of `0123456789abcdef`, and
/// reads back as `d`.
pub proof fn lemma_hex_digit_reads_back(d: nat)
    requires
        d < 16,
    ensures
        hex_char(d) == seq!['0', '1', '2', '3', '4', '5', '6', '7', '8', '9', 'a', 'b', 'c', 'd', 'e', 'f'][d as int],
        hex_digit_value(hex_char(d)) == d,
{
}

/// Different nibbles are written with different digits.
pub proof fn lemma_hex_digit_injective(d1: nat, d2: nat)
    requires
        d1 < 16,
        d2 < 16,
        d1 != d2,
    ensures
        hex_char(d1) != hex_char(d2),
{
    lemma_hex_digit_reads_back(d1);
    lemma_hex_digit_reads_back(d2);
}

/// Two hexadecimal digits written for a byte read back as that byte.
pub proof fn lemma_hex_byte_reads_back(b: nat)
    requires
        b < 256,
    ensures
        hex_byte(b).len() == 2,
        16 * hex_digit_value(hex_byte(b)[0]) + hex_digit_value(hex_byte(b)[1]) == b,
{
    lemma_hex_digit_reads_back((b / 16) % 16);
    lemma_hex_digit_reads_back(b % 16);
}

/// The accent text is `#` and three byte pairs that read back as the red,
/// green and blue bytes of the colorization value (its lowest, second and
/// third byte).
pub proof fn lemma_accent_text_reads_back(color: u32)
    ensures
        accent_text(color).len() == 7,
        accent_text(color)[0] == '#',
        16 * hex_digit_value(accent_text(color)[1]) + hex_digit_value(accent_text(color)[2])
            == (color as nat) % 256,
        16 * hex_digit_value(accent_text(color)[3]) + hex_digit_value(accent_text(color)[4])
            == ((color as nat) / 256) % 256,
        16 * hex_digit_value(accent_text(color)[5]) + hex_digit_value(accent_text(color)[6])
            == ((color as nat) / 65536) % 256,
{
    let c = color as nat;
    lemma_hex_byte_reads_back(c % 256);
    lemma_hex_byte_reads_back((c / 256) % 256);
    lemma_hex_byte_reads_back((c / 65536) % 256);
    let t = accent_text(color);
    let r = hex_byte(c % 256);
    let g = hex_byte((c / 256) % 256);
    let b = hex_byte((c / 65536) % 256);
    assert(t == seq!['#'] + r + g + b);
    assert(t[1] == r[0] && t[2] == r[1]);
    assert(t[3] == g[0] && t[4] == g[1]);
    assert(t[5] == b[0] && t[6] == b[1]);
}

} // verus!
