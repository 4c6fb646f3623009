//! The bridge's shared state: settings, the pairing PIN, admitted sessions
//! and the touch contacts that are down, with the decisions taken on each
//! client event.

use crate::pen::{pen_event, pen_injection, PenInjection, PenPhase};
use crate::sessions::SessionSet;
use crate::text::{parse_u32, parse_u32_text, server_url, url_text};
use crate::touch::{is_frame_of, ActiveTouch, FrameContact, TouchPhase, TouchTracker};
use vstd::prelude::*;

verus! {

/// The smallest PIN the bridge hands out.
pub const PIN_MIN: u32 = 1111;

/// The largest PIN the bridge hands out.
pub const PIN_MAX: u32 = 9999;

/// `rand::random_range` over `low..=high`, drawn from rand's thread-local
/// generator. The contract claims only that the draw lies in the range; which
/// value comes is chance. rand panics on an empty range, which `requires`
/// rules out; it also panics if the operating system cannot seed the
/// generator, which no clause can rule out.
#[verifier::external_body]
fn random_in_range(low: u32, high: u32) -> (r: u32)
    requires
        low <= high,
    ensures
        low <= r <= high,
{
    rand::random_range(low..=high)
}

/// Where the bridge can be reached.
#[derive(Clone, Debug)]
pub struct ServerInfo {
    pub ip: String,
    pub port: u16,
    pub url: String,
}

/// The settings a client or the settings window shows.
#[derive(Clone, Debug)]
pub struct Settings {
    pub needs_auth: bool,
    pub himetric: bool,
    pub touch_input: bool,
    pub auto_fullscreen: bool,
    pub y_scaling: bool,
    pub monitor_name: String,
}

/// What a client is told after asking whether it is admitted or sending a PIN.
#[derive(Clone, Copy, Debug, PartialEq, Eq, Structural)]
pub enum AuthReply {
    Authenticated,
    /// The client must enter a PIN; `pin` is the one now in force, for the
    /// host to show.
    NeedsAuthentication { pin: u32 },
}

/// A PIN as a client sent it: a JSON string, a non-negative JSON integer, or
/// anything else.
#[derive(Clone, Debug)]
pub enum PinInput {
    Text(String),
    Number(u64),
    Other,
}

/// The PIN a client meant: a string is read as `str::parse::<u32>` reads it, an
/// integer keeps its low 32 bits, anything else is no PIN.
pub open spec fn client_pin(input: PinInput) -> Option<u32> {
    match input {
        PinInput::Text(s) => parse_u32_text(s@),
        PinInput::Number(n) => Some(n as u32),
        PinInput::Other => None,
    }
}

/// Reads the PIN a client sent.
pub fn parse_client_pin(input: &PinInput) -> (r: Option<u32>)
    ensures
        r == client_pin(*input),
{
    match input {
        PinInput::Text(s) => parse_u32(s.as_str()),
        PinInput::Number(n) => Some(*n as u32),
        PinInput::Other => None,
    }
}

/// The touch id a client event carries: its low 32 bits, or 0 when absent.
pub fn event_touch_id(raw: Option<u64>) -> (id: u32)
    ensures
        id == (match raw {
            Some(n) => n as u32,
            None => 0u32,
        }),
{
    match raw {
        Some(n) => n as u32,
        None => 0,
    }
}

/// The state shared by the web server, the settings window and the timers.
pub struct BridgeState {
    pub needs_auth: bool,
    pub himetric: bool,
    pub touch_input: bool,
    pub auto_fullscreen: bool,
    authenticated: SessionSet,
    pub pin: Option<u32>,
    y_scaling: bool,
    touch: TouchTracker,
    pub server_info: ServerInfo,
}

/// Whether `pin` is a PIN the bridge could have handed out.
pub open spec fn pin_in_range(pin: u32) -> bool {
    PIN_MIN <= pin <= PIN_MAX
}

/// The bridge's state as the contracts speak of it.
#[verifier::ext_equal]
pub struct BridgeView {
    pub needs_auth: bool,
    pub himetric: bool,
    pub touch_input: bool,
    pub auto_fullscreen: bool,
    pub y_scaling: bool,
    pub pin: Option<u32>,
    /// The sessions admitted with the PIN.
    pub sessions: Set<Seq<char>>,
    /// The touch contacts that are down.
    pub contacts: Map<u32, ActiveTouch>,
    /// The contact that began the current gesture, while it is down.
    pub first_touch: Option<u32>,
    pub ip: Seq<char>,
    pub port: u16,
    pub url: Seq<char>,
}

impl View for BridgeState {
    type V = BridgeView;

    closed spec fn view(&self) -> BridgeView {
        BridgeView {
            needs_auth: self.needs_auth,
            himetric: self.himetric,
            touch_input: self.touch_input,
            auto_fullscreen: self.auto_fullscreen,
            y_scaling: self.y_scaling,
            pin: self.pin,
            sessions: self.authenticated@,
            contacts: self.touch.contacts(),
            first_touch: self.touch.first_touch(),
            ip: self.server_info.ip@,
            port: self.server_info.port,
            url: self.server_info.url@,
        }
    }
}

/// Whether session `sid` may drive the pointer.
pub open spec fn authorized(v: BridgeView, sid: Seq<char>) -> bool {
    !v.needs_auth || v.sessions.contains(sid)
}

/// `v` with session `sid` admitted.
pub open spec fn admit_session(v: BridgeView, sid: Seq<char>) -> BridgeView {
    BridgeView { sessions: v.sessions.insert(sid), ..v }
}

/// `v` with session `sid` forgotten.
pub open spec fn dismiss_session(v: BridgeView, sid: Seq<char>) -> BridgeView {
    BridgeView { sessions: v.sessions.remove(sid), ..v }
}

/// `v` with `pin` in force.
pub open spec fn with_pin(v: BridgeView, pin: u32) -> BridgeView {
    BridgeView { pin: Some(pin), ..v }
}

/// The settings that can be switched on and off.
#[derive(Clone, Copy, Debug, PartialEq, Eq, Structural)]
pub enum Switch {
    Auth,
    Himetric,
    TouchInput,
    AutoFullscreen,
    YScaling,
}

/// The value of switch `s` in `v`.
pub open spec fn switch_value(v: BridgeView, s: Switch) -> bool {
    match s {
        Switch::Auth => v.needs_auth,
        Switch::Himetric => v.himetric,
        Switch::TouchInput => v.touch_input,
        Switch::AutoFullscreen => v.auto_fullscreen,
        Switch::YScaling => v.y_scaling,
    }
}

/// `v` with switch `s` flipped and nothing else changed.
pub open spec fn toggled(v: BridgeView, s: Switch) -> BridgeView {
    match s {
        Switch::Auth => BridgeView { needs_auth: !v.needs_auth, ..v },
        Switch::Himetric => BridgeView { himetric: !v.himetric, ..v },
        Switch::TouchInput => BridgeView { touch_input: !v.touch_input, ..v },
        Switch::AutoFullscreen => BridgeView { auto_fullscreen: !v.auto_fullscreen, ..v },
        Switch::YScaling => BridgeView { y_scaling: !v.y_scaling, ..v },
    }
}

/// The contacts after finger `id` is seen at `(x, y)`: a finger that is down
/// moves and keeps its role; an unknown finger changes nothing.
pub open spec fn moved_contacts(contacts: Map<u32, ActiveTouch>, id: u32, x: i32, y: i32) -> Map<
    u32,
    ActiveTouch,
> {
    if contacts.contains_key(id) {
        contacts.insert(id, ActiveTouch { x, y, is_primary: contacts[id].is_primary })
    } else {
        contacts
    }
}

/// `v` after finger `id` goes down at `(x, y)`: it is primary, and begins
/// the gesture, exactly when no other finger is down.
pub open spec fn press(v: BridgeView, id: u32, x: i32, y: i32) -> BridgeView {
    let primary = v.contacts.is_empty();
    BridgeView {
        contacts: v.contacts.insert(id, ActiveTouch { x, y, is_primary: primary }),
        first_touch: if primary { Some(id) } else { v.first_touch },
        ..v
    }
}

/// `v` after finger `id` lifts: it is forgotten, and if it began the gesture
/// the gesture has no first touch any more.
pub open spec fn release(v: BridgeView, id: u32) -> BridgeView {
    BridgeView {
        contacts: v.contacts.remove(id),
        first_touch: if v.first_touch == Some(id) { None } else { v.first_touch },
        ..v
    }
}

/// The touch bookkeeping is consistent: a primary contact is the gesture's
/// first touch, and the first touch, when recorded, is down.
pub open spec fn touch_consistent(v: BridgeView) -> bool {
    &&& forall|id: u32|
        #[trigger] v.contacts.contains_key(id) && v.contacts[id].is_primary ==> v.first_touch
            == Some(id)
    &&& (v.first_touch matches Some(f) ==> v.contacts.contains_key(f))
}

impl BridgeState {
    /// The inner invariants: each session is held once, and the touch
    /// bookkeeping is consistent.
    pub closed spec fn wf(&self) -> bool {
        self.authenticated.wf() && self.touch.wf()
    }

    /// A well-formed bridge keeps its touch bookkeeping consistent.
    pub proof fn lemma_wf_touch_consistent(&self)
        requires
            self.wf(),
        ensures
            touch_consistent(self@),
    {
    }

    /// A fresh bridge serving at `ip:port`: authentication, HIMETRIC units,
    /// touch input and automatic full screen on, vertical scaling off, no
    /// session admitted, no contact down, and a freshly drawn PIN.
    pub fn new(ip: String, port: u16) -> (s: BridgeState)
        ensures
            s.wf(),
            s@.pin matches Some(p) && pin_in_range(p),
            s@ == (BridgeView {
                needs_auth: true,
                himetric: true,
                touch_input: true,
                auto_fullscreen: true,
                y_scaling: false,
                pin: s@.pin,
                sessions: Set::empty(),
                contacts: Map::empty(),
                first_touch: None,
                ip: ip@,
                port,
                url: url_text(ip@, port as nat),
            }),
    {
        let url = server_url(ip.as_str(), port);
        let pin = Some(random_in_range(PIN_MIN, PIN_MAX));
        BridgeState {
            needs_auth: true,
            himetric: true,
            touch_input: true,
            auto_fullscreen: true,
            authenticated: SessionSet::new(),
            pin,
            y_scaling: false,
            touch: TouchTracker::new(),
            server_info: ServerInfo { ip, port, url },
        }
    }

    /// Whether session `sid` may drive the pointer: always while
    /// authentication is off, otherwise once it has been admitted.
    pub fn is_authenticated(&self, sid: &str) -> (r: bool)
        ensures
            r == authorized(self@, sid@),
    {
        !self.needs_auth || self.authenticated.contains(sid)
    }

    /// Admits session `sid`.
    pub fn add_authenticated(&mut self, sid: &str)
        requires
            old(self).wf(),
        ensures
            final(self).wf(),
            final(self)@ == admit_session(old(self)@, sid@),
    {
        self.authenticated.insert(sid);
    }

    /// Forgets session `sid`, as when it disconnects.
    pub fn remove_authenticated(&mut self, sid: &str)
        requires
            old(self).wf(),
        ensures
            final(self).wf(),
            final(self)@ == dismiss_session(old(self)@, sid@),
    {
        self.authenticated.remove(sid);
    }

    /// Draws a new PIN and puts it in force.
    pub fn generate_pin(&mut self) -> (pin: u32)
        requires
            old(self).wf(),
        ensures
            final(self).wf(),
            pin_in_range(pin),
            final(self)@ == with_pin(old(self)@, pin),
    {
        let pin = random_in_range(PIN_MIN, PIN_MAX);
        self.pin = Some(pin);
        pin
    }

    /// The periodic PIN rotation: while authentication is on, a new PIN is
    /// drawn and returned; otherwise nothing changes.
    pub fn rotate_pin(&mut self) -> (r: Option<u32>)
        requires
            old(self).wf(),
        ensures
            final(self).wf(),
            old(self)@.needs_auth ==> (r matches Some(p) && pin_in_range(p) && final(self)@ == with_pin(old(self)@, p)),
            !old(self)@.needs_auth ==> r == None::<u32> && final(self)@ == old(self)@,
    {
        if self.needs_auth {
            Some(self.generate_pin())
        } else {
            None
        }
    }

    /// A client asks whether it must authenticate. With authentication off it
    /// is admitted; otherwise it is asked for the PIN, and a PIN is drawn if
    /// none is in force.
    pub fn check_authentication(&mut self) -> (r: AuthReply)
        requires
            old(self).wf(),
        ensures
            final(self).wf(),
            !old(self)@.needs_auth ==> r == AuthReply::Authenticated && final(self)@ == old(
                self,
            )@,
            old(self)@.needs_auth ==> match old(self)@.pin {
                Some(p) => r == (AuthReply::NeedsAuthentication { pin: p }) && final(self)@ == old(
                    self,
                )@,
                None => r matches AuthReply::NeedsAuthentication { pin } && pin_in_range(pin)
                    && final(self)@ == with_pin(old(self)@, pin),
            },
    {
        if !self.needs_auth {
            AuthReply::Authenticated
        } else {
            let pin = match self.pin {
                Some(p) => p,
                None => self.generate_pin(),
            };
            AuthReply::NeedsAuthentication { pin }
        }
    }

    /// Session `sid` sends a PIN. The PIN in force admits it; anything else
    /// (no PIN read, or a wrong one) draws a new PIN and asks again.
    pub fn authenticate(&mut self, sid: &str, client_pin: Option<u32>) -> (r: AuthReply)
        requires
            old(self).wf(),
        ensures
            final(self).wf(),
            (client_pin is Some && client_pin == old(self)@.pin) ==> r == AuthReply::Authenticated
                && final(self)@ == admit_session(old(self)@, sid@),
            !(client_pin is Some && client_pin == old(self)@.pin) ==> (r matches AuthReply::NeedsAuthentication { pin }
                && pin_in_range(pin) && final(self)@ == with_pin(old(self)@, pin)),
    {
        let matches = match (client_pin, self.pin) {
            (Some(cp), Some(sp)) => cp == sp,
            _ => false,
        };
        if matches {
            self.add_authenticated(sid);
            AuthReply::Authenticated
        } else {
            let pin = self.generate_pin();
            AuthReply::NeedsAuthentication { pin }
        }
    }

    /// Turns authentication on or off; returns the new setting.
    pub fn toggle_auth(&mut self) -> (r: bool)
        requires
            old(self).wf(),
        ensures
            final(self).wf(),
            r == !old(self)@.needs_auth,
            final(self)@ == toggled(old(self)@, Switch::Auth),
    {
        self.needs_auth = !self.needs_auth;
        self.needs_auth
    }

    /// Turns HIMETRIC coordinates on or off; returns the new setting.
    pub fn toggle_himetric(&mut self) -> (r: bool)
        requires
            old(self).wf(),
        ensures
            final(self).wf(),
            r == !old(self)@.himetric,
            final(self)@ == toggled(old(self)@, Switch::Himetric),
    {
        self.himetric = !self.himetric;
        self.himetric
    }

    /// Turns touch input on or off; returns the new setting.
    pub fn toggle_touch(&mut self) -> (r: bool)
        requires
            old(self).wf(),
        ensures
            final(self).wf(),
            r == !old(self)@.touch_input,
            final(self)@ == toggled(old(self)@, Switch::TouchInput),
    {
        self.touch_input = !self.touch_input;
        self.touch_input
    }

    /// Turns automatic full screen on or off; returns the new setting.
    pub fn toggle_auto_fullscreen(&mut self) -> (r: bool)
        requires
            old(self).wf(),
        ensures
            final(self).wf(),
            r == !old(self)@.auto_fullscreen,
            final(self)@ == toggled(old(self)@, Switch::AutoFullscreen),
    {
        self.auto_fullscreen = !self.auto_fullscreen;
        self.auto_fullscreen
    }

    /// Turns separate vertical scaling on or off; returns the new setting.
    pub fn toggle_y_scaling(&mut self) -> (r: bool)
        requires
            old(self).wf(),
        ensures
            final(self).wf(),
            r == !old(self)@.y_scaling,
            final(self)@ == toggled(old(self)@, Switch::YScaling),
    {
        self.y_scaling = !self.y_scaling;
        self.y_scaling
    }

    /// Whether vertical coordinates use their own factor.
    pub fn y_scaling(&self) -> (r: bool)
        ensures
            r == self@.y_scaling,
    {
        self.y_scaling
    }

    /// The settings as shown, with `monitor_name` describing the monitor in use.
    pub fn get_settings(&self, monitor_name: String) -> (s: Settings)
        ensures
            s.needs_auth == self@.needs_auth,
            s.himetric == self@.himetric,
            s.touch_input == self@.touch_input,
            s.auto_fullscreen == self@.auto_fullscreen,
            s.y_scaling == self@.y_scaling,
            s.monitor_name@ == monitor_name@,
    {
        Settings {
            needs_auth: self.needs_auth,
            himetric: self.himetric,
            touch_input: self.touch_input,
            auto_fullscreen: self.auto_fullscreen,
            y_scaling: self.y_scaling,
            monitor_name,
        }
    }

    /// The machine's address changed: serve at `ip` on the same port.
    pub fn update_ip(&mut self, ip: String)
        requires
            old(self).wf(),
        ensures
            final(self).wf(),
            final(self)@ == (BridgeView {
                ip: ip@,
                url: url_text(ip@, old(self)@.port as nat),
                ..old(self)@
            }),
    {
        let url = server_url(ip.as_str(), self.server_info.port);
        self.server_info.ip = ip;
        self.server_info.url = url;
    }

    /// The pen touches down at scaled `(x, y)`.
    pub fn inject_pen_down(&self, x: i32, y: i32, erase: bool, barrel: bool) -> (r: PenInjection)
        ensures
            r == pen_injection(PenPhase::Down, x, y, erase, barrel, None),
    {
        pen_event(PenPhase::Down, x, y, erase, barrel, None)
    }

    /// The pen lifts at scaled `(x, y)`.
    pub fn inject_pen_up(&self, x: i32, y: i32) -> (r: PenInjection)
        ensures
            r == pen_injection(PenPhase::Up, x, y, false, false, None),
    {
        pen_event(PenPhase::Up, x, y, false, false, None)
    }

    /// The pen hovers at scaled `(x, y)`.
    pub fn inject_pen_hover(&self, x: i32, y: i32, erase: bool, barrel: bool) -> (r: PenInjection)
        ensures
            r == pen_injection(PenPhase::Hover, x, y, erase, barrel, None),
    {
        pen_event(PenPhase::Hover, x, y, erase, barrel, None)
    }

    /// The pen moves while touching, at scaled `(x, y)`; this event carries
    /// the HIMETRIC setting.
    pub fn inject_pen_contact(&self, x: i32, y: i32, erase: bool, barrel: bool) -> (r: PenInjection)
        ensures
            r == pen_injection(PenPhase::Contact, x, y, erase, barrel, Some(self@.himetric)),
    {
        pen_event(PenPhase::Contact, x, y, erase, barrel, Some(self.himetric))
    }

    /// The frame reporting every contact after `changed` moved to `phase`;
    /// `None` when no contact is down.
    fn touch_frame(&self, changed: u32, phase: TouchPhase) -> (r: Option<Vec<FrameContact>>)
        ensures
            self@.contacts.is_empty() ==> r is None,
            !self@.contacts.is_empty() ==> (r matches Some(f) && is_frame_of(
                f@,
                self@.contacts,
                changed,
                phase,
                self@.himetric,
            )),
    {
        let frame = self.touch.frame(changed, phase, self.himetric);
        if frame.len() == 0 {
            proof {
                assert(self@.contacts.dom().len() == 0);
                assert(self@.contacts.dom() =~= Set::<u32>::empty());
            }
            None
        } else {
            Some(frame)
        }
    }

    /// Finger `id` touches down at scaled `(x, y)`. With touch input off
    /// nothing happens. Otherwise the contact is recorded, primary exactly
    /// when no other finger is down, and the frame of all contacts is returned
    /// with this one going down.
    pub fn inject_touch_down(&mut self, id: u32, x: i32, y: i32) -> (r: Option<Vec<FrameContact>>)
        requires
            old(self).wf(),
        ensures
            final(self).wf(),
            !old(self)@.touch_input ==> r is None && final(self)@ == old(self)@,
            old(self)@.touch_input ==> {
                &&& final(self)@ == press(old(self)@, id, x, y)
                &&& r matches Some(f) && is_frame_of(
                    f@,
                    final(self)@.contacts,
                    id,
                    TouchPhase::Down,
                    old(self)@.himetric,
                )
            },
    {
        if !self.touch_input {
            return None;
        }
        self.touch.press(id, x, y);
        self.touch_frame(id, TouchPhase::Down)
    }

    /// Finger `id` lifts at scaled `(x, y)`, whether or not touch input is on.
    /// Its last position is recorded, the frame of all contacts is returned
    /// with this one going up (`None` if no contact is down), and then it is
    /// forgotten; if it began the gesture, the gesture has no first touch any more.
    pub fn inject_touch_up(&mut self, id: u32, x: i32, y: i32) -> (r: Option<Vec<FrameContact>>)
        requires
            old(self).wf(),
        ensures
            final(self).wf(),
            final(self)@ == release(old(self)@, id),
            ({
                let moved = moved_contacts(old(self)@.contacts, id, x, y);
                &&& moved.is_empty() ==> r is None
                &&& !moved.is_empty() ==> (r matches Some(f) && is_frame_of(
                    f@,
                    moved,
                    id,
                    TouchPhase::Up,
                    old(self)@.himetric,
                ))
            }),
    {
        self.touch.move_to(id, x, y);
        let frame = self.touch_frame(id, TouchPhase::Up);
        self.touch.lift(id);
        proof {
            if old(self)@.contacts.contains_key(id) {
                assert(self@.contacts =~= old(self)@.contacts.remove(id));
            }
        }
        frame
    }

    /// Finger `id` moves to scaled `(x, y)`. With touch input off nothing
    /// happens. Otherwise its position is recorded if it is down, and the
    /// frame of all contacts is returned (`None` if no contact is down).
    pub fn inject_touch_contact(&mut self, id: u32, x: i32, y: i32) -> (r: Option<
        Vec<FrameContact>,
    >)
        requires
            old(self).wf(),
        ensures
            final(self).wf(),
            !old(self)@.touch_input ==> r is None && final(self)@ == old(self)@,
            old(self)@.touch_input ==> {
                let moved = moved_contacts(old(self)@.contacts, id, x, y);
                &&& final(self)@ == (BridgeView { contacts: moved, ..old(self)@ })
                &&& moved.is_empty() ==> r is None
                &&& !moved.is_empty() ==> (r matches Some(f) && is_frame_of(
                    f@,
                    moved,
                    id,
                    TouchPhase::Contact,
                    old(self)@.himetric,
                ))
            },
    {
        if !self.touch_input {
            return None;
        }
        self.touch.move_to(id, x, y);
        self.touch_frame(id, TouchPhase::Contact)
    }
}

} // verus!
