//! How a pen event and its buttons become an injected pen state.

use vstd::prelude::*;

verus! {

/// The pen event a client reports.
#[derive(Clone, Copy, Debug, PartialEq, Eq, Structural)]
pub enum PenPhase {
    Down,
    Up,
    Hover,
    Contact,
}

/// The pen's device state as the injection API knows it.
#[derive(Clone, Copy, Debug, PartialEq, Eq, Structural)]
pub enum PenMode {
    Default,
    Eraser,
    Barrel,
    Inverted,
}

/// What the injection receives for one pen event, apart from pressure and
/// tilt, which the host computes from the client's raw values.
#[derive(Clone, Copy, Debug, PartialEq, Eq, Structural)]
pub struct PenInjection {
    pub phase: PenPhase,
    pub x: i32,
    pub y: i32,
    pub mode: PenMode,
    /// Whether the second (barrel) button flag joins the pointer flags.
    pub second_button: bool,
    /// The HIMETRIC setting when the event sets it; `None` keeps the
    /// injection's default.
    pub himetric: Option<bool>,
}

/// The device state for an event: an eraser tip reads as eraser while
/// touching and as inverted while hovering; otherwise the barrel button,
/// then the plain pen. Lifting the pen always reports the plain pen.
pub open spec fn pen_mode(phase: PenPhase, erase: bool, barrel: bool) -> PenMode {
    match phase {
        PenPhase::Up => PenMode::Default,
        PenPhase::Hover => if erase {
            PenMode::Inverted
        } else if barrel {
            PenMode::Barrel
        } else {
            PenMode::Default
        },
        _ => if erase {
            PenMode::Eraser
        } else if barrel {
            PenMode::Barrel
        } else {
            PenMode::Default
        },
    }
}

/// The second button is pressed exactly when the barrel mode is chosen.
pub open spec fn pen_injection(
    phase: PenPhase,
    x: i32,
    y: i32,
    erase: bool,
    barrel: bool,
    himetric: Option<bool>,
) -> PenInjection {
    let mode = pen_mode(phase, erase, barrel);
    PenInjection { phase, x, y, mode, second_button: mode == PenMode::Barrel, himetric }
}

/// Builds the injection of a pen event at scaled coordinates `(x, y)`.
pub fn pen_event(
    phase: PenPhase,
    x: i32,
    y: i32,
    erase: bool,
    barrel: bool,
    himetric: Option<bool>,
) -> (r: PenInjection)
    ensures
        r == pen_injection(phase, x, y, erase, barrel, himetric),
        r.phase == phase && r.x == x && r.y == y && r.himetric == himetric,
        (phase == PenPhase::Down || phase == PenPhase::Contact) ==> r.mode == (if erase {
            PenMode::Eraser
        } else if barrel {
            PenMode::Barrel
        } else {
            PenMode::Default
        }),
        phase == PenPhase::Hover ==> r.mode == (if erase {
            PenMode::Inverted
        } else if barrel {
            PenMode::Barrel
        } else {
            PenMode::Default
        }),
        phase == PenPhase::Up ==> r.mode == PenMode::Default,
        phase != PenPhase::Up ==> r.second_button == (barrel && !erase),
        phase == PenPhase::Up ==> !r.second_button,
{
    let mode = match phase {
        PenPhase::Up => PenMode::Default,
        PenPhase::Hover => if erase {
            PenMode::Inverted
        } else if barrel {
            PenMode::Barrel
        } else {
            PenMode::Default
        },
        _ => if erase {
            PenMode::Eraser
        } else if barrel {
            PenMode::Barrel
        } else {
            PenMode::Default
        },
    };
    let second_button = match mode {
        PenMode::Barrel => true,
        _ => false,
    };
    PenInjection { phase, x, y, mode, second_button, himetric }
}

} // verus!
