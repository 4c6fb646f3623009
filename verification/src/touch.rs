//! Touch contacts that are currently down, and the frames that report them.

use std::collections::HashMap;
use vstd::prelude::*;
use vstd::std_specs::iter::IteratorSpec;

verus! {

broadcast use vstd::std_specs::hash::group_hash_axioms;

/// A finger that is down: where it was last seen, and whether it is the
/// primary contact (the first finger of a gesture).
#[derive(Clone, Copy, Debug, PartialEq, Eq, Structural)]
pub struct ActiveTouch {
    pub x: i32,
    pub y: i32,
    pub is_primary: bool,
}

/// What happened to the contact that a frame is sent for.
#[derive(Clone, Copy, Debug, PartialEq, Eq, Structural)]
pub enum TouchPhase {
    Down,
    Up,
    Contact,
}

/// One contact of a touch frame as it is handed to the injection API.
#[derive(Clone, Copy, Debug, PartialEq, Eq, Structural)]
pub struct FrameContact {
    pub id: u32,
    pub x: i32,
    pub y: i32,
    pub phase: TouchPhase,
    pub himetric: bool,
    pub is_primary: bool,
}

/// The frame entry for contact `id` when `changed` moved to `phase`: the
/// changed contact carries that phase, every other one is still in contact.
pub open spec fn frame_entry(
    id: u32,
    touch: ActiveTouch,
    changed: u32,
    phase: TouchPhase,
    himetric: bool,
) -> FrameContact {
    FrameContact {
        id,
        x: touch.x,
        y: touch.y,
        phase: if id == changed { phase } else { TouchPhase::Contact },
        himetric,
        is_primary: touch.is_primary,
    }
}

/// `frame` reports every contact of `contacts` exactly once, in some order,
/// each as `frame_entry` says.
pub open spec fn is_frame_of(
    frame: Seq<FrameContact>,
    contacts: Map<u32, ActiveTouch>,
    changed: u32,
    phase: TouchPhase,
    himetric: bool,
) -> bool {
    &&& frame.len() == contacts.dom().len()
    &&& forall|i: int|
        0 <= i < frame.len() ==> contacts.contains_key(#[trigger] frame[i].id) && frame[i]
            == frame_entry(frame[i].id, contacts[frame[i].id], changed, phase, himetric)
    &&& forall|i: int, j: int|
        0 <= i < j < frame.len() ==> #[trigger] frame[i].id != #[trigger] frame[j].id
    &&& forall|id: u32|
        #[trigger] contacts.contains_key(id) ==> exists|i: int|
            0 <= i < frame.len() && #[trigger] frame[i].id == id
}

/// The contacts that are down, and the one that began the current gesture.
pub struct TouchTracker {
    contacts: HashMap<u32, ActiveTouch>,
    first_touch_id: Option<u32>,
}

impl TouchTracker {
    /// The contacts that are down, by id.
    pub closed spec fn contacts(&self) -> Map<u32, ActiveTouch> {
        self.contacts@
    }

    /// The id of the contact that began the current gesture, while it is down.
    pub closed spec fn first_touch(&self) -> Option<u32> {
        self.first_touch_id
    }

    /// A primary contact is the one recorded as the first touch, and the
    /// first touch, when recorded, is down.
    pub open spec fn wf(&self) -> bool {
        &&& forall|id: u32|
            #[trigger] self.contacts().contains_key(id) && self.contacts()[id].is_primary
                ==> self.first_touch() == Some(id)
        &&& (self.first_touch() matches Some(f) ==> self.contacts().contains_key(f))
    }

    /// No contact is down.
    pub fn new() -> (t: TouchTracker)
        ensures
            t.wf(),
            t.contacts() == Map::<u32, ActiveTouch>::empty(),
            t.first_touch() == None::<u32>,
    {
        TouchTracker { contacts: HashMap::new(), first_touch_id: None }
    }

    /// Records contact `id` as down at `(x, y)`. It is primary exactly when
    /// no other contact was down.
    pub fn press(&mut self, id: u32, x: i32, y: i32)
        requires
            old(self).wf(),
        ensures
            final(self).wf(),
            final(self).contacts() == old(self).contacts().insert(
                id,
                ActiveTouch { x, y, is_primary: old(self).contacts().is_empty() },
            ),
            final(self).first_touch() == (if old(self).contacts().is_empty() {
                Some(id)
            } else {
                old(self).first_touch()
            }),
    {
        let is_primary = self.contacts.is_empty();
        if is_primary {
            self.first_touch_id = Some(id);
        }
        self.contacts.insert(id, ActiveTouch { x, y, is_primary });
    }

    /// Moves contact `id` to `(x, y)` if it is down; nothing else changes.
    pub fn move_to(&mut self, id: u32, x: i32, y: i32)
        requires
            old(self).wf(),
        ensures
            final(self).wf(),
            final(self).contacts() == (if old(self).contacts().contains_key(id) {
                old(self).contacts().insert(
                    id,
                    ActiveTouch { x, y, is_primary: old(self).contacts()[id].is_primary },
                )
            } else {
                old(self).contacts()
            }),
            final(self).first_touch() == old(self).first_touch(),
    {
        let found = match self.contacts.get(&id) {
            Some(t) => Some(*t),
            None => None,
        };
        if let Some(t) = found {
            self.contacts.insert(id, ActiveTouch { x, y, is_primary: t.is_primary });
        }
    }

    /// Forgets contact `id`; if it began the gesture, the gesture has no first
    /// touch any more.
    pub fn lift(&mut self, id: u32)
        requires
            old(self).wf(),
        ensures
            final(self).wf(),
            final(self).contacts() == old(self).contacts().remove(id),
            final(self).first_touch() == (if old(self).first_touch() == Some(id) {
                None
            } else {
                old(self).first_touch()
            }),
    {
        self.contacts.remove(&id);
        match self.first_touch_id {
            Some(f) => {
                if f == id {
                    self.first_touch_id = None;
                }
            },
            None => {},
        }
        assert forall|k: u32|
            #[trigger] self.contacts().contains_key(k) && self.contacts()[k].is_primary implies
            self.first_touch() == Some(k) by {
            assert(old(self).contacts().contains_key(k));
        }
    }

    /// The frame that reports every contact that is down after `changed`
    /// moved to `phase`.
    pub fn frame(&self, changed: u32, phase: TouchPhase, himetric: bool) -> (frame: Vec<FrameContact>)
        ensures
            is_frame_of(frame@, self.contacts(), changed, phase, himetric),
            forall|i: int|
                0 <= i < frame.len() ==> {
                    &&& (#[trigger] frame@[i]).himetric == himetric
                    &&& frame@[i].id == changed ==> frame@[i].phase == phase
                    &&& frame@[i].id != changed ==> frame@[i].phase == TouchPhase::Contact
                    &&& self.contacts().contains_key(frame@[i].id)
                    &&& frame@[i].x == self.contacts()[frame@[i].id].x
                    &&& frame@[i].y == self.contacts()[frame@[i].id].y
                    &&& frame@[i].is_primary == self.contacts()[frame@[i].id].is_primary
                },
    {
        let mut frame: Vec<FrameContact> = Vec::new();
        let ghost pairs = vstd::std_specs::hash::spec_hash_map_iter(&self.contacts).remaining();
        for entry in it: self.contacts.iter()
            invariant
                it.seq() == pairs,
                frame.len() == it.index(),
                forall|j: int|
                    0 <= j < it.index() ==> #[trigger] frame@[j] == frame_entry(
                        *pairs[j].0,
                        *pairs[j].1,
                        changed,
                        phase,
                        himetric,
                    ),
        {
            let (id, touch) = entry;
            let id = *id;
            let contact = FrameContact {
                id,
                x: touch.x,
                y: touch.y,
                phase: if id == changed { phase } else { TouchPhase::Contact },
                himetric,
                is_primary: touch.is_primary,
            };
            frame.push(contact);
        }
        proof {
            let m = self.contacts@;
            assert(frame.len() == pairs.len());
            assert forall|i: int| 0 <= i < frame.len() implies
                m.contains_key(#[trigger] frame@[i].id) && frame@[i]
                    == frame_entry(frame@[i].id, m[frame@[i].id], changed, phase, himetric) by {
                assert(m.contains_key(*pairs[i].0) && m[*pairs[i].0] == *pairs[i].1);
            }
            assert forall|i: int, j: int| 0 <= i < j < frame.len() implies
                #[trigger] frame@[i].id != #[trigger] frame@[j].id by {
                if frame@[i].id == frame@[j].id {
                    assert(m[*pairs[i].0] == *pairs[i].1);
                    assert(m[*pairs[j].0] == *pairs[j].1);
                    assert(pairs.no_duplicates());
                    assert(pairs[i] == pairs[j]);
                }
            }
            assert forall|id: u32| #[trigger] m.contains_key(id) implies exists|i: int|
                0 <= i < frame.len() && #[trigger] frame@[i].id == id by {
                assert(pairs.contains((&id, &m[id])));
                let i = choose|i: int| 0 <= i < pairs.len() && pairs[i] == (&id, &m[id]);
                assert(frame@[i].id == id);
            }
        }
        frame
    }
}

} // verus!
