//! Push-to-talk edge detection: the watcher turns modifier-flag changes into
//! press and release events.

use vstd::prelude::*;

verus! {

/// A change of the push-to-talk key.
#[derive(Clone, Copy, Debug, PartialEq, Eq, Structural)]
pub enum HotkeyEvent {
    Pressed,
    Released,
}

/// The watcher's next state (whether the key counts as held) and the event it
/// emits when the key is observed `now_down` while it counted as `was_pressed`.
pub open spec fn spec_transition(was_pressed: bool, now_down: bool) -> (bool, Option<HotkeyEvent>) {
    if now_down && !was_pressed {
        (true, Some(HotkeyEvent::Pressed))
    } else if !now_down && was_pressed {
        (false, Some(HotkeyEvent::Released))
    } else {
        (was_pressed, None)
    }
}

/// One observation of the modifier flags: a press is reported when the key
/// goes down, a release when it comes up, nothing otherwise.
pub fn transition(was_pressed: bool, now_down: bool) -> (r: (bool, Option<HotkeyEvent>))
    ensures
        r == spec_transition(was_pressed, now_down),
        r.0 == now_down,
{
    if now_down && !was_pressed {
        (true, Some(HotkeyEvent::Pressed))
    } else if !now_down && was_pressed {
        (false, Some(HotkeyEvent::Released))
    } else {
        (was_pressed, None)
    }
}

/// The watcher's state after a series of observations.
pub open spec fn state_after(start: bool, obs: Seq<bool>) -> bool
    decreases obs.len(),
{
    if obs.len() == 0 {
        start
    } else {
        spec_transition(state_after(start, obs.drop_last()), obs.last()).0
    }
}

/// The events emitted over a series of observations.
pub open spec fn events_after(start: bool, obs: Seq<bool>) -> Seq<HotkeyEvent>
    decreases obs.len(),
{
    if obs.len() == 0 {
        seq![]
    } else {
        let before = events_after(start, obs.drop_last());
        match spec_transition(state_after(start, obs.drop_last()), obs.last()).1 {
            Some(e) => before.push(e),
            None => before,
        }
    }
}

/// Presses and releases alternate, starting with a press.
pub open spec fn alternates_from_press(evs: Seq<HotkeyEvent>) -> bool {
    forall|i: int|
        0 <= i < evs.len() ==> #[trigger] evs[i] == if i % 2 == 0 {
            HotkeyEvent::Pressed
        } else {
            HotkeyEvent::Released
        }
}

/// From a released key, whatever flags are observed, the watcher emits
/// presses and releases alternately, starting with a press, and it ends up
/// holding the key exactly when an odd number of events was emitted.
pub proof fn lemma_events_alternate(obs: Seq<bool>)
    ensures
        alternates_from_press(events_after(false, obs)),
        state_after(false, obs) == (events_after(false, obs).len() % 2 == 1),
    decreases obs.len(),
{
    if obs.len() > 0 {
        lemma_events_alternate(obs.drop_last());
        let before = events_after(false, obs.drop_last());
        assert forall|i: int| 0 <= i < events_after(false, obs).len() implies #[trigger] events_after(
            false,
            obs,
        )[i] == if i % 2 == 0 {
            HotkeyEvent::Pressed
        } else {
            HotkeyEvent::Released
        } by {
            if i < before.len() {
                assert(events_after(false, obs)[i] == before[i]);
            }
        }
    }
}

} // verus!
