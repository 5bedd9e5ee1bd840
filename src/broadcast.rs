use vstd::prelude::*;

use std::collections::HashSet;

use crate::directory::{without, Directory};
use crate::handle::WindowHandle;

verus! {

broadcast use vstd::std_specs::hash::group_hash_axioms;

/// The flag that a forwarded key-up carries in its message parameter: repeat count 1, with the
/// previous-state and transition bits set.
pub const KEY_UP_LPARAM: u32 = 0xC000_0001;

/// The message parameter of a forwarded key-down: repeat count 1.
pub const KEY_DOWN_LPARAM: u32 = 1;

/// The kind of a keyboard event that the observer receives.
#[derive(Clone, Copy, Debug, PartialEq, Eq, Structural)]
pub enum Transition {
    Down,
    Up,
    /// Any other kind of keyboard message; it is passed on untouched.
    Other,
}

/// A keystroke as the global keyboard observer reports it.
#[derive(Clone, Copy, Debug, PartialEq, Eq, Structural)]
pub struct KeyEvent {
    pub vk: u32,
    pub transition: Transition,
    /// The event was synthesized rather than typed.
    pub injected: bool,
}

/// The state of the global keyboard observer: the physical keys that are down.
pub struct BroadcastHook {
    pressed: HashSet<u32>,
}

/// Whether an event reaches the broadcast decision: a typed key-up, or a typed key-down of a
/// key that is not already down (an auto-repeat is dropped).
pub open spec fn reaches_broadcast(pressed: Set<u32>, ev: KeyEvent) -> bool {
    !ev.injected && match ev.transition {
        Transition::Down => !pressed.contains(ev.vk),
        Transition::Up => true,
        Transition::Other => false,
    }
}

/// The keys that are down after an event.
pub open spec fn next_pressed(pressed: Set<u32>, ev: KeyEvent) -> Set<u32> {
    if ev.injected {
        pressed
    } else {
        match ev.transition {
            Transition::Down => pressed.insert(ev.vk),
            Transition::Up => pressed.remove(ev.vk),
            Transition::Other => pressed,
        }
    }
}

/// The keys that are down after a sequence of events.
pub open spec fn pressed_after(pressed: Set<u32>, events: Seq<KeyEvent>) -> Set<u32>
    decreases events.len(),
{
    if events.len() == 0 {
        pressed
    } else {
        next_pressed(pressed_after(pressed, events.drop_last()), events.last())
    }
}

/// The windows that an event is forwarded to: when broadcast is on, the event reaches the
/// broadcast decision and the foreground window is registered, every other registered window.
pub open spec fn broadcast_targets(
    pressed: Set<u32>,
    ev: KeyEvent,
    enabled: bool,
    foreground: WindowHandle,
    registered: Set<WindowHandle>,
) -> Set<WindowHandle> {
    if enabled && reaches_broadcast(pressed, ev) && registered.contains(foreground) {
        registered.remove(foreground)
    } else {
        Set::empty()
    }
}

/// The message parameter that a forwarded event carries.
pub fn forwarded_lparam(transition: Transition) -> (r: u32)
    ensures
        r == if transition == Transition::Up {
            KEY_UP_LPARAM
        } else {
            KEY_DOWN_LPARAM
        },
{
    match transition {
        Transition::Up => KEY_UP_LPARAM,
        _ => KEY_DOWN_LPARAM,
    }
}

impl BroadcastHook {
    /// The keys that are down.
    pub closed spec fn pressed(&self) -> Set<u32> {
        self.pressed@
    }

    /// An observer that knows of no key down.
    pub fn new() -> (r: BroadcastHook)
        ensures
            r.pressed() == Set::<u32>::empty(),
    {
        BroadcastHook { pressed: HashSet::new() }
    }

    /// Whether `vk` is down.
    pub fn is_pressed(&self, vk: u32) -> (r: bool)
        ensures
            r == self.pressed().contains(vk),
    {
        self.pressed.contains(&vk)
    }

    /// Handles one keyboard event and returns the windows to forward it to, each once. The
    /// event itself always goes on to the next observer; that is the caller's part.
    pub fn on_key(
        &mut self,
        ev: KeyEvent,
        enabled: bool,
        foreground: WindowHandle,
        directory: &Directory,
    ) -> (targets: Vec<WindowHandle>)
        ensures
            final(self).pressed() == next_pressed(old(self).pressed(), ev),
            targets@.to_set() == broadcast_targets(
                old(self).pressed(),
                ev,
                enabled,
                foreground,
                directory.registered(),
            ),
            broadcast_targets(old(self).pressed(), ev, enabled, foreground, directory.registered())
                == Set::<WindowHandle>::empty() ==> targets@.len() == 0,
            !targets@.contains(foreground),
            targets@.no_duplicates(),
    {
        if ev.injected {
            return Vec::new();
        }
        let fresh = match ev.transition {
            Transition::Down => self.pressed.insert(ev.vk),
            Transition::Up => {
                self.pressed.remove(&ev.vk);
                true
            },
            Transition::Other => {
                return Vec::new();
            },
        };
        if !fresh || !enabled || !directory.is_registered(foreground) {
            return Vec::new();
        }
        let all = directory.handles();
        let skip = vec![foreground];
        assert(skip@.to_set() =~= set![foreground]);
        let targets = without(&all, &skip);
        assert(directory.registered().difference(set![foreground]) =~= directory.registered().remove(
            foreground,
        ));
        assert(!targets@.to_set().contains(foreground));
        if targets.len() > 0 {
            assert(targets@.to_set().contains(targets@[0]));
        }
        targets
    }
}

/// A synthesized key-down is never forwarded, whatever the state, the broadcast flag and the
/// foreground window.
pub proof fn lemma_injected_never_forwarded(
    pressed: Set<u32>,
    ev: KeyEvent,
    enabled: bool,
    foreground: WindowHandle,
    registered: Set<WindowHandle>,
)
    requires
        ev.injected,
    ensures
        broadcast_targets(pressed, ev, enabled, foreground, registered) == Set::<
            WindowHandle,
        >::empty(),
        next_pressed(pressed, ev) == pressed,
{
}

/// A held key is forwarded at most once per press: after a typed key-down, no further key-down
/// of the same key reaches the broadcast decision until a typed key-up of that key arrives,
/// whatever other events come between.
pub proof fn lemma_held_key_forwarded_once(
    pressed: Set<u32>,
    down: KeyEvent,
    between: Seq<KeyEvent>,
    repeat: KeyEvent,
)
    requires
        down.transition == Transition::Down,
        !down.injected,
        repeat.transition == Transition::Down,
        repeat.vk == down.vk,
        forall|i: int|
            0 <= i < between.len() ==> !((#[trigger] between[i]).transition == Transition::Up
                && !between[i].injected && between[i].vk == down.vk),
    ensures
        !reaches_broadcast(pressed_after(next_pressed(pressed, down), between), repeat),
{
    lemma_key_stays_pressed(next_pressed(pressed, down), down.vk, between);
}

proof fn lemma_key_stays_pressed(pressed: Set<u32>, vk: u32, between: Seq<KeyEvent>)
    requires
        pressed.contains(vk),
        forall|i: int|
            0 <= i < between.len() ==> !((#[trigger] between[i]).transition == Transition::Up
                && !between[i].injected && between[i].vk == vk),
    ensures
        pressed_after(pressed, between).contains(vk),
    decreases between.len(),
{
    if between.len() > 0 {
        let rest = between.drop_last();
        assert forall|i: int| 0 <= i < rest.len() implies !((#[trigger] rest[i]).transition
            == Transition::Up && !rest[i].injected && rest[i].vk == vk) by {
            assert(rest[i] == between[i]);
        }
        lemma_key_stays_pressed(pressed, vk, rest);
        assert(between.last() == between[between.len() - 1]);
    }
}

} // verus!
