use omb_core::broadcast::{forwarded_lparam, BroadcastHook, KeyEvent, Transition, KEY_UP_LPARAM};
use omb_core::directory::Directory;
use omb_core::handle::WindowHandle;
use omb_core::input::{Key, KeyStroke};
use omb_core::protocol::{encode, SENTINEL_COLOR};
use omb_core::worker::{apply_toggle, PollAction, Worker};

fn utf16(s: &str) -> Vec<u16> {
    s.encode_utf16().collect()
}

fn command(toggle: u8, selector: u8, key: u8) -> Option<(u32, u32)> {
    Some((SENTINEL_COLOR, encode(toggle, selector, key)))
}

/// Polls once and returns the swap request and the strokes.
fn step(
    w: &mut Worker,
    broadcast: &mut bool,
    capture: Option<(u32, u32)>,
    now_ms: u64,
) -> (Option<u8>, Vec<KeyStroke>) {
    match w.poll(broadcast, true, capture, now_ms) {
        PollAction::Proceed { swap_with, strokes } => (swap_with, strokes),
        PollAction::Terminate => panic!("a live window terminated"),
    }
}

fn event(vk: u32, transition: Transition, injected: bool) -> KeyEvent {
    KeyEvent { vk, transition, injected }
}

#[test]
fn worker_starts_from_title() {
    let w = Worker::new(&utf16("OMB 4\0"));
    assert_eq!(w.slot, Some(4));
    assert!(w.keys_enabled);
    assert_eq!(w.last_swap_ms, None);
    assert_eq!(w.idle_polls, 0);
    assert_eq!(Worker::new(&utf16("World of Warcraft")).slot, None);
}

#[test]
fn disable_toggle_is_edge_triggered() {
    let mut keys = true;
    let mut broadcast = false;
    assert!(apply_toggle(&mut keys, &mut broadcast, 1));
    assert!(!keys);
    assert!(!apply_toggle(&mut keys, &mut broadcast, 1));
    assert!(!keys);
    assert!(apply_toggle(&mut keys, &mut broadcast, 2));
    assert!(keys);
    assert!(apply_toggle(&mut keys, &mut broadcast, 1));
    assert!(!keys);
    assert!(!broadcast);
}

#[test]
fn broadcast_toggle_is_edge_triggered() {
    let mut keys = true;
    let mut broadcast = false;
    assert!(apply_toggle(&mut keys, &mut broadcast, 3));
    assert!(broadcast);
    assert!(!apply_toggle(&mut keys, &mut broadcast, 3));
    assert!(apply_toggle(&mut keys, &mut broadcast, 4));
    assert!(!broadcast);
    assert!(!apply_toggle(&mut keys, &mut broadcast, 4));
    assert!(!apply_toggle(&mut keys, &mut broadcast, 0));
    assert!(!apply_toggle(&mut keys, &mut broadcast, 9));
    assert!(keys);
}

#[test]
fn poll_applies_toggles_to_worker_and_flag() {
    let mut w = Worker::new(&utf16("OMB 1"));
    let mut broadcast = false;
    step(&mut w, &mut broadcast, command(1, 0, 0), 0);
    assert!(!w.keys_enabled);
    step(&mut w, &mut broadcast, command(1, 0, 0), 15);
    assert!(!w.keys_enabled);
    step(&mut w, &mut broadcast, command(2, 0, 0), 30);
    assert!(w.keys_enabled);
    step(&mut w, &mut broadcast, command(3, 0, 0), 45);
    assert!(broadcast);
    step(&mut w, &mut broadcast, command(4, 0, 0), 60);
    assert!(!broadcast);
}

#[test]
fn poll_of_dead_window_terminates() {
    let mut w = Worker::new(&utf16("OMB 1"));
    let mut broadcast = true;
    let before = w;
    assert!(matches!(w.poll(&mut broadcast, false, command(4, 0, 1), 0), PollAction::Terminate));
    assert_eq!(w, before);
    assert!(broadcast);
}

#[test]
fn poll_without_sentinel_does_nothing() {
    let mut w = Worker::new(&utf16("OMB 1"));
    let mut broadcast = false;
    let (swap, strokes) = step(&mut w, &mut broadcast, Some((0x123456, encode(3, 0, 1))), 0);
    assert_eq!(swap, None);
    assert!(strokes.is_empty());
    assert!(!broadcast);
    assert_eq!(w.idle_polls, 1);
    let (swap, strokes) = step(&mut w, &mut broadcast, None, 15);
    assert_eq!(swap, None);
    assert!(strokes.is_empty());
    assert_eq!(w.idle_polls, 2);
}

#[test]
fn swap_requests_within_a_second_are_debounced() {
    let mut w = Worker::new(&utf16("OMB 1"));
    let mut broadcast = false;
    let (first, _) = step(&mut w, &mut broadcast, command(6, 0, 0), 5000);
    assert_eq!(first, Some(2));
    let (second, _) = step(&mut w, &mut broadcast, command(6, 0, 0), 5999);
    assert_eq!(second, None);
    let (third, _) = step(&mut w, &mut broadcast, command(7, 0, 0), 6000);
    assert_eq!(third, Some(3));
    assert_eq!(w.last_swap_ms, Some(6000));
}

#[test]
fn first_swap_request_is_accepted() {
    let mut w = Worker::new(&utf16("OMB 2"));
    let mut broadcast = false;
    let (swap, _) = step(&mut w, &mut broadcast, command(5, 0, 0), 0);
    assert_eq!(swap, Some(1));
}

#[test]
fn key_dispatch_waits_for_idle_polls() {
    let mut w = Worker::new(&utf16("OMB 1"));
    let mut broadcast = false;
    for t in 0..5u64 {
        let (_, strokes) = step(&mut w, &mut broadcast, command(0, 0, 1), t * 15);
        assert!(strokes.is_empty());
    }
    assert_eq!(w.idle_polls, 5);
    let (_, strokes) = step(&mut w, &mut broadcast, command(0, 6, 2), 75);
    assert_eq!(
        strokes,
        vec![
            KeyStroke { key: Key::LeftControl, down: true },
            KeyStroke { key: Key::Numpad(1), down: true },
            KeyStroke { key: Key::Numpad(1), down: false },
            KeyStroke { key: Key::LeftControl, down: false },
            KeyStroke { key: Key::Function(2), down: true },
            KeyStroke { key: Key::Function(2), down: false },
        ]
    );
    assert_eq!(w.idle_polls, 0);
    let (_, strokes) = step(&mut w, &mut broadcast, command(0, 6, 2), 90);
    assert!(strokes.is_empty());
}

#[test]
fn no_dispatch_while_keys_disabled_or_unmapped() {
    let mut w = Worker::new(&utf16("OMB 1"));
    w.idle_polls = 10;
    let mut broadcast = false;
    let (_, strokes) = step(&mut w, &mut broadcast, command(1, 0, 1), 0);
    assert!(strokes.is_empty());
    let (_, strokes) = step(&mut w, &mut broadcast, command(2, 0, 0), 15);
    assert!(strokes.is_empty());
    let (_, strokes) = step(&mut w, &mut broadcast, command(0, 41, 1), 30);
    assert!(strokes.is_empty());
    let (_, strokes) = step(&mut w, &mut broadcast, command(0, 0, 1), 45);
    assert_eq!(
        strokes,
        vec![
            KeyStroke { key: Key::Function(1), down: true },
            KeyStroke { key: Key::Function(1), down: false },
        ]
    );
}

#[test]
fn injected_key_is_never_forwarded() {
    let mut d = Directory::new();
    let a = WindowHandle::new(1);
    let b = WindowHandle::new(2);
    d.try_register(a);
    d.try_register(b);
    let mut hook = BroadcastHook::new();
    assert!(hook.on_key(event(0x41, Transition::Down, true), true, a, &d).is_empty());
    assert!(!hook.is_pressed(0x41));
    assert_eq!(hook.on_key(event(0x41, Transition::Down, false), true, a, &d), vec![b]);
}

#[test]
fn held_key_is_forwarded_once_per_press() {
    let mut d = Directory::new();
    let a = WindowHandle::new(1);
    let b = WindowHandle::new(2);
    let c = WindowHandle::new(3);
    d.try_register(a);
    d.try_register(b);
    d.try_register(c);
    let mut hook = BroadcastHook::new();
    let mut first = hook.on_key(event(0x57, Transition::Down, false), true, b, &d);
    first.sort_by_key(|h| h.id);
    assert_eq!(first, vec![a, c]);
    assert!(hook.on_key(event(0x57, Transition::Down, false), true, b, &d).is_empty());
    assert!(hook.on_key(event(0x41, Transition::Up, false), true, b, &d).len() == 2);
    assert!(hook.on_key(event(0x57, Transition::Down, false), true, b, &d).is_empty());
    assert_eq!(hook.on_key(event(0x57, Transition::Up, false), true, b, &d).len(), 2);
    assert!(!hook.is_pressed(0x57));
    assert_eq!(hook.on_key(event(0x57, Transition::Down, false), true, b, &d).len(), 2);
}

#[test]
fn no_broadcast_when_disabled_or_foreground_unregistered() {
    let mut d = Directory::new();
    let a = WindowHandle::new(1);
    let b = WindowHandle::new(2);
    d.try_register(a);
    d.try_register(b);
    let mut hook = BroadcastHook::new();
    assert!(hook.on_key(event(0x41, Transition::Down, false), false, a, &d).is_empty());
    assert!(hook.is_pressed(0x41));
    assert!(hook.on_key(event(0x42, Transition::Down, false), true, WindowHandle::new(9), &d).is_empty());
    assert!(hook.on_key(event(0x43, Transition::Other, false), true, a, &d).is_empty());
    assert!(!hook.is_pressed(0x43));
    assert_eq!(hook.on_key(event(0x41, Transition::Up, false), true, a, &d), vec![b]);
}

#[test]
fn forwarded_key_up_carries_transition_flags() {
    assert_eq!(forwarded_lparam(Transition::Up), KEY_UP_LPARAM);
    assert_eq!(forwarded_lparam(Transition::Up), 0xC000_0001);
    assert_eq!(forwarded_lparam(Transition::Down), 1);
}
