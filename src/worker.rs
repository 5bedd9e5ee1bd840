use vstd::prelude::*;

use crate::input::{
    action_key, key_pulse, spec_action_key, spec_key_pulse, spec_target_combo, target_combo,
    KeyStroke, MAX_TARGET_SELECTOR,
};
use crate::protocol::{decode, spec_decode, spec_toggle, toggle_of, Command, Toggle};
use crate::title::{parse_slot_title, slot_of_title};

verus! {

/// A swap request is ignored while the window's last accepted one is younger than this.
pub const SWAP_DEBOUNCE_MS: u64 = 1000;

/// The number of polls that must pass after a key dispatch before the next one.
pub const MIN_IDLE_POLLS: u64 = 5;

/// The state that one window's worker keeps between polls.
#[derive(Clone, Copy, Debug, PartialEq, Eq, Structural)]
pub struct Worker {
    /// The slot that the window's title named when the worker started.
    pub slot: Option<usize>,
    pub keys_enabled: bool,
    /// When the last swap request was accepted, in milliseconds of a monotonic clock.
    pub last_swap_ms: Option<u64>,
    /// Polls since the last key dispatch.
    pub idle_polls: u64,
}

/// What the caller does after a poll.
#[derive(Clone, Debug)]
pub enum PollAction {
    /// The window is gone: release the capture resources and the slot, and stop.
    Terminate,
    /// Exchange geometry with the window in slot `swap_with` if there is one, post `strokes`
    /// to the window in order, then sleep and poll again.
    Proceed { swap_with: Option<u8>, strokes: Vec<KeyStroke> },
}

/// The effect of a toggle code on key forwarding and on the broadcast flag: each toggle acts
/// only where it changes the current value.
pub open spec fn spec_apply_toggle(keys_enabled: bool, broadcast: bool, code: u8) -> (bool, bool) {
    let keys = if code == 1 {
        false
    } else if code == 2 {
        true
    } else {
        keys_enabled
    };
    let b = if code == 3 {
        true
    } else if code == 4 {
        false
    } else {
        broadcast
    };
    (keys, b)
}

pub open spec fn swap_due(last_swap_ms: Option<u64>, now_ms: u64) -> bool {
    match last_swap_ms {
        None => true,
        Some(last) => now_ms as int - last as int >= SWAP_DEBOUNCE_MS as int,
    }
}

/// The command that a poll acts on: present while the window lives, the capture succeeded and
/// the sentinel pixel holds the sentinel colour.
pub open spec fn live_command(alive: bool, capture: Option<(u32, u32)>) -> Option<Command> {
    match capture {
        Some((sentinel, pixel)) => if alive && spec_decode(sentinel, pixel).sentinel_ok {
            Some(spec_decode(sentinel, pixel))
        } else {
            None
        },
        None => None,
    }
}

/// The slot that a poll asks to swap with.
pub open spec fn spec_swap_request(w: Worker, cmd: Command, now_ms: u64) -> Option<u8> {
    match spec_toggle(cmd.toggle_code) {
        Toggle::Swap(target) => if swap_due(w.last_swap_ms, now_ms) {
            Some(target)
        } else {
            None
        },
        _ => None,
    }
}

/// Whether a poll dispatches keys: forwarding is on after the toggle, enough polls have passed
/// since the last dispatch, the action key is configured and the selector is in range.
pub open spec fn dispatch_due(w: Worker, broadcast: bool, cmd: Command) -> bool {
    &&& spec_apply_toggle(w.keys_enabled, broadcast, cmd.toggle_code).0
    &&& w.idle_polls >= MIN_IDLE_POLLS
    &&& spec_action_key(cmd.action_key) is Some
    &&& cmd.target_selector <= MAX_TARGET_SELECTOR
}

/// The strokes of a dispatch: the target combination, then a pulse of the action key.
pub open spec fn spec_dispatch(cmd: Command) -> Seq<KeyStroke> {
    spec_target_combo(cmd.target_selector) + spec_key_pulse(
        spec_action_key(cmd.action_key)->Some_0,
    )
}

pub open spec fn next_idle(n: u64) -> u64 {
    if n == u64::MAX {
        n
    } else {
        (n + 1) as u64
    }
}

/// The worker's state after a poll; a poll of a dead window leaves it as it was.
pub open spec fn spec_next_worker(
    w: Worker,
    broadcast: bool,
    alive: bool,
    capture: Option<(u32, u32)>,
    now_ms: u64,
) -> Worker {
    if !alive {
        w
    } else {
        match live_command(alive, capture) {
            None => Worker { idle_polls: next_idle(w.idle_polls), ..w },
            Some(cmd) => Worker {
                slot: w.slot,
                keys_enabled: spec_apply_toggle(w.keys_enabled, broadcast, cmd.toggle_code).0,
                last_swap_ms: if spec_swap_request(w, cmd, now_ms) is Some {
                    Some(now_ms)
                } else {
                    w.last_swap_ms
                },
                idle_polls: if dispatch_due(w, broadcast, cmd) {
                    0
                } else {
                    next_idle(w.idle_polls)
                },
            },
        }
    }
}

/// The broadcast flag after a poll.
pub open spec fn spec_next_broadcast(
    w: Worker,
    broadcast: bool,
    alive: bool,
    capture: Option<(u32, u32)>,
) -> bool {
    match live_command(alive, capture) {
        None => broadcast,
        Some(cmd) => spec_apply_toggle(w.keys_enabled, broadcast, cmd.toggle_code).1,
    }
}

/// Applies a toggle code to the window's key forwarding and to the broadcast flag, and tells
/// whether it changed either of them.
pub fn apply_toggle(keys_enabled: &mut bool, broadcast: &mut bool, code: u8) -> (acted: bool)
    ensures
        (*final(keys_enabled), *final(broadcast)) == spec_apply_toggle(
            *old(keys_enabled),
            *old(broadcast),
            code,
        ),
        acted == (*final(keys_enabled) != *old(keys_enabled) || *final(broadcast)
            != *old(broadcast)),
{
    let mut acted = false;
    if code == 1 && *keys_enabled {
        *keys_enabled = false;
        acted = true;
    } else if code == 2 && !*keys_enabled {
        *keys_enabled = true;
        acted = true;
    }
    if code == 3 && !*broadcast {
        *broadcast = true;
        acted = true;
    } else if code == 4 && *broadcast {
        *broadcast = false;
        acted = true;
    }
    acted
}

impl Worker {
    /// A worker for a window whose title is `title`, with key forwarding on and no swap yet.
    pub fn new(title: &Vec<u16>) -> (r: Worker)
        ensures
            r.slot == slot_of_title(title@),
            r.keys_enabled,
            r.last_swap_ms is None,
            r.idle_polls == 0,
    {
        Worker { slot: parse_slot_title(title), keys_enabled: true, last_swap_ms: None, idle_polls: 0 }
    }

    /// One poll of the window. `alive` tells whether the handle is still a live window,
    /// `capture` holds the sentinel and command pixels when the capture succeeded, and `now_ms`
    /// reads a monotonic clock. The broadcast flag is shared by all workers.
    pub fn poll(
        &mut self,
        broadcast: &mut bool,
        alive: bool,
        capture: Option<(u32, u32)>,
        now_ms: u64,
    ) -> (r: PollAction)
        ensures
            *final(self) == spec_next_worker(*old(self), *old(broadcast), alive, capture, now_ms),
            *final(broadcast) == spec_next_broadcast(*old(self), *old(broadcast), alive, capture),
            !alive <==> r is Terminate,
            alive ==> match r {
                PollAction::Proceed { swap_with, strokes } => match live_command(alive, capture) {
                    None => swap_with is None && strokes@.len() == 0,
                    Some(cmd) => {
                        &&& swap_with == spec_swap_request(*old(self), cmd, now_ms)
                        &&& strokes@ == if dispatch_due(*old(self), *old(broadcast), cmd) {
                            spec_dispatch(cmd)
                        } else {
                            Seq::empty()
                        }
                    },
                },
                PollAction::Terminate => false,
            },
    {
        if !alive {
            return PollAction::Terminate;
        }
        let idle = if self.idle_polls == u64::MAX {
            self.idle_polls
        } else {
            self.idle_polls + 1
        };
        let (sentinel, pixel) = match capture {
            Some(c) => c,
            None => {
                self.idle_polls = idle;
                return PollAction::Proceed { swap_with: None, strokes: Vec::new() };
            },
        };
        let cmd = decode(sentinel, pixel);
        if !cmd.sentinel_ok {
            self.idle_polls = idle;
            return PollAction::Proceed { swap_with: None, strokes: Vec::new() };
        }
        let ghost before = *self;
        apply_toggle(&mut self.keys_enabled, broadcast, cmd.toggle_code);

        let swap_with = match toggle_of(cmd.toggle_code) {
            Toggle::Swap(target) => {
                let due = match self.last_swap_ms {
                    None => true,
                    Some(last) => now_ms >= last && now_ms - last >= SWAP_DEBOUNCE_MS,
                };
                if due {
                    self.last_swap_ms = Some(now_ms);
                    Some(target)
                } else {
                    None
                }
            },
            _ => None,
        };
        assert(swap_with == spec_swap_request(before, cmd, now_ms));

        let mut strokes: Vec<KeyStroke> = Vec::new();
        let mut dispatched = false;
        if self.keys_enabled && self.idle_polls >= MIN_IDLE_POLLS && cmd.target_selector
            <= MAX_TARGET_SELECTOR {
            if let Some(key) = action_key(cmd.action_key) {
                strokes = target_combo(cmd.target_selector);
                let mut pulse = key_pulse(key);
                strokes.append(&mut pulse);
                dispatched = true;
            }
        }
        self.idle_polls = if dispatched {
            0
        } else {
            idle
        };
        PollAction::Proceed { swap_with, strokes }
    }
}

/// A toggle code held over consecutive polls acts only on the first of them: applying it a
/// second time changes neither key forwarding nor the broadcast flag.
pub proof fn lemma_toggle_edge_triggered(keys_enabled: bool, broadcast: bool, code: u8)
    ensures
        ({
            let once = spec_apply_toggle(keys_enabled, broadcast, code);
            spec_apply_toggle(once.0, once.1, code) == once
        }),
{
}

/// After a poll accepts a swap request, no poll of the same worker within the debounce
/// interval yields another one, whatever it captures.
pub proof fn lemma_swap_debounced(
    w: Worker,
    broadcast: bool,
    capture: Option<(u32, u32)>,
    now_ms: u64,
    later_broadcast: bool,
    later_capture: Option<(u32, u32)>,
    later_ms: u64,
)
    requires
        live_command(true, capture) is Some,
        spec_swap_request(w, live_command(true, capture)->Some_0, now_ms) is Some,
        later_ms < now_ms + SWAP_DEBOUNCE_MS,
    ensures
        ({
            let w1 = spec_next_worker(w, broadcast, true, capture, now_ms);
            match live_command(true, later_capture) {
                Some(cmd) => spec_swap_request(w1, cmd, later_ms) is None,
                None => true,
            }
        }),
{
}

} // verus!
