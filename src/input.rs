use vstd::prelude::*;

verus! {

/// The largest target selector whose numeral key lies in 0 through 9.
pub const MAX_TARGET_SELECTOR: u8 = 40;

/// A key that the dispatcher presses in a window.
#[derive(Clone, Copy, Debug, PartialEq, Eq, Structural)]
pub enum Key {
    /// Function key `F<n>`, `n` in 1 through 24.
    Function(u8),
    /// Numeric-keypad numeral `n`, 0 through 9.
    Numpad(u8),
    LeftControl,
    LeftShift,
    LeftAlt,
}

/// One key transition posted to a window.
#[derive(Clone, Copy, Debug, PartialEq, Eq, Structural)]
pub struct KeyStroke {
    pub key: Key,
    pub down: bool,
}

pub open spec fn down(key: Key) -> KeyStroke {
    KeyStroke { key, down: true }
}

pub open spec fn up(key: Key) -> KeyStroke {
    KeyStroke { key, down: false }
}

/// The function key that an action key stands for: codes 1 through 18 give F1 through F18,
/// code 19 gives F18 again, and codes 20 through 25 give F19 through F24.
pub open spec fn spec_action_key(code: u8) -> Option<Key> {
    if 1 <= code <= 18 {
        Some(Key::Function(code))
    } else if code == 19 {
        Some(Key::Function(18))
    } else if 20 <= code <= 25 {
        Some(Key::Function((code - 1) as u8))
    } else {
        None
    }
}

/// The modifier that selects among targets: none, left control, left shift or left alt for
/// `v mod 4` equal to 0, 1, 2 or 3.
pub open spec fn spec_modifier(v: nat) -> Option<Key> {
    if v % 4 == 1 {
        Some(Key::LeftControl)
    } else if v % 4 == 2 {
        Some(Key::LeftShift)
    } else if v % 4 == 3 {
        Some(Key::LeftAlt)
    } else {
        None
    }
}

/// The strokes that select a target: nothing for selector 0; otherwise, with
/// `v = selector - 1`, the modifier of `v mod 4` held around a press of numeral `v div 4`.
pub open spec fn spec_target_combo(selector: u8) -> Seq<KeyStroke> {
    if selector == 0 {
        Seq::empty()
    } else {
        let v = (selector - 1) as nat;
        let numeral = Key::Numpad((v / 4) as u8);
        match spec_modifier(v) {
            Some(m) => seq![down(m), down(numeral), up(numeral), up(m)],
            None => seq![down(numeral), up(numeral)],
        }
    }
}

pub open spec fn spec_key_pulse(key: Key) -> Seq<KeyStroke> {
    seq![down(key), up(key)]
}

/// The function key configured for an action key, if any.
pub fn action_key(code: u8) -> (r: Option<Key>)
    ensures
        r == spec_action_key(code),
{
    if 1 <= code && code <= 18 {
        Some(Key::Function(code))
    } else if code == 19 {
        Some(Key::Function(18))
    } else if 20 <= code && code <= 25 {
        Some(Key::Function(code - 1))
    } else {
        None
    }
}

/// A key-down followed by a key-up of `key`.
pub fn key_pulse(key: Key) -> (r: Vec<KeyStroke>)
    ensures
        r@ == spec_key_pulse(key),
{
    vec![KeyStroke { key, down: true }, KeyStroke { key, down: false }]
}

/// The strokes that select the target that `selector` encodes, in dispatch order:
/// modifier down, numeral down, numeral up, modifier up.
pub fn target_combo(selector: u8) -> (r: Vec<KeyStroke>)
    requires
        selector <= MAX_TARGET_SELECTOR,
    ensures
        r@ == spec_target_combo(selector),
{
    if selector == 0 {
        return Vec::new();
    }
    let v = selector - 1;
    let numeral = Key::Numpad(v / 4);
    let modifier = if v % 4 == 1 {
        Some(Key::LeftControl)
    } else if v % 4 == 2 {
        Some(Key::LeftShift)
    } else if v % 4 == 3 {
        Some(Key::LeftAlt)
    } else {
        None
    };
    let mut strokes: Vec<KeyStroke> = Vec::new();
    if let Some(m) = modifier {
        strokes.push(KeyStroke { key: m, down: true });
    }
    strokes.push(KeyStroke { key: numeral, down: true });
    strokes.push(KeyStroke { key: numeral, down: false });
    if let Some(m) = modifier {
        strokes.push(KeyStroke { key: m, down: false });
    }
    proof {
        assert(strokes@ =~= spec_target_combo(selector));
    }
    strokes
}

/// Every selector up to the largest one names a numeral key from 0 through 9, and every
/// modifier down in a combination is matched by its up after the numeral.
pub proof fn lemma_target_combo_in_range(selector: u8)
    requires
        1 <= selector <= MAX_TARGET_SELECTOR,
    ensures
        ({
            let v = (selector - 1) as nat;
            let s = spec_target_combo(selector);
            &&& v / 4 <= 9
            &&& s.len() == 2 || s.len() == 4
            &&& s[s.len() / 2 - 1] == down(Key::Numpad((v / 4) as u8))
            &&& s[(s.len() / 2) as int] == up(Key::Numpad((v / 4) as u8))
            &&& s.len() == 4 ==> s[0].key == s[3].key && s[0].down && !s[3].down
        }),
{
}

} // verus!
