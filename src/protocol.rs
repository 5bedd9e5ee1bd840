use vstd::prelude::*;

verus! {

/// The colour that the sentinel pixel holds while the in-window protocol is active, as the
/// windowing system reports a pixel: `0x00BBGGRR` (here red `0x12`, green `0x34`, blue `0x56`).
pub const SENTINEL_COLOR: u32 = 0x563412;

/// A command read from the two protocol pixels. The command pixel's blue channel is the toggle
/// code, its green channel the target selector and its red channel the action key.
#[derive(Clone, Copy, Debug, PartialEq, Eq, Structural)]
pub struct Command {
    pub sentinel_ok: bool,
    pub toggle_code: u8,
    pub action_key: u8,
    pub target_selector: u8,
}

/// What a toggle code asks for.
#[derive(Clone, Copy, Debug, PartialEq, Eq, Structural)]
pub enum Toggle {
    Idle,
    DisableKeys,
    EnableKeys,
    EnableBroadcast,
    DisableBroadcast,
    /// Exchange geometry with the window in the given slot.
    Swap(u8),
}

pub open spec fn blue_of(pixel: u32) -> u8 {
    ((pixel >> 16u32) & 0xffu32) as u8
}

pub open spec fn green_of(pixel: u32) -> u8 {
    ((pixel >> 8u32) & 0xffu32) as u8
}

pub open spec fn red_of(pixel: u32) -> u8 {
    (pixel & 0xffu32) as u8
}

pub open spec fn spec_decode(sentinel: u32, command: u32) -> Command {
    Command {
        sentinel_ok: sentinel == SENTINEL_COLOR,
        toggle_code: blue_of(command),
        action_key: red_of(command),
        target_selector: green_of(command),
    }
}

/// The command pixel that carries the given toggle code, target selector and action key.
pub open spec fn spec_encode(toggle_code: u8, target_selector: u8, action_key: u8) -> u32 {
    ((toggle_code as u32) << 16u32) | ((target_selector as u32) << 8u32) | (action_key as u32)
}

pub open spec fn spec_toggle(code: u8) -> Toggle {
    if code == 0 {
        Toggle::Idle
    } else if code == 1 {
        Toggle::DisableKeys
    } else if code == 2 {
        Toggle::EnableKeys
    } else if code == 3 {
        Toggle::EnableBroadcast
    } else if code == 4 {
        Toggle::DisableBroadcast
    } else {
        Toggle::Swap((code - 4) as u8)
    }
}

/// Splits a capture of the sentinel pixel and the command pixel into a command.
pub fn decode(sentinel: u32, command: u32) -> (r: Command)
    ensures
        r == spec_decode(sentinel, command),
{
    Command {
        sentinel_ok: sentinel == SENTINEL_COLOR,
        toggle_code: ((command >> 16u32) & 0xffu32) as u8,
        action_key: (command & 0xffu32) as u8,
        target_selector: ((command >> 8u32) & 0xffu32) as u8,
    }
}

/// The command pixel that carries the given toggle code, target selector and action key.
pub fn encode(toggle_code: u8, target_selector: u8, action_key: u8) -> (r: u32)
    ensures
        r == spec_encode(toggle_code, target_selector, action_key),
{
    ((toggle_code as u32) << 16u32) | ((target_selector as u32) << 8u32) | (action_key as u32)
}

/// What a toggle code asks for: 0 nothing, 1 and 2 disable and enable key forwarding, 3 and 4
/// enable and disable broadcast, and a code `c` above 4 a swap with slot `c - 4`.
pub fn toggle_of(code: u8) -> (r: Toggle)
    ensures
        r == spec_toggle(code),
{
    if code == 0 {
        Toggle::Idle
    } else if code == 1 {
        Toggle::DisableKeys
    } else if code == 2 {
        Toggle::EnableKeys
    } else if code == 3 {
        Toggle::EnableBroadcast
    } else if code == 4 {
        Toggle::DisableBroadcast
    } else {
        Toggle::Swap(code - 4)
    }
}

/// Decoding a command pixel built from a toggle code, a target selector and an action key,
/// beside the sentinel colour, gives back exactly that command, and its toggle code asks for
/// a swap with slot `c - 4` whenever `c` is above 4.
pub proof fn lemma_decode_encode(toggle_code: u8, target_selector: u8, action_key: u8)
    ensures
        spec_decode(SENTINEL_COLOR, spec_encode(toggle_code, target_selector, action_key))
            == (Command { sentinel_ok: true, toggle_code, action_key, target_selector }),
        toggle_code > 4 ==> spec_toggle(toggle_code) == Toggle::Swap((toggle_code - 4) as u8),
{
    let t = toggle_code as u32;
    let s = target_selector as u32;
    let k = action_key as u32;
    assert(((((t << 16u32) | (s << 8u32) | k) >> 16u32) & 0xffu32) == t) by (bit_vector)
        requires
            t < 256,
            s < 256,
            k < 256,
    ;
    assert(((((t << 16u32) | (s << 8u32) | k) >> 8u32) & 0xffu32) == s) by (bit_vector)
        requires
            t < 256,
            s < 256,
            k < 256,
    ;
    assert((((t << 16u32) | (s << 8u32) | k) & 0xffu32) == k) by (bit_vector)
        requires
            t < 256,
            s < 256,
            k < 256,
    ;
}

/// Encoding the channels of a command pixel gives back the pixel, but for its top byte.
pub proof fn lemma_encode_decode(pixel: u32)
    ensures
        spec_encode(blue_of(pixel), green_of(pixel), red_of(pixel)) == pixel & 0x00ff_ffffu32,
{
    assert((((((pixel >> 16u32) & 0xffu32) as u8) as u32) << 16u32 | (((((pixel >> 8u32)
        & 0xffu32) as u8) as u32) << 8u32) | ((((pixel & 0xffu32) as u8) as u32))) == pixel
        & 0x00ff_ffffu32) by (bit_vector);
}

} // verus!
