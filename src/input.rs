//! Decoding of the packed words that carry window input, and the commands
//! that keys and mouse buttons stand for.
use vstd::prelude::*;

use crate::browse::StepDirection;

verus! {

pub const VK_RETURN: u32 = 0x0d;
pub const VK_ESCAPE: u32 = 0x1b;
pub const VK_HOME: u32 = 0x24;
pub const VK_LEFT: u32 = 0x25;
pub const VK_RIGHT: u32 = 0x27;
pub const VK_INSERT: u32 = 0x2d;
pub const KEY_C: u32 = 0x43;
pub const KEY_V: u32 = 0x56;

/// The low 16 bits of a packed word.
pub open spec fn low_word(v: u32) -> int {
    v as int % 65536
}

/// The high 16 bits of a packed word.
pub open spec fn high_word(v: u32) -> int {
    v as int / 65536
}

/// A 16-bit word read as a two's-complement signed value.
pub open spec fn signed_word(w: int) -> int {
    if w >= 32768 {
        w - 65536
    } else {
        w
    }
}

fn to_signed(w: u32) -> (r: i32)
    requires
        w < 65536,
    ensures
        r == signed_word(w as int),
{
    if w >= 32768 {
        w as i32 - 65536
    } else {
        w as i32
    }
}

/// Pointer position from a mouse message's packed coordinates: signed x in
/// the low word, signed y in the high word.
pub fn decode_mouse_pos(packed: u32) -> (r: (i32, i32))
    ensures
        r.0 == signed_word(low_word(packed)),
        r.1 == signed_word(high_word(packed)),
{
    (to_signed(packed % 65536), to_signed(packed / 65536))
}

/// Client size from a size message's packed extents: width in the low word,
/// height in the high word.
pub fn decode_size(packed: u32) -> (r: (i32, i32))
    ensures
        r.0 == low_word(packed),
        r.1 == high_word(packed),
{
    ((packed % 65536) as i32, (packed / 65536) as i32)
}

/// Whether a wheel message turns the wheel forward (its signed delta, in the
/// high word, is positive): forward zooms in, backward zooms out.
pub fn wheel_zooms_in(packed: u32) -> (r: bool)
    ensures
        r == (signed_word(high_word(packed)) > 0),
{
    to_signed(packed / 65536) > 0
}

/// The step that a side mouse button stands for: button 1 goes back, button
/// 2 goes forward, the button index being the high word.
pub fn x_button_step(packed: u32) -> (r: Option<StepDirection>)
    ensures
        high_word(packed) == 1 ==> r == Some(StepDirection::Backward),
        high_word(packed) == 2 ==> r == Some(StepDirection::Forward),
        high_word(packed) != 1 && high_word(packed) != 2 ==> r is None,
{
    let button = packed / 65536;
    if button == 1 {
        Some(StepDirection::Backward)
    } else if button == 2 {
        Some(StepDirection::Forward)
    } else {
        None
    }
}

/// What a key press asks of the viewer.
#[derive(Debug, Clone, Copy, PartialEq, Eq, Structural)]
pub enum KeyCommand {
    Quit,
    ResetView,
    PreviousImage,
    NextImage,
    ToggleFullScreen,
    /// Absolute zoom level k: a window-to-image scale of 1/2^k, with the
    /// offset kept (keys `1` to `5` give levels 0 to 4).
    ZoomLevel(u32),
    /// Open the file or the image on the clipboard.
    Paste,
    /// Put the window's current frame on the clipboard.
    CopyFrame,
    Ignored,
}

/// The command of a key, by its virtual-key code and whether Ctrl is held;
/// the digit keys `1` to `5` are told apart by the low byte of the code.
pub open spec fn key_command_of(key: u32, ctrl: bool) -> KeyCommand {
    if ctrl && key == KEY_V {
        KeyCommand::Paste
    } else if ctrl && (key == KEY_C || key == VK_INSERT) {
        KeyCommand::CopyFrame
    } else if key == VK_ESCAPE {
        KeyCommand::Quit
    } else if key == VK_HOME {
        KeyCommand::ResetView
    } else if key == VK_LEFT {
        KeyCommand::PreviousImage
    } else if key == VK_RIGHT {
        KeyCommand::NextImage
    } else if key == VK_RETURN {
        KeyCommand::ToggleFullScreen
    } else if 0x31 <= key % 256 <= 0x35 {
        KeyCommand::ZoomLevel((key % 256 - 0x31) as u32)
    } else {
        KeyCommand::Ignored
    }
}

/// The command that a key-down message's virtual-key code stands for, with
/// Ctrl held or not.
pub fn key_command(key: u32, ctrl: bool) -> (r: KeyCommand)
    ensures
        r == key_command_of(key, ctrl),
{
    let low = key % 256;
    if ctrl && key == KEY_V {
        KeyCommand::Paste
    } else if ctrl && (key == KEY_C || key == VK_INSERT) {
        KeyCommand::CopyFrame
    } else if key == VK_ESCAPE {
        KeyCommand::Quit
    } else if key == VK_HOME {
        KeyCommand::ResetView
    } else if key == VK_LEFT {
        KeyCommand::PreviousImage
    } else if key == VK_RIGHT {
        KeyCommand::NextImage
    } else if key == VK_RETURN {
        KeyCommand::ToggleFullScreen
    } else if 0x31 <= low && low <= 0x35 {
        KeyCommand::ZoomLevel(low - 0x31)
    } else {
        KeyCommand::Ignored
    }
}

} // verus!
