//! Keyboard handling for a frontend: the layout that puts the CHIP-8 keypad
//! on the left block of a QWERTY keyboard, and the key presses and releases
//! to forward when the keyboard state changes.
use vstd::prelude::*;

use crate::keypad::NUM_KEYS;
use crate::runtime::EmuCommand;

verus! {

/// A physical key of the host keyboard, by its position on a QWERTY layout.
#[derive(Debug, Clone, Copy, PartialEq, Eq, Structural)]
pub enum HostKey {
    Num1,
    Num2,
    Num3,
    Num4,
    Q,
    W,
    E,
    R,
    A,
    S,
    D,
    F,
    Z,
    X,
    C,
    V,
    /// Any key outside the keypad block.
    Other,
}

/// The keypad layout:
///
/// ```text
///   1 2 3 4        1 2 3 C
///   Q W E R   ->   4 5 6 D
///   A S D F        7 8 9 E
///   Z X C V        A 0 B F
/// ```
pub open spec fn layout(key: HostKey) -> Option<usize> {
    match key {
        HostKey::Num1 => Some(0x1),
        HostKey::Num2 => Some(0x2),
        HostKey::Num3 => Some(0x3),
        HostKey::Num4 => Some(0xC),
        HostKey::Q => Some(0x4),
        HostKey::W => Some(0x5),
        HostKey::E => Some(0x6),
        HostKey::R => Some(0xD),
        HostKey::A => Some(0x7),
        HostKey::S => Some(0x8),
        HostKey::D => Some(0x9),
        HostKey::F => Some(0xE),
        HostKey::Z => Some(0xA),
        HostKey::X => Some(0x0),
        HostKey::C => Some(0xB),
        HostKey::V => Some(0xF),
        HostKey::Other => None,
    }
}

/// Maps a physical key position to its CHIP-8 keypad index (0x0-0xF), if any.
pub fn map_scancode(scancode: HostKey) -> (key: Option<usize>)
    ensures
        key == layout(scancode),
        key matches Some(k) ==> k < NUM_KEYS,
{
    match scancode {
        // First row
        HostKey::Num1 => Some(0x1),
        HostKey::Num2 => Some(0x2),
        HostKey::Num3 => Some(0x3),
        HostKey::Num4 => Some(0xC),
        // Second row
        HostKey::Q => Some(0x4),
        HostKey::W => Some(0x5),
        HostKey::E => Some(0x6),
        HostKey::R => Some(0xD),
        // Third row
        HostKey::A => Some(0x7),
        HostKey::S => Some(0x8),
        HostKey::D => Some(0x9),
        HostKey::F => Some(0xE),
        // Fourth row
        HostKey::Z => Some(0xA),
        HostKey::X => Some(0x0),
        HostKey::C => Some(0xB),
        HostKey::V => Some(0xF),
        HostKey::Other => None,
    }
}

/// The commands that take the keypad from `previous` to `current`, for the
/// keys below `n`, in key order: a press for each key that went down and a
/// release for each key that went up.
pub open spec fn edge_commands(previous: Seq<bool>, current: Seq<bool>, n: nat) -> Seq<EmuCommand>
    decreases n,
{
    if n == 0 {
        Seq::empty()
    } else {
        let k = (n - 1) as int;
        let earlier = edge_commands(previous, current, (n - 1) as nat);
        if !previous[k] && current[k] {
            earlier.push(EmuCommand::KeyDown(k as usize))
        } else if previous[k] && !current[k] {
            earlier.push(EmuCommand::KeyUp(k as usize))
        } else {
            earlier
        }
    }
}

/// Compare this frame's key states against the last frame's and return a
/// `KeyDown`/`KeyUp` command for each key that changed.
pub fn input_edges(previous: &[bool; 16], current: &[bool; 16]) -> (commands: Vec<EmuCommand>)
    ensures
        commands@ == edge_commands(previous@, current@, NUM_KEYS as nat),
{
    let mut commands: Vec<EmuCommand> = Vec::new();
    let mut key: usize = 0;
    while key < NUM_KEYS
        invariant
            0 <= key <= NUM_KEYS,
            commands@ == edge_commands(previous@, current@, key as nat),
        decreases NUM_KEYS - key,
    {
        let was_down = previous[key];
        let is_down = current[key];
        if !was_down && is_down {
            commands.push(EmuCommand::KeyDown(key));
        } else if was_down && !is_down {
            commands.push(EmuCommand::KeyUp(key));
        }
        key += 1;
    }
    commands
}

} // verus!
