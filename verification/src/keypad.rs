use vstd::prelude::*;

use crate::error::Chip8Error;

verus! {

/// Number of keys on the CHIP-8 keypad.
pub const NUM_KEYS: usize = 16;

/// The lowest-numbered pressed key, if any key is pressed.
pub open spec fn first_pressed(keys: Seq<bool>) -> Option<int> {
    if exists|k: int| 0 <= k < keys.len() && #[trigger] keys[k] {
        Some(choose|k: int| 0 <= k < keys.len() && keys[k] && forall|j: int| 0 <= j < k ==> !#[trigger] keys[j])
    } else {
        None
    }
}

/// The state of the sixteen CHIP-8 keys.
pub struct Keypad {
    keys: [bool; 16],
}

impl Keypad {
    /// Number of keys on the keypad.
    pub const NUM_KEYS: usize = 16;

    /// Whether each key is pressed.
    pub closed spec fn view(&self) -> Seq<bool> {
        self.keys@
    }

    /// Every keypad has `NUM_KEYS` keys.
    pub proof fn lemma_len(&self)
        ensures
            self@.len() == NUM_KEYS,
    {
    }

    /// A keypad with no key pressed.
    pub fn new() -> (k: Self)
        ensures
            k@ == Seq::new(NUM_KEYS as nat, |i: int| false),
    {
        let k = Keypad { keys: [false; 16] };
        assert(k@ =~= Seq::new(NUM_KEYS as nat, |i: int| false));
        k
    }

    /// Whether `key` is pressed.
    pub fn is_pressed(&self, key: usize) -> (r: Result<bool, Chip8Error>)
        ensures
            key < NUM_KEYS ==> r == Ok::<bool, Chip8Error>(self@[key as int]),
            key >= NUM_KEYS ==> r == Err::<bool, Chip8Error>(Chip8Error::KeypadOutOfBounds { key }),
    {
        if self.out_of_bounds(key) {
            Err(Chip8Error::KeypadOutOfBounds { key })
        } else {
            Ok(self.keys[key])
        }
    }

    /// The lowest-numbered pressed key and `true`, or `(0xFF, false)` when no
    /// key is pressed.
    pub fn is_pressed_any(&self) -> (r: (usize, bool))
        ensures
            r.1 <==> first_pressed(self@) is Some,
            r.1 ==> first_pressed(self@) == Some(r.0 as int),
            !r.1 ==> r.0 == 0xFF,
    {
        let mut key: usize = 0;
        while key < Self::NUM_KEYS
            invariant
                0 <= key <= NUM_KEYS,
                forall|j: int| 0 <= j < key ==> !self@[j],
            decreases NUM_KEYS - key,
        {
            if self.keys[key] {
                proof {
                    lemma_first_pressed_is(self@, key as int);
                }
                return (key, true);
            }
            key += 1;
        }
        (0xFF, false)
    }

    /// Mark `key` as pressed.
    pub fn press_key(&mut self, key: usize) -> (r: Result<(), Chip8Error>)
        ensures
            key < NUM_KEYS ==> r == Ok::<(), Chip8Error>(()) && final(self)@ == old(self)@.update(key as int, true),
            key >= NUM_KEYS ==> r == Err::<(), Chip8Error>(Chip8Error::KeypadOutOfBounds { key })
                && final(self)@ == old(self)@,
    {
        if self.out_of_bounds(key) {
            Err(Chip8Error::KeypadOutOfBounds { key })
        } else {
            self.keys[key] = true;
            Ok(())
        }
    }

    /// Mark `key` as released.
    pub fn release_key(&mut self, key: usize) -> (r: Result<(), Chip8Error>)
        ensures
            key < NUM_KEYS ==> r == Ok::<(), Chip8Error>(()) && final(self)@ == old(self)@.update(key as int, false),
            key >= NUM_KEYS ==> r == Err::<(), Chip8Error>(Chip8Error::KeypadOutOfBounds { key })
                && final(self)@ == old(self)@,
    {
        if self.out_of_bounds(key) {
            Err(Chip8Error::KeypadOutOfBounds { key })
        } else {
            self.keys[key] = false;
            Ok(())
        }
    }

    /// Whether `key` is not a key of the keypad.
    pub fn out_of_bounds(&self, key: usize) -> (r: bool)
        ensures
            r == (key >= NUM_KEYS),
    {
        key >= Self::NUM_KEYS
    }
}

/// `k` is the lowest pressed key when it is pressed and no lower key is.
pub proof fn lemma_first_pressed_is(keys: Seq<bool>, k: int)
    requires
        0 <= k < keys.len(),
        keys[k],
        forall|j: int| 0 <= j < k ==> !keys[j],
    ensures
        first_pressed(keys) == Some(k),
{
    let c = choose|k: int| 0 <= k < keys.len() && keys[k] && forall|j: int| 0 <= j < k ==> !#[trigger] keys[j];
    assert(0 <= c < keys.len() && keys[c] && forall|j: int| 0 <= j < c ==> !#[trigger] keys[j]);
    if c < k {
        assert(!keys[c]);
    }
    if k < c {
        assert(!keys[k]);
    }
}

} // verus!
