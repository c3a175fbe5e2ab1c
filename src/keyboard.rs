use vstd::prelude::*;

verus! {

/// Number of keys on the hexadecimal keypad.
pub const KEY_COUNT: usize = 16;

/// Value of the halt-key slot when no key is being waited on; it is no key code.
pub const NO_KEY: usize = 256;

/// The input latch as a mathematical value.
pub struct KeyboardState {
    /// Pressed (`true`) or released, one entry per key code `0x0..=0xF`.
    pub keys: Seq<bool>,
    /// The key being waited on for release, or `NO_KEY`.
    pub halt_key: usize,
}

/// Whether key `k` is a key code that is currently held down.
pub open spec fn key_down(keys: Seq<bool>, k: int) -> bool {
    0 <= k < KEY_COUNT && keys[k]
}

/// The lowest key code at or above `from` that is held down.
pub open spec fn first_pressed_from(keys: Seq<bool>, from: int) -> Option<int>
    decreases KEY_COUNT - from,
{
    if from < 0 || from >= KEY_COUNT {
        None
    } else if keys[from] {
        Some(from)
    } else {
        first_pressed_from(keys, from + 1)
    }
}

/// The lowest key code that is held down, if any.
pub open spec fn lowest_pressed(keys: Seq<bool>) -> Option<int> {
    first_pressed_from(keys, 0)
}

/// The key code written for a keypad symbol: `'0'..='9'` and `'A'..='F'`.
pub open spec fn symbol_key(symbol: char) -> Option<usize> {
    if '0' <= symbol <= '9' {
        Some((symbol as usize - '0' as usize) as usize)
    } else if 'A' <= symbol <= 'F' {
        Some((symbol as usize - 'A' as usize + 10) as usize)
    } else {
        None
    }
}

/// The lowest held key at or above `from` is `k` when `k` is held and no key
/// between `from` and `k` is.
pub proof fn lemma_first_pressed_is(keys: Seq<bool>, from: int, k: int)
    requires
        0 <= from <= k < KEY_COUNT,
        keys[k],
        forall|j: int| from <= j < k ==> !keys[j],
    ensures
        first_pressed_from(keys, from) == Some(k),
    decreases k - from,
{
    if from < k {
        lemma_first_pressed_is(keys, from + 1, k);
    }
}

/// No key at or above `from` is held, so there is no lowest one.
pub proof fn lemma_first_pressed_none(keys: Seq<bool>, from: int)
    requires
        0 <= from,
        forall|j: int| from <= j < KEY_COUNT ==> !keys[j],
    ensures
        first_pressed_from(keys, from) is None,
    decreases KEY_COUNT - from,
{
    if from < KEY_COUNT {
        lemma_first_pressed_none(keys, from + 1);
    }
}

/// Maps a keypad symbol to its key code; any other symbol has none.
pub fn keypad_index(symbol: char) -> (r: Option<usize>)
    ensures
        r == symbol_key(symbol),
{
    if '0' <= symbol && symbol <= '9' {
        Some((symbol as u32 - '0' as u32) as usize)
    } else if 'A' <= symbol && symbol <= 'F' {
        Some((symbol as u32 - 'A' as u32 + 10) as usize)
    } else {
        None
    }
}

/// Pressed/released state of the sixteen keys, and the key a blocking
/// read waits on for release.
pub struct Keyboard {
    state: [bool; 16],
    halt_key: usize,
}

impl View for Keyboard {
    type V = KeyboardState;

    closed spec fn view(&self) -> KeyboardState {
        KeyboardState { keys: self.state@, halt_key: self.halt_key }
    }
}

impl Keyboard {
    /// Every key released, no key waited on.
    pub fn new() -> (r: Keyboard)
        ensures
            r@.keys == Seq::new(KEY_COUNT as nat, |i: int| false),
            r@.halt_key == NO_KEY,
    {
        let r = Keyboard { state: [false; 16], halt_key: NO_KEY };
        proof {
            assert(r@.keys =~= Seq::new(KEY_COUNT as nat, |i: int| false));
        }
        r
    }

    pub fn get_state(&self) -> (r: &[bool; 16])
        ensures
            r@ == self@.keys,
    {
        &self.state
    }

    /// Records the state of one key, as the input collaborator sees it.
    pub fn set_key(&mut self, key: usize, pressed: bool)
        requires
            key < KEY_COUNT,
        ensures
            final(self)@.keys == old(self)@.keys.update(key as int, pressed),
            final(self)@.halt_key == old(self)@.halt_key,
    {
        self.state[key] = pressed;
    }

    pub fn set_halt_key(&mut self, key: u8)
        ensures
            final(self)@.keys == old(self)@.keys,
            final(self)@.halt_key == key as usize,
    {
        self.halt_key = key as usize;
    }

    pub fn get_halt_key(&self) -> (r: usize)
        ensures
            r == self@.halt_key,
    {
        self.halt_key
    }

    /// Whether key `key` is a key code that is held down.
    pub fn is_pressed(&self, key: usize) -> (r: bool)
        ensures
            r == key_down(self@.keys, key as int),
    {
        key < KEY_COUNT && self.state[key]
    }

    /// The lowest key code that is held down, if any.
    pub fn lowest_pressed_key(&self) -> (r: Option<usize>)
        ensures
            r is Some <==> lowest_pressed(self@.keys) is Some,
            r is Some ==> lowest_pressed(self@.keys) == Some(r->0 as int),
            r is Some ==> r->0 < KEY_COUNT && self@.keys[r->0 as int],
    {
        let mut i: usize = 0;
        while i < KEY_COUNT
            invariant
                0 <= i <= KEY_COUNT,
                self@.keys.len() == KEY_COUNT,
                lowest_pressed(self@.keys) == first_pressed_from(self@.keys, i as int),
            decreases KEY_COUNT - i,
        {
            if self.state[i] {
                return Some(i);
            }
            i = i + 1;
        }
        None
    }
}

} // verus!
