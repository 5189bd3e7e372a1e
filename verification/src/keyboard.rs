//! The key pad: sixteen keys, each either pressed or released.

use vstd::prelude::*;
use crate::fault::Fault;

verus! {

/// Number of keys.
pub const KEY_COUNT: usize = 16;

/// The current state of the keys. Its view holds one flag per key, `true`
/// while the key is held down.
pub struct Keyboard {
    keys: [bool; KEY_COUNT],
}

impl View for Keyboard {
    type V = Seq<bool>;

    closed spec fn view(&self) -> Seq<bool> {
        self.keys@
    }
}

impl Keyboard {
    /// A key pad with every key released.
    pub fn new() -> (keyboard: Keyboard)
        ensures
            keyboard@ == Seq::new(KEY_COUNT as nat, |i: int| false),
    {
        Keyboard { keys: [false; KEY_COUNT] }
    }

    /// The view always has `KEY_COUNT` flags.
    pub broadcast proof fn lemma_len(&self)
        ensures
            #[trigger] self@.len() == KEY_COUNT,
    {
    }

    /// Records that `key` is now pressed or released; faults on a key above
    /// 15 and then changes nothing.
    pub fn set_pressed(&mut self, key: u8, pressed: bool) -> (r: Result<(), Fault>)
        ensures
            old(self)@.len() == KEY_COUNT,
            final(self)@.len() == KEY_COUNT,
            key < KEY_COUNT ==> r.is_ok() && final(self)@ == old(self)@.update(key as int, pressed),
            key >= KEY_COUNT ==> r == Err::<(), Fault>(Fault::InvalidKey) && final(self)@ == old(
                self,
            )@,
    {
        if (key as usize) < KEY_COUNT {
            self.keys[key as usize] = pressed;
            Ok(())
        } else {
            Err(Fault::InvalidKey)
        }
    }

    /// Whether `key` is held down; faults on a key above 15.
    pub fn key_pressed(&self, key: u8) -> (r: Result<bool, Fault>)
        ensures
            self@.len() == KEY_COUNT,
            key < KEY_COUNT ==> r == Ok::<bool, Fault>(self@[key as int]),
            key >= KEY_COUNT ==> r == Err::<bool, Fault>(Fault::InvalidKey),
    {
        if (key as usize) < KEY_COUNT {
            Ok(self.keys[key as usize])
        } else {
            Err(Fault::InvalidKey)
        }
    }
}

} // verus!
