//! The bus: the one surface through which the processor reaches memory,
//! display, key pad and delay timer.

use vstd::prelude::*;
use crate::fault::Fault;
use crate::keyboard::Keyboard;
use crate::keyboard::KEY_COUNT;
use crate::ram::Ram;
use crate::ram::RAM_SIZE;
use crate::screen::blank_grid;
use crate::screen::collides;
use crate::screen::drawn;
use crate::screen::fits;
use crate::screen::is_grid;
use crate::screen::Screen;
use crate::timer::ticked;
use crate::timer::Timer;

verus! {

/// What the peripherals hold, as mathematical values.
pub struct BusState {
    /// The `RAM_SIZE` bytes of memory.
    pub memory: Seq<u8>,
    /// The key flags, `true` for a key that is held down.
    pub keys: Seq<bool>,
    /// The pixel rows, top first.
    pub pixels: Seq<Seq<bool>>,
    /// The delay timer.
    pub timer: u8,
}

/// The memory-mapped peripherals of the machine.
pub struct Bus {
    pub ram: Ram,
    pub keyboard: Keyboard,
    pub screen: Screen,
    pub delay_timer: Timer,
}

impl View for Bus {
    type V = BusState;

    open spec fn view(&self) -> BusState {
        BusState {
            memory: self.ram@,
            keys: self.keyboard@,
            pixels: self.screen@,
            timer: self.delay_timer@,
        }
    }
}

impl BusState {
    /// The state of a bus that was just created: memory zeroed, keys
    /// released, display dark, timer at zero.
    pub open spec fn initial() -> BusState {
        BusState {
            memory: Seq::new(RAM_SIZE as nat, |i: int| 0u8),
            keys: Seq::new(KEY_COUNT as nat, |i: int| false),
            pixels: blank_grid(),
            timer: 0,
        }
    }

    /// Whether the parts have the sizes of the machine: `RAM_SIZE` bytes,
    /// `KEY_COUNT` keys and a full pixel grid.
    pub open spec fn valid(self) -> bool {
        &&& self.memory.len() == RAM_SIZE
        &&& self.keys.len() == KEY_COUNT
        &&& is_grid(self.pixels)
    }

}

impl Bus {
    /// The state of a bus always has the sizes of the machine.
    pub proof fn lemma_valid(&self)
        ensures
            self@.valid(),
    {
        self.ram.lemma_len();
        self.keyboard.lemma_len();
        self.screen.lemma_is_grid();
    }

    /// A bus with all peripherals cleared.
    pub fn new() -> (bus: Bus)
        ensures
            bus@ == BusState::initial(),
    {
        Bus {
            ram: Ram::new(),
            keyboard: Keyboard::new(),
            screen: Screen::new(),
            delay_timer: Timer::new(),
        }
    }

    /// Reads the byte at `address`; faults beyond the last byte of memory.
    pub fn ram_read_byte(&self, address: usize) -> (r: Result<u8, Fault>)
        ensures
            self@.valid(),
            address < RAM_SIZE ==> r == Ok::<u8, Fault>(self@.memory[address as int]),
            address >= RAM_SIZE ==> r == Err::<u8, Fault>(Fault::OutOfBounds),
    {
        proof {
            self.lemma_valid();
        }
        self.ram.read_byte(address)
    }

    /// Writes `value` at `address`; faults beyond the last byte of memory
    /// and then changes nothing.
    pub fn ram_write_byte(&mut self, address: usize, value: u8) -> (r: Result<(), Fault>)
        ensures
            final(self)@.valid(),
            address < RAM_SIZE ==> r.is_ok() && final(self)@ == (BusState {
                memory: old(self)@.memory.update(address as int, value),
                ..old(self)@
            }),
            address >= RAM_SIZE ==> r == Err::<(), Fault>(Fault::OutOfBounds) && final(self)@
                == old(self)@,
    {
        let r = self.ram.write_byte(address, value);
        proof {
            self.lemma_valid();
        }
        r
    }

    /// Draws one sprite row with its leftmost bit at `(x, y)` and reports
    /// whether a lit pixel went dark.
    pub fn debug_draw_byte(&mut self, x: u8, y: u8, byte: u8) -> (flipped: bool)
        requires
            fits(x as int, y as int, 1),
        ensures
            final(self)@.valid(),
            final(self)@ == (BusState {
                pixels: drawn(old(self)@.pixels, seq![byte], x as int, y as int),
                ..old(self)@
            }),
            flipped == collides(old(self)@.pixels, seq![byte], x as int, y as int),
    {
        let flipped = self.screen.debug_draw_byte(x, y, byte);
        proof {
            self.lemma_valid();
        }
        flipped
    }

    /// Draws the sprite `sprite`, one byte per row, with its top left corner
    /// at `(x, y)` and reports whether a lit pixel went dark.
    pub fn draw_sprite(&mut self, x: u8, y: u8, sprite: &[u8]) -> (collided: bool)
        requires
            fits(x as int, y as int, sprite@.len() as int),
        ensures
            final(self)@.valid(),
            final(self)@ == (BusState {
                pixels: drawn(old(self)@.pixels, sprite@, x as int, y as int),
                ..old(self)@
            }),
            collided == collides(old(self)@.pixels, sprite@, x as int, y as int),
    {
        let collided = self.screen.draw_sprite(x, y, sprite);
        proof {
            self.lemma_valid();
        }
        collided
    }

    /// Turns every pixel dark.
    pub fn clear_screen(&mut self)
        ensures
            final(self)@.valid(),
            final(self)@ == (BusState { pixels: blank_grid(), ..old(self)@ }),
    {
        self.screen.clear_display();
        proof {
            self.lemma_valid();
        }
    }

    /// Whether the key `key_code` is held down; faults on a key above 15.
    pub fn key_pressed(&self, key_code: u8) -> (r: Result<bool, Fault>)
        ensures
            self@.valid(),
            key_code < KEY_COUNT ==> r == Ok::<bool, Fault>(self@.keys[key_code as int]),
            key_code >= KEY_COUNT ==> r == Err::<bool, Fault>(Fault::InvalidKey),
    {
        proof {
            self.lemma_valid();
        }
        self.keyboard.key_pressed(key_code)
    }

    /// Moves the delay timer one step towards zero, where it stays.
    pub fn tick(&mut self)
        ensures
            final(self)@.valid(),
            final(self)@ == (BusState { timer: ticked(old(self)@.timer), ..old(self)@ }),
    {
        self.delay_timer.tick();
        proof {
            self.lemma_valid();
        }
    }

    /// Sets the delay timer.
    pub fn set_delay_timer(&mut self, value: u8)
        ensures
            final(self)@.valid(),
            final(self)@ == (BusState { timer: value, ..old(self)@ }),
    {
        self.delay_timer.set(value);
        proof {
            self.lemma_valid();
        }
    }

    /// The delay timer.
    pub fn get_delay_timer(&self) -> (value: u8)
        ensures
            self@.valid(),
            value == self@.timer,
    {
        proof {
            self.lemma_valid();
        }
        self.delay_timer.get()
    }
}

impl Default for Bus {
    fn default() -> (bus: Bus)
        ensures
            bus@ == BusState::initial(),
    {
        Bus::new()
    }
}

} // verus!
