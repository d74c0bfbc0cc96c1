//! Memory, framebuffer and keypad latch, as the engine reaches them.
use vstd::prelude::*;
use crate::display::{Display, DISPLAY_SIZE};
use crate::ram::{cell, RAM};

verus! {

/// Number of keys on the keypad.
pub const KEY_COUNT: usize = 16;

/// Memory, framebuffer and keypad as plain values.
pub struct BusState {
    pub ram: Seq<u8>,
    pub video: Seq<u32>,
    /// Whether each key is held down.
    pub keys: Seq<bool>,
}

pub struct Bus {
    ram: RAM,
    display: Display,
    keypad: [bool; KEY_COUNT],
}

impl View for Bus {
    type V = BusState;

    closed spec fn view(&self) -> BusState {
        BusState { ram: self.ram@, video: self.display@, keys: self.keypad@ }
    }
}

impl Bus {
    pub fn init() -> (r: Bus)
        ensures
            r@ == (BusState {
                ram: crate::ram::initial_memory(),
                video: crate::display::blank_video(),
                keys: Seq::new(KEY_COUNT as nat, |k: int| false),
            }),
    {
        let r = Bus { ram: RAM::init(), display: Display::init(), keypad: [false; KEY_COUNT] };
        assert(r@.keys =~= Seq::new(KEY_COUNT as nat, |k: int| false));
        r
    }

    // Memory
    pub fn ram_write_byte(&mut self, addr: u16, value: u8)
        ensures
            final(self)@ == (BusState {
                ram: old(self)@.ram.update(cell(addr as int), value),
                ..old(self)@
            }),
    {
        self.ram.write_byte(addr, value)
    }

    pub fn ram_read_byte(&mut self, addr: u16) -> (r: u8)
        ensures
            r == old(self)@.ram[cell(addr as int)],
            *final(self) == *old(self),
    {
        self.ram.read_byte(addr)
    }

    // Display
    pub fn display_clear(&mut self)
        ensures
            final(self)@ == (BusState { video: crate::display::blank_video(), ..old(self)@ }),
    {
        self.display.clear();
    }

    pub fn display_get_pixel(&mut self, index: usize) -> (r: u32)
        requires
            index < DISPLAY_SIZE,
        ensures
            r == old(self)@.video[index as int],
            *final(self) == *old(self),
    {
        self.display.get_pixel(index)
    }

    pub fn display_write_pixel(&mut self, index: usize, value: u32)
        requires
            index < DISPLAY_SIZE,
        ensures
            final(self)@ == (BusState {
                video: old(self)@.video.update(index as int, value),
                ..old(self)@
            }),
    {
        self.display.write_pixel(index, value);
    }

    /// All pixels, row after row.
    pub fn display_get_buffer(&self) -> (r: &[u32])
        ensures
            r@ == self@.video,
    {
        self.display.get_buffer()
    }

    // Keyboard
    pub fn is_key_pressed(&self, index: usize) -> (r: bool)
        requires
            index < KEY_COUNT,
        ensures
            r == self@.keys[index as int],
    {
        self.keypad[index]
    }

    /// Latches key `index` as held down (`state` true) or released.
    pub fn handle_key_press(&mut self, index: usize, state: bool)
        requires
            index < KEY_COUNT,
        ensures
            final(self)@ == (BusState {
                keys: old(self)@.keys.update(index as int, state),
                ..old(self)@
            }),
    {
        self.keypad[index] = state;
    }

    /// The three parts always have their fixed sizes.
    pub proof fn lemma_lengths(&self)
        ensures
            self@.ram.len() == crate::ram::RAM_SIZE,
            self@.video.len() == DISPLAY_SIZE,
            self@.keys.len() == KEY_COUNT,
    {
        self.ram.lemma_len();
        self.display.lemma_len();
    }
}

} // verus!
