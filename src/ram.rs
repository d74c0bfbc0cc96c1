//! Byte-addressable memory with the built-in hex-digit glyphs.
use vstd::prelude::*;

verus! {

/// Number of addressable bytes.
pub const RAM_SIZE: usize = 4096;

/// First address of the built-in glyph table.
pub const FONTSET_START_ADDRESS: u16 = 0x50;

/// Bytes in the glyph table: sixteen glyphs of five rows each.
pub const FONTSET_SIZE: usize = 80;

/// The sixteen hex-digit glyphs, four pixels wide and five rows high,
/// one byte per row with the pixels in the high nibble.
pub open spec fn font_glyphs() -> Seq<u8> {
    seq![
        0xF0u8, 0x90, 0x90, 0x90, 0xF0, // 0
        0x20, 0x60, 0x20, 0x20, 0x70, // 1
        0xF0, 0x10, 0xF0, 0x80, 0xF0, // 2
        0xF0, 0x10, 0xF0, 0x10, 0xF0, // 3
        0x90, 0x90, 0xF0, 0x10, 0x10, // 4
        0xF0, 0x80, 0xF0, 0x10, 0xF0, // 5
        0xF0, 0x80, 0xF0, 0x90, 0xF0, // 6
        0xF0, 0x10, 0x20, 0x40, 0x40, // 7
        0xF0, 0x90, 0xF0, 0x90, 0xF0, // 8
        0xF0, 0x90, 0xF0, 0x10, 0xF0, // 9
        0xF0, 0x90, 0xF0, 0x90, 0x90, // A
        0xE0, 0x90, 0xE0, 0x90, 0xE0, // B
        0xF0, 0x80, 0x80, 0x80, 0xF0, // C
        0xE0, 0x90, 0x90, 0x90, 0xE0, // D
        0xF0, 0x80, 0xF0, 0x80, 0xF0, // E
        0xF0, 0x80, 0xF0, 0x80, 0x80, // F
    ]
}

/// The cell that an address reaches: addresses wrap at the memory size.
pub open spec fn cell(addr: int) -> int {
    addr % (RAM_SIZE as int)
}

/// An address moved on with 16-bit wraparound reaches the same cell as the
/// unwrapped sum.
pub proof fn lemma_cell_wrapping_add(a: u16, b: u16)
    ensures
        cell(a.wrapping_add(b) as int) == cell(a + b),
{
}

/// Memory as it is at power-on: the glyph table in place, every other byte zero.
pub open spec fn initial_memory() -> Seq<u8> {
    Seq::new(
        RAM_SIZE as nat,
        |a: int|
            if FONTSET_START_ADDRESS <= a < FONTSET_START_ADDRESS + FONTSET_SIZE {
                font_glyphs()[a - FONTSET_START_ADDRESS]
            } else {
                0u8
            },
    )
}

fn glyph_table() -> (r: [u8; FONTSET_SIZE])
    ensures
        r@ == font_glyphs(),
{
    let r: [u8; FONTSET_SIZE] = [
        0xF0, 0x90, 0x90, 0x90, 0xF0,
        0x20, 0x60, 0x20, 0x20, 0x70,
        0xF0, 0x10, 0xF0, 0x80, 0xF0,
        0xF0, 0x10, 0xF0, 0x10, 0xF0,
        0x90, 0x90, 0xF0, 0x10, 0x10,
        0xF0, 0x80, 0xF0, 0x10, 0xF0,
        0xF0, 0x80, 0xF0, 0x90, 0xF0,
        0xF0, 0x10, 0x20, 0x40, 0x40,
        0xF0, 0x90, 0xF0, 0x90, 0xF0,
        0xF0, 0x90, 0xF0, 0x10, 0xF0,
        0xF0, 0x90, 0xF0, 0x90, 0x90,
        0xE0, 0x90, 0xE0, 0x90, 0xE0,
        0xF0, 0x80, 0x80, 0x80, 0xF0,
        0xE0, 0x90, 0x90, 0x90, 0xE0,
        0xF0, 0x80, 0xF0, 0x80, 0xF0,
        0xF0, 0x80, 0xF0, 0x80, 0x80,
    ];
    assert(r@ =~= font_glyphs());
    r
}

/// The machine's main memory.
pub struct RAM {
    memory: [u8; RAM_SIZE],
}

impl View for RAM {
    type V = Seq<u8>;

    closed spec fn view(&self) -> Seq<u8> {
        self.memory@
    }
}

impl RAM {
    /// The memory array always holds `RAM_SIZE` bytes.
    pub proof fn lemma_len(&self)
        ensures
            self@.len() == RAM_SIZE,
    {
    }

    /// Memory with the glyph table loaded and every other byte zero.
    pub fn init() -> (r: RAM)
        ensures
            r@ == initial_memory(),
    {
        let glyphs = glyph_table();
        let mut memory = [0u8; RAM_SIZE];
        let mut i: usize = 0;
        while i < FONTSET_SIZE
            invariant
                i <= FONTSET_SIZE,
                glyphs@ == font_glyphs(),
                forall|a: int|
                    0 <= a < RAM_SIZE ==> #[trigger] memory@[a] == (if FONTSET_START_ADDRESS <= a
                        < FONTSET_START_ADDRESS + i {
                        font_glyphs()[a - FONTSET_START_ADDRESS]
                    } else {
                        0u8
                    }),
            decreases FONTSET_SIZE - i,
        {
            memory[FONTSET_START_ADDRESS as usize + i] = glyphs[i];
            i = i + 1;
        }
        let r = RAM { memory };
        assert(r@ =~= initial_memory());
        r
    }

    /// The byte at `addr`, wrapped into range.
    pub fn read_byte(&self, addr: u16) -> (b: u8)
        ensures
            b == self@[cell(addr as int)],
    {
        self.memory[addr as usize % RAM_SIZE]
    }

    /// Stores `value` at `addr`, wrapped into range.
    pub fn write_byte(&mut self, addr: u16, value: u8)
        ensures
            final(self)@ == old(self)@.update(cell(addr as int), value),
    {
        self.memory[addr as usize % RAM_SIZE] = value;
    }
}

} // verus!
