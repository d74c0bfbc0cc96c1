//! What each instruction does, stated over plain values: the machine as a
//! `Machine` of registers, memory, framebuffer and keypad, and one
//! instruction as a function from machine to machine.
use vstd::prelude::*;
use crate::bus::{BusState, KEY_COUNT};
use crate::cpu::{CpuState, EXECUTION_INDEX, STACK_TOP};
use crate::display::{blank_video, DISPLAY_HEIGHT, DISPLAY_SIZE, DISPLAY_WIDTH};
use crate::ram::{cell, FONTSET_START_ADDRESS, RAM_SIZE};

verus! {

/// Index of the flag register.
pub const FLAG_REG: u8 = 15;

/// The whole machine as plain values.
pub struct Machine {
    pub cpu: CpuState,
    pub bus: BusState,
}

impl Machine {
    /// Every part has its fixed size and the stack pointer is in range.
    pub open spec fn wf(self) -> bool {
        &&& self.cpu.wf()
        &&& self.bus.ram.len() == RAM_SIZE
        &&& self.bus.video.len() == DISPLAY_SIZE
        &&& self.bus.keys.len() == KEY_COUNT
    }

    pub open spec fn with_cpu(self, cpu: CpuState) -> Machine {
        Machine { cpu, ..self }
    }

    pub open spec fn with_ram(self, ram: Seq<u8>) -> Machine {
        Machine { bus: BusState { ram, ..self.bus }, ..self }
    }

    pub open spec fn with_video(self, video: Seq<u32>) -> Machine {
        Machine { bus: BusState { video, ..self.bus }, ..self }
    }
}

// Opcode fields.

/// Bits 12-15: the instruction group.
pub open spec fn op_group(op: u16) -> u16 {
    (op & 0xF000) >> 12
}

/// Bits 8-11: the first register operand.
pub open spec fn op_x(op: u16) -> u8 {
    ((op & 0x0F00) >> 8) as u8
}

/// Bits 4-7: the second register operand.
pub open spec fn op_y(op: u16) -> u8 {
    ((op & 0x00F0) >> 4) as u8
}

/// Bits 0-7: the immediate byte.
pub open spec fn op_kk(op: u16) -> u8 {
    (op & 0x00FF) as u8
}

/// Bits 0-11: the address operand.
pub open spec fn op_nnn(op: u16) -> u16 {
    op & 0x0FFF
}

/// Bits 0-3: the low nibble.
pub open spec fn op_n(op: u16) -> u8 {
    (op & 0x000F) as u8
}

pub proof fn lemma_op_fields(op: u16)
    ensures
        op_group(op) < 16,
        op_x(op) < 16,
        op_y(op) < 16,
        op_n(op) < 16,
        op_nnn(op) < 4096,
{
    assert(((op & 0xF000) >> 12) < 16) by (bit_vector);
    assert((((op & 0x0F00) >> 8) as u8) < 16) by (bit_vector);
    assert((((op & 0x00F0) >> 4) as u8) < 16) by (bit_vector);
    assert(((op & 0x000F) as u8) < 16) by (bit_vector);
    assert((op & 0x0FFF) < 4096) by (bit_vector);
}

/// The random instruction is the one whose top nibble is `0xC`.
pub proof fn lemma_random_group(op: u16)
    ensures
        ((op & 0xF000) == 0xC000) == (op_group(op) == 0xC),
{
    assert(((op & 0xF000) == 0xC000) == (((op & 0xF000) >> 12) == 0xC)) by (bit_vector);
}

/// Two bytes put together high byte first.
pub proof fn lemma_opcode_bytes(hi: u8, lo: u8)
    ensures
        ((hi as u16) << 8) | (lo as u16) == (hi * 256 + lo) as u16,
{
    assert(((hi as u16) << 8) | (lo as u16) == (hi as u16) * 256 + (lo as u16)) by (bit_vector);
}

/// Whether `op` is one of the thirty-five instructions of the set.
pub open spec fn is_known_opcode(op: u16) -> bool {
    let n = op_n(op);
    let kk = op_kk(op);
    match op_group(op) {
        0x0 => op == 0x00E0 || op == 0x00EE,
        0x5 => n == 0,
        0x8 => n <= 7 || n == 0xE,
        0x9 => n == 0,
        0xE => kk == 0x9E || kk == 0xA1,
        0xF => kk == 0x07 || kk == 0x0A || kk == 0x15 || kk == 0x18 || kk == 0x1E || kk == 0x29
            || kk == 0x33 || kk == 0x55 || kk == 0x65,
        _ => true,
    }
}

// Register-file helpers.

/// The instruction after the next one: the program counter moved on by two
/// more bytes when `cond` holds.
pub open spec fn skip_if(c: CpuState, cond: bool) -> CpuState {
    if cond {
        c.with_pc(c.pc.wrapping_add(2))
    } else {
        c
    }
}

/// `result` written to register `x`, then `flag` to the flag register, so
/// that the flag wins when `x` is the flag register itself.
pub open spec fn with_result_and_flag(c: CpuState, x: int, result: u8, flag: u8) -> CpuState {
    c.with_reg(x, result).with_reg(FLAG_REG as int, flag)
}

// Group 8: register-to-register arithmetic and logic.

pub open spec fn exec_alu(c: CpuState, op: u16) -> CpuState {
    let x = op_x(op) as int;
    let vx = c.v[x];
    let vy = c.v[op_y(op) as int];
    match op_n(op) {
        0x0 => c.with_reg(x, vy),
        0x1 => c.with_reg(x, vx | vy),
        0x2 => c.with_reg(x, vx & vy),
        0x3 => c.with_reg(x, vx ^ vy),
        0x4 => with_result_and_flag(c, x, vx.wrapping_add(vy), if vx + vy > 255 { 1 } else { 0 }),
        0x5 => with_result_and_flag(c, x, vx.wrapping_sub(vy), if vx >= vy { 1 } else { 0 }),
        0x6 => with_result_and_flag(c, x, vx >> 1, vx & 1),
        0x7 => with_result_and_flag(c, x, vy.wrapping_sub(vx), if vy >= vx { 1 } else { 0 }),
        0xE => with_result_and_flag(c, x, vx << 1, vx >> 7),
        _ => c,
    }
}

// Group 0: clear screen and return.

pub open spec fn exec_system(m: Machine, op: u16) -> Machine {
    let c = m.cpu;
    if op == 0x00E0 {
        m.with_video(blank_video())
    } else if op == 0x00EE {
        m.with_cpu(
            CpuState {
                pc: c.stack[c.sp as int],
                sp: if c.sp > 0 { (c.sp - 1) as u8 } else { 0 },
                ..c
            },
        )
    } else {
        m
    }
}

/// Group 2: the return address goes on the stack, unless the stack is full,
/// and execution continues at `nnn`.
pub open spec fn exec_call(c: CpuState, op: u16) -> CpuState {
    if c.sp < STACK_TOP {
        let sp = (c.sp + 1) as u8;
        CpuState { sp, stack: c.stack.update(sp as int, c.pc), pc: op_nnn(op), ..c }
    } else {
        c.with_pc(op_nnn(op))
    }
}

// Group D: sprites.

/// Column of the sprite drawn with its left edge at `x0` that lands on pixel
/// `p`, counting with wraparound; any value from 8 on means that no column does.
pub open spec fn sprite_col(x0: u8, p: int) -> int {
    (p % (DISPLAY_WIDTH as int) - x0) % (DISPLAY_WIDTH as int)
}

/// Row of the sprite drawn with its top edge at `y0` that lands on pixel `p`,
/// counting with wraparound.
pub open spec fn sprite_row(y0: u8, p: int) -> int {
    (p / (DISPLAY_WIDTH as int) - y0) % (DISPLAY_HEIGHT as int)
}

/// The pixel that column `col` of row `row` of a sprite drawn at (`x0`, `y0`)
/// lands on.
pub open spec fn pixel_index(x0: u8, y0: u8, row: int, col: int) -> int {
    (x0 + col) % (DISPLAY_WIDTH as int) + ((y0 + row) % (DISPLAY_HEIGHT as int)) * (DISPLAY_WIDTH as int)
}

/// Each row and column of a sprite lands on exactly one pixel, and that pixel
/// maps back to the same row and column.
pub proof fn lemma_pixel_index(x0: u8, y0: u8, row: int, col: int)
    requires
        0 <= row < DISPLAY_HEIGHT,
        0 <= col < DISPLAY_WIDTH,
    ensures
        0 <= pixel_index(x0, y0, row, col) < DISPLAY_SIZE,
        sprite_col(x0, pixel_index(x0, y0, row, col)) == col,
        sprite_row(y0, pixel_index(x0, y0, row, col)) == row,
        forall|p: int|
            0 <= p < DISPLAY_SIZE && sprite_col(x0, p) == col && sprite_row(y0, p) == row ==> p
                == pixel_index(x0, y0, row, col),
{
    let a = (x0 + col) % 64;
    let b = (y0 + row) % 32;
    let p0 = a + b * 64;
    assert(p0 % 64 == a && p0 / 64 == b) by (nonlinear_arith)
        requires
            0 <= a < 64,
            0 <= b < 32,
            p0 == a + b * 64,
    ;
    assert forall|p: int|
        0 <= p < DISPLAY_SIZE && sprite_col(x0, p) == col && sprite_row(y0, p) == row implies p
            == p0 by {
        let a1 = p % 64;
        let b1 = p / 64;
        assert(p == a1 + b1 * 64 && 0 <= a1 < 64 && 0 <= b1 < 32) by (nonlinear_arith)
            requires
                0 <= p < 2048,
                a1 == p % 64,
                b1 == p / 64,
        ;
    }
}

/// Whether a sprite of `n` rows drawn at (`x0`, `y0`) lands on pixel `p`.
pub open spec fn covers(x0: u8, y0: u8, n: int, p: int) -> bool {
    sprite_col(x0, p) < 8 && sprite_row(y0, p) < n
}

/// The sprite's bit for pixel `p`: the sprite rows are the bytes from address
/// `i` on, and the leftmost pixel of a row is its most significant bit.
pub open spec fn sprite_bit(ram: Seq<u8>, i: u16, x0: u8, y0: u8, p: int) -> u32 {
    let row = sprite_row(y0, p);
    let col = sprite_col(x0, p);
    ((ram[cell(i + row)] as u32) >> ((7 - col) as u32)) & 1
}

/// Pixel `p` once the sprite is drawn: flipped where the sprite's bit is 1.
pub open spec fn drawn_pixel(video: Seq<u32>, ram: Seq<u8>, i: u16, x0: u8, y0: u8, n: int, p: int) -> u32 {
    if covers(x0, y0, n, p) {
        video[p] ^ sprite_bit(ram, i, x0, y0, p)
    } else {
        video[p]
    }
}

/// The framebuffer once an `n`-row sprite from address `i` is drawn at (`x0`, `y0`).
pub open spec fn draw_video(video: Seq<u32>, ram: Seq<u8>, i: u16, x0: u8, y0: u8, n: int) -> Seq<u32> {
    Seq::new(video.len(), |p: int| drawn_pixel(video, ram, i, x0, y0, n, p))
}

/// Whether some pixel that the sprite lands on is lit once it is drawn.
pub open spec fn draw_collides(video: Seq<u32>, ram: Seq<u8>, i: u16, x0: u8, y0: u8, n: int) -> bool {
    exists|p: int|
        0 <= p < video.len() && covers(x0, y0, n, p) && #[trigger] drawn_pixel(video, ram, i, x0, y0, n, p)
            == 1
}

pub open spec fn exec_draw(m: Machine, op: u16) -> Machine {
    let c = m.cpu;
    let x0 = c.v[op_x(op) as int];
    let y0 = c.v[op_y(op) as int];
    let n = op_n(op) as int;
    let video = m.bus.video;
    let ram = m.bus.ram;
    let m1 = m.with_video(draw_video(video, ram, c.i, x0, y0, n));
    if draw_collides(video, ram, c.i, x0, y0, n) {
        m1.with_cpu(c.with_reg(FLAG_REG as int, 1))
    } else {
        m1
    }
}

// Group E: keypad.

/// Whether key `k` exists and is held down.
pub open spec fn key_down(keys: Seq<bool>, k: int) -> bool {
    0 <= k < KEY_COUNT && keys[k]
}

pub open spec fn exec_keys(c: CpuState, keys: Seq<bool>, op: u16) -> CpuState {
    let pressed = key_down(keys, c.v[op_x(op) as int] as int);
    if op_kk(op) == 0x9E {
        skip_if(c, pressed)
    } else if op_kk(op) == 0xA1 {
        skip_if(c, !pressed)
    } else {
        c
    }
}

// Group F: timers, address register, memory transfers.

/// The lowest held-down key from `k` on, or `KEY_COUNT` when there is none.
pub open spec fn first_pressed(keys: Seq<bool>, k: int) -> int
    decreases KEY_COUNT - k,
{
    if k >= KEY_COUNT {
        KEY_COUNT as int
    } else if keys[k] {
        k
    } else {
        first_pressed(keys, k + 1)
    }
}

/// Memory with the decimal digits of `value` stored at `i`, `i + 1`, `i + 2`,
/// most significant first.
pub open spec fn bcd_stored(ram: Seq<u8>, i: u16, value: u8) -> Seq<u8> {
    ram.update(cell(i as int), value / 100).update(cell(i + 1), (value / 10) % 10).update(
        cell(i + 2),
        value % 10,
    )
}

/// Memory with registers `0..=x` stored at `i`, `i + 1`, ..., `i + x`.
pub open spec fn regs_stored(ram: Seq<u8>, v: Seq<u8>, i: u16, x: int) -> Seq<u8> {
    Seq::new(
        ram.len(),
        |a: int|
            {
                let k = (a - i) % (RAM_SIZE as int);
                if k <= x {
                    v[k]
                } else {
                    ram[a]
                }
            },
    )
}

/// Registers `0..=x` loaded from `i`, `i + 1`, ..., `i + x`; the others kept.
pub open spec fn regs_loaded(ram: Seq<u8>, v: Seq<u8>, i: u16, x: int) -> Seq<u8> {
    Seq::new(v.len(), |k: int| if k <= x { ram[cell(i + k)] } else { v[k] })
}

pub open spec fn exec_misc(m: Machine, op: u16) -> Machine {
    let c = m.cpu;
    let x = op_x(op) as int;
    let vx = c.v[x];
    let kk = op_kk(op);
    if kk == 0x07 {
        m.with_cpu(c.with_reg(x, c.delay))
    } else if kk == 0x0A {
        let k = first_pressed(m.bus.keys, 0);
        if k < KEY_COUNT {
            m.with_cpu(c.with_reg(x, k as u8))
        } else {
            m.with_cpu(c.with_pc(c.pc.wrapping_sub(2)))
        }
    } else if kk == 0x15 {
        m.with_cpu(CpuState { delay: vx, ..c })
    } else if kk == 0x18 {
        m.with_cpu(CpuState { sound: vx, ..c })
    } else if kk == 0x1E {
        m.with_cpu(CpuState { i: c.i.wrapping_add(vx as u16), ..c })
    } else if kk == 0x29 {
        m.with_cpu(CpuState { i: (FONTSET_START_ADDRESS + 5 * vx) as u16, ..c })
    } else if kk == 0x33 {
        m.with_ram(bcd_stored(m.bus.ram, c.i, vx))
    } else if kk == 0x55 {
        m.with_ram(regs_stored(m.bus.ram, c.v, c.i, x))
    } else if kk == 0x65 {
        m.with_cpu(CpuState { v: regs_loaded(m.bus.ram, c.v, c.i, x), ..c })
    } else {
        m
    }
}

/// The machine after executing `op`, with `random` as the byte that the
/// random instruction draws. The program counter has already moved past `op`.
pub open spec fn execute(m: Machine, op: u16, random: u8) -> Machine {
    let c = m.cpu;
    let x = op_x(op) as int;
    let vx = c.v[x];
    let vy = c.v[op_y(op) as int];
    let kk = op_kk(op);
    match op_group(op) {
        0x0 => exec_system(m, op),
        0x1 => m.with_cpu(c.with_pc(op_nnn(op))),
        0x2 => m.with_cpu(exec_call(c, op)),
        0x3 => m.with_cpu(skip_if(c, vx == kk)),
        0x4 => m.with_cpu(skip_if(c, vx != kk)),
        0x5 => if op_n(op) == 0 { m.with_cpu(skip_if(c, vx == vy)) } else { m },
        0x6 => m.with_cpu(c.with_reg(x, kk)),
        0x7 => m.with_cpu(c.with_reg(x, vx.wrapping_add(kk))),
        0x8 => m.with_cpu(exec_alu(c, op)),
        0x9 => if op_n(op) == 0 { m.with_cpu(skip_if(c, vx != vy)) } else { m },
        0xA => m.with_cpu(CpuState { i: op_nnn(op), ..c }),
        0xB => m.with_cpu(c.with_pc((c.v[0] + op_nnn(op)) as u16)),
        0xC => m.with_cpu(c.with_reg(x, random & kk)),
        0xD => exec_draw(m, op),
        0xE => m.with_cpu(exec_keys(c, m.bus.keys, op)),
        _ => exec_misc(m, op),
    }
}

/// The opcode at the program counter: two bytes, the first one high.
pub open spec fn fetch_opcode(m: Machine) -> u16 {
    (m.bus.ram[cell(m.cpu.pc as int)] * 256 + m.bus.ram[cell(m.cpu.pc + 1)]) as u16
}

/// Memory with a program image written from the load address on.
pub open spec fn rom_loaded(ram: Seq<u8>, data: Seq<u8>) -> Seq<u8> {
    Seq::new(
        ram.len(),
        |a: int|
            if EXECUTION_INDEX <= a < EXECUTION_INDEX + data.len() {
                data[a - EXECUTION_INDEX]
            } else {
                ram[a]
            },
    )
}

/// The delay and sound timers each counted down by one, stopping at zero.
pub open spec fn timers_ticked(c: CpuState) -> CpuState {
    CpuState {
        delay: if c.delay > 0 { (c.delay - 1) as u8 } else { 0 },
        sound: if c.sound > 0 { (c.sound - 1) as u8 } else { 0 },
        ..c
    }
}

/// One fetch-decode-execute cycle.
pub open spec fn step(m: Machine, random: u8) -> Machine {
    let fetched = m.with_cpu(m.cpu.with_pc(m.cpu.pc.wrapping_add(2)));
    execute(fetched, fetch_opcode(m), random)
}

} // verus!
