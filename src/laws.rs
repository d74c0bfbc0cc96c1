//! Facts about the instruction set that hold for every machine.
use vstd::prelude::*;
use crate::cpu::{CpuState, STACK_TOP};
use crate::display::{blank_video, canonical_video};
use crate::ram::{cell, RAM_SIZE};
use crate::semantics::{
    covers, draw_collides, drawn_pixel, execute, fetch_opcode, is_known_opcode,
    lemma_op_fields, lemma_pixel_index, op_group, op_kk, op_n, op_nnn, op_x, op_y, pixel_index,
    sprite_bit, sprite_col, sprite_row, step, Machine, FLAG_REG,
};

verus! {

/// A pixel flipped by a sprite bit stays 0 or 1.
proof fn lemma_flip_canonical(pixel: u32, byte: u8, shift: u32)
    requires
        pixel <= 1,
    ensures
        pixel ^ ((((byte as u32) >> shift) & 1)) <= 1,
        (((byte as u32) >> shift) & 1) <= 1,
{
    assert(pixel <= 1 ==> pixel ^ ((((byte as u32) >> shift) & 1)) <= 1) by (bit_vector);
    assert((((byte as u32) >> shift) & 1) <= 1) by (bit_vector);
}

/// Every instruction keeps the machine well formed: in particular the stack
/// pointer never leaves the stack, whatever the program does. A framebuffer
/// whose pixels are all 0 or 1 stays so.
pub proof fn lemma_execute_preserves_wf(m: Machine, op: u16, random: u8)
    requires
        m.wf(),
    ensures
        execute(m, op, random).wf(),
        canonical_video(m.bus.video) ==> canonical_video(execute(m, op, random).bus.video),
{
    lemma_op_fields(op);
    let m1 = execute(m, op, random);
    if op_group(op) == 0xD && canonical_video(m.bus.video) {
        let c = m.cpu;
        let x0 = c.v[op_x(op) as int];
        let y0 = c.v[op_y(op) as int];
        let n = op_n(op) as int;
        assert forall|p: int| 0 <= p < m1.bus.video.len() implies #[trigger] m1.bus.video[p] <= 1 by {
            let row = sprite_row(y0, p);
            let col = sprite_col(x0, p);
            lemma_flip_canonical(m.bus.video[p], m.bus.ram[cell(c.i + row)], (7 - col) as u32);
        }
    }
    if op_group(op) == 0 && op == 0x00E0 {
        assert(canonical_video(blank_video()));
    }
}

/// One fetch-decode-execute cycle keeps the machine well formed.
pub proof fn lemma_step_preserves_wf(m: Machine, random: u8)
    requires
        m.wf(),
    ensures
        step(m, random).wf(),
        canonical_video(m.bus.video) ==> canonical_video(step(m, random).bus.video),
{
    let fetched = m.with_cpu(m.cpu.with_pc(m.cpu.pc.wrapping_add(2)));
    lemma_execute_preserves_wf(fetched, fetch_opcode(m), random);
}

/// Loading an immediate byte into any register leaves exactly that byte there.
pub proof fn lemma_load_immediate(m: Machine, x: u8, kk: u8, random: u8)
    requires
        m.wf(),
        x < 16,
    ensures
        execute(m, 0x6000u16 | ((x as u16) << 8) | (kk as u16), random).cpu.v[x as int] == kk,
{
    let op = 0x6000u16 | ((x as u16) << 8) | (kk as u16);
    assert(op_group(op) == 6 && op_x(op) == x && op_kk(op) == kk) by (bit_vector)
        requires
            x < 16,
            op == 0x6000u16 | ((x as u16) << 8) | (kk as u16),
    ;
}

/// A call pushes the address it returns to and jumps; the matching return
/// comes back to that address with the stack pointer where it was. This holds
/// while the stack has room: a call with the stack full pushes nothing.
pub proof fn lemma_call_return(m: Machine, nnn: u16, random: u8)
    requires
        m.wf(),
        nnn < 4096,
        m.cpu.sp < STACK_TOP,
    ensures
        ({
            let called = execute(m, 0x2000u16 | nnn, random);
            let returned = execute(called, 0x00EE, random);
            &&& called.cpu.pc == nnn
            &&& called.cpu.sp == m.cpu.sp + 1
            &&& called.cpu.stack[called.cpu.sp as int] == m.cpu.pc
            &&& returned.cpu == (CpuState { stack: called.cpu.stack, ..m.cpu })
            &&& returned.bus == m.bus
        }),
{
    let op = 0x2000u16 | nnn;
    assert(op_group(op) == 2 && op_nnn(op) == nnn) by (bit_vector)
        requires
            nnn < 4096,
            op == 0x2000u16 | nnn,
    ;
    assert(op_group(0x00EE) == 0) by (bit_vector);
}

/// The skip-if-equal forms (`3xkk` against the immediate byte, `5xy0`
/// against register `y`) move the program counter on by two more bytes when
/// the operands are equal and leave it where it is otherwise; nothing else
/// changes.
pub proof fn lemma_skip_if_equal(m: Machine, op: u16, random: u8)
    requires
        m.wf(),
        op_group(op) == 3 || (op_group(op) == 5 && op_n(op) == 0),
    ensures
        ({
            let vx = m.cpu.v[op_x(op) as int];
            let other = if op_group(op) == 3 { op_kk(op) } else { m.cpu.v[op_y(op) as int] };
            let after = execute(m, op, random);
            &&& after.cpu.pc == if vx == other { m.cpu.pc.wrapping_add(2) } else { m.cpu.pc }
            &&& after == m.with_cpu(m.cpu.with_pc(after.cpu.pc))
        }),
{
}

/// Whether the `n` sprite rows from address `i` are all zero.
pub open spec fn sprite_blank(ram: Seq<u8>, i: u16, n: int) -> bool {
    forall|row: int| 0 <= row < n ==> #[trigger] ram[cell(i + row)] == 0
}

/// Drawing the same sprite twice at the same place gives back the
/// framebuffer it started from: every pixel is flipped twice. "The same
/// place" asks that neither coordinate register be the flag register, which
/// the first draw may change.
pub proof fn lemma_draw_twice_restores(m: Machine, op: u16, random: u8)
    requires
        m.wf(),
        op_group(op) == 0xD,
        op_x(op) != FLAG_REG,
        op_y(op) != FLAG_REG,
    ensures
        execute(execute(m, op, random), op, random).bus.video == m.bus.video,
{
    lemma_op_fields(op);
    let m1 = execute(m, op, random);
    let m2 = execute(m1, op, random);
    let c = m.cpu;
    let x0 = c.v[op_x(op) as int];
    let y0 = c.v[op_y(op) as int];
    let n = op_n(op) as int;
    assert(m1.cpu.v[op_x(op) as int] == x0 && m1.cpu.v[op_y(op) as int] == y0);
    assert forall|p: int| 0 <= p < m.bus.video.len() implies #[trigger] m2.bus.video[p]
        == m.bus.video[p] by {
        if covers(x0, y0, n, p) {
            let a = m.bus.video[p];
            let b = sprite_bit(m.bus.ram, c.i, x0, y0, p);
            assert((a ^ b) ^ b == a) by (bit_vector);
        }
    }
    assert(m2.bus.video =~= m.bus.video);
}

/// A sprite byte with any bit set has a set bit among the eight that the
/// draw reads, and a set bit means a nonzero byte.
proof fn lemma_byte_bits(byte: u8)
    ensures
        byte != 0 <==> exists|col: int|
            0 <= col < 8 && #[trigger] (((byte as u32) >> ((7 - col) as u32)) & 1) == 1,
{
    let b = byte as u32;
    assert(b != 0 ==> (b >> 7u32) & 1 == 1 || (b >> 6u32) & 1 == 1 || (b >> 5u32) & 1 == 1 || (b
        >> 4u32) & 1 == 1 || (b >> 3u32) & 1 == 1 || (b >> 2u32) & 1 == 1 || (b >> 1u32) & 1 == 1
        || (b >> 0u32) & 1 == 1) by (bit_vector)
        requires
            b < 256,
    ;
    assert forall|s: u32| s < 8 && #[trigger] ((b >> s) & 1) == 1 implies b != 0 by {
        assert(s < 8 && (b >> s) & 1 == 1 ==> b != 0) by (bit_vector);
    }
    if byte != 0 {
        if (b >> 7u32) & 1 == 1 {
            assert((((byte as u32) >> ((7 - 0int) as u32)) & 1) == 1);
        } else if (b >> 6u32) & 1 == 1 {
            assert((((byte as u32) >> ((7 - 1int) as u32)) & 1) == 1);
        } else if (b >> 5u32) & 1 == 1 {
            assert((((byte as u32) >> ((7 - 2int) as u32)) & 1) == 1);
        } else if (b >> 4u32) & 1 == 1 {
            assert((((byte as u32) >> ((7 - 3int) as u32)) & 1) == 1);
        } else if (b >> 3u32) & 1 == 1 {
            assert((((byte as u32) >> ((7 - 4int) as u32)) & 1) == 1);
        } else if (b >> 2u32) & 1 == 1 {
            assert((((byte as u32) >> ((7 - 5int) as u32)) & 1) == 1);
        } else if (b >> 1u32) & 1 == 1 {
            assert((((byte as u32) >> ((7 - 6int) as u32)) & 1) == 1);
        } else {
            assert((((byte as u32) >> ((7 - 7int) as u32)) & 1) == 1);
        }
    }
}

/// On a blank framebuffer a sprite lights exactly its set bits, so the flag
/// register goes to 1 exactly when the sprite has a set bit; a blank sprite
/// leaves the flag register as it was.
pub proof fn lemma_draw_on_blank(m: Machine, op: u16, random: u8)
    requires
        m.wf(),
        op_group(op) == 0xD,
        m.bus.video == blank_video(),
    ensures
        execute(m, op, random).cpu == if sprite_blank(m.bus.ram, m.cpu.i, op_n(op) as int) {
            m.cpu
        } else {
            m.cpu.with_reg(FLAG_REG as int, 1)
        },
{
    lemma_op_fields(op);
    let c = m.cpu;
    let ram = m.bus.ram;
    let video = m.bus.video;
    let x0 = c.v[op_x(op) as int];
    let y0 = c.v[op_y(op) as int];
    let n = op_n(op) as int;
    if sprite_blank(ram, c.i, n) {
        if draw_collides(video, ram, c.i, x0, y0, n) {
            let p = choose|p: int|
                0 <= p < video.len() && covers(x0, y0, n, p) && #[trigger] drawn_pixel(
                    video,
                    ram,
                    c.i,
                    x0,
                    y0,
                    n,
                    p,
                ) == 1;
            let row = sprite_row(y0, p);
            let byte = ram[cell(c.i + row)];
            assert(byte == 0);
            lemma_byte_bits(byte);
            assert(video[p] == 0);
            let sb = sprite_bit(ram, c.i, x0, y0, p);
            assert(0u32 ^ sb == sb) by (bit_vector);
        }
    } else {
        let row = choose|row: int| 0 <= row < n && #[trigger] ram[cell(c.i + row)] != 0;
        let byte = ram[cell(c.i + row)];
        lemma_byte_bits(byte);
        let col = choose|col: int|
            0 <= col < 8 && #[trigger] (((byte as u32) >> ((7 - col) as u32)) & 1) == 1;
        lemma_pixel_index(x0, y0, row, col);
        let p = pixel_index(x0, y0, row, col);
        assert(video[p] == 0);
        let sb = sprite_bit(ram, c.i, x0, y0, p);
        assert(0u32 ^ sb == sb) by (bit_vector);
        assert(drawn_pixel(video, ram, c.i, x0, y0, n, p) == 1);
    }
}

/// On a blank framebuffer, drawing a sprite with a set bit twice at the same
/// place leaves the framebuffer blank again with the flag register at 1.
pub proof fn lemma_draw_twice_on_blank(m: Machine, op: u16, random: u8)
    requires
        m.wf(),
        op_group(op) == 0xD,
        op_x(op) != FLAG_REG,
        op_y(op) != FLAG_REG,
        m.bus.video == blank_video(),
        !sprite_blank(m.bus.ram, m.cpu.i, op_n(op) as int),
    ensures
        execute(execute(m, op, random), op, random).bus.video == blank_video(),
        execute(execute(m, op, random), op, random).cpu.v[FLAG_REG as int] == 1,
{
    lemma_op_fields(op);
    lemma_draw_on_blank(m, op, random);
    lemma_draw_twice_restores(m, op, random);
}

/// Storing registers `0..=x` writes `x + 1` bytes, register `x` included, at
/// the address register onward, and no other byte.
pub proof fn lemma_store_registers_inclusive(m: Machine, x: u8, random: u8)
    requires
        m.wf(),
        x < 16,
    ensures
        ({
            let after = execute(m, 0xF055u16 | ((x as u16) << 8), random);
            &&& forall|k: int|
                0 <= k <= x ==> #[trigger] after.bus.ram[cell(m.cpu.i + k)] == m.cpu.v[k]
            &&& forall|a: int|
                0 <= a < RAM_SIZE && (a - m.cpu.i) % (RAM_SIZE as int) > x ==> #[trigger] after.bus.ram[a]
                    == m.bus.ram[a]
            &&& after.cpu == m.cpu
        }),
{
    let op = 0xF055u16 | ((x as u16) << 8);
    assert(op_group(op) == 0xF && op_x(op) == x && op_kk(op) == 0x55) by (bit_vector)
        requires
            x < 16,
            op == 0xF055u16 | ((x as u16) << 8),
    ;
    let after = execute(m, op, random);
    assert forall|k: int| 0 <= k <= x implies #[trigger] after.bus.ram[cell(m.cpu.i + k)]
        == m.cpu.v[k] by {
        let a = cell(m.cpu.i + k);
        assert((a - m.cpu.i) % (RAM_SIZE as int) == k);
    }
}

/// Loading registers `0..=x` fills `x + 1` registers, register `x` included,
/// from the address register onward, and leaves the others alone.
pub proof fn lemma_load_registers_inclusive(m: Machine, x: u8, random: u8)
    requires
        m.wf(),
        x < 16,
    ensures
        ({
            let after = execute(m, 0xF065u16 | ((x as u16) << 8), random);
            &&& forall|k: int| 0 <= k <= x ==> #[trigger] after.cpu.v[k] == m.bus.ram[cell(m.cpu.i + k)]
            &&& forall|k: int| x < k < 16 ==> #[trigger] after.cpu.v[k] == m.cpu.v[k]
            &&& after.bus == m.bus
        }),
{
    let op = 0xF065u16 | ((x as u16) << 8);
    assert(op_group(op) == 0xF && op_x(op) == x && op_kk(op) == 0x65) by (bit_vector)
        requires
            x < 16,
            op == 0xF065u16 | ((x as u16) << 8),
    ;
}

/// An opcode outside the instruction set changes nothing.
pub proof fn lemma_unknown_opcode(m: Machine, op: u16, random: u8)
    requires
        !is_known_opcode(op),
    ensures
        execute(m, op, random) == m,
{
}

/// A cycle that fetches an opcode outside the instruction set only moves the
/// program counter past it.
pub proof fn lemma_unknown_opcode_step(m: Machine, random: u8)
    requires
        !is_known_opcode(fetch_opcode(m)),
    ensures
        step(m, random) == m.with_cpu(m.cpu.with_pc(m.cpu.pc.wrapping_add(2))),
{
}

} // verus!
