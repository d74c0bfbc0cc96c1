//! The engine: one owned machine, stepped one instruction at a time.
use vstd::prelude::*;
use rand::Rng;
use crate::bus::{Bus, BusState, KEY_COUNT};
use crate::cpu::{CpuState, CPU, EXECUTION_INDEX};
use crate::display::{DISPLAY_HEIGHT, DISPLAY_SIZE, DISPLAY_WIDTH};
use crate::ram::{cell, lemma_cell_wrapping_add, FONTSET_START_ADDRESS, RAM_SIZE};
use crate::semantics::{
    bcd_stored, covers, draw_collides, draw_video, drawn_pixel, exec_alu, exec_call, exec_draw,
    exec_keys, exec_misc, exec_system, execute, fetch_opcode, first_pressed, is_known_opcode,
    lemma_op_fields, lemma_opcode_bytes, lemma_pixel_index, lemma_random_group, op_group,
    pixel_index, regs_loaded, regs_stored, rom_loaded, sprite_bit, sprite_col, sprite_row, step,
    timers_ticked, FLAG_REG, Machine,
};

verus! {

/// Instructions issued per second by the pacing loop.
pub const INSTRUCTIONS_PER_SECOND: u32 = 500;

/// Whether the draw loop, standing at row `row` and column `col`, has already
/// passed over pixel `p`.
spec fn drawn_before(x0: u8, y0: u8, row: int, col: int, p: int) -> bool {
    let r = sprite_row(y0, p);
    let c = sprite_col(x0, p);
    c < 8 && (r < row || (r == row && c < col))
}

/// Pixel `p` with the sprite's bit for it applied.
spec fn flipped(video: Seq<u32>, ram: Seq<u8>, i: u16, x0: u8, y0: u8, p: int) -> u32 {
    video[p] ^ sprite_bit(ram, i, x0, y0, p)
}

/// Pixel `p` as the draw loop leaves it at row `row`, column `col`.
spec fn partly_drawn(video: Seq<u32>, ram: Seq<u8>, i: u16, x0: u8, y0: u8, row: int, col: int, p: int) -> u32 {
    if drawn_before(x0, y0, row, col, p) {
        flipped(video, ram, i, x0, y0, p)
    } else {
        video[p]
    }
}

/// Whether some pixel that the draw loop has passed over is lit.
spec fn lit_before(video: Seq<u32>, ram: Seq<u8>, i: u16, x0: u8, y0: u8, row: int, col: int) -> bool {
    exists|p: int|
        0 <= p < DISPLAY_SIZE && drawn_before(x0, y0, row, col, p) && #[trigger] flipped(
            video,
            ram,
            i,
            x0,
            y0,
            p,
        ) == 1
}

/// Whether the pacing loop should run, hold, or stop.
#[allow(non_camel_case_types)]
#[derive(PartialEq, Eq, Structural, Clone, Copy, Debug)]
pub enum EmulatorState {
    Quit,
    Running,
    PAUSED,
}

/// Relies on `rand::thread_rng` and `Rng::gen_range` over `0..=255`, a range
/// that is never empty: any byte may come back. The thread's generator is
/// seeded from the operating system on first use and panics if that fails.
#[verifier::external_body]
fn gen_random_byte() -> (r: u8) {
    let mut rng = rand::thread_rng();
    rng.gen_range(0..=255)
}

/// The machine together with the pacing loop's run state.
pub struct Chip8 {
    pub cpu: CPU,
    pub bus: Bus,
    pub state: EmulatorState,
}

impl View for Chip8 {
    type V = Machine;

    open spec fn view(&self) -> Machine {
        Machine { cpu: self.cpu@, bus: self.bus@ }
    }
}

/// The machine at power-on.
pub open spec fn initial_machine() -> Machine {
    Machine {
        cpu: CpuState::initial(),
        bus: BusState {
            ram: crate::ram::initial_memory(),
            video: crate::display::blank_video(),
            keys: Seq::new(KEY_COUNT as nat, |k: int| false),
        },
    }
}

impl Chip8 {
    /// A machine at power-on: glyphs loaded, program counter at the load
    /// address, all else zero.
    pub fn init() -> (r: Chip8)
        ensures
            r@ == initial_machine(),
            r.state == EmulatorState::Running,
    {
        Chip8 { cpu: CPU::init(), bus: Bus::init(), state: EmulatorState::Running }
    }

    pub fn change_state(&mut self, state: EmulatorState)
        ensures
            final(self)@ == old(self)@,
            final(self).state == state,
    {
        self.state = state
    }

    /// All pixels, row after row.
    pub fn get_video_buffer(&self) -> (r: &[u32])
        ensures
            r@ == self@.bus.video,
    {
        self.bus.display_get_buffer()
    }

    /// Group 8: arithmetic and logic between two registers.
    fn exec_alu_op(&mut self, opcode: u16)
        requires
            op_group(opcode) == 8,
        ensures
            final(self)@ == old(self)@.with_cpu(exec_alu(old(self)@.cpu, opcode)),
            final(self).state == old(self).state,
    {
        proof {
            lemma_op_fields(opcode);
        }
        let vx = ((opcode & 0x0F00) >> 8) as u8;
        let vy = ((opcode & 0x00F0) >> 4) as u8;
        let n = (opcode & 0x000F) as u8;
        let x_val = self.cpu.get_vreg_value(vx);
        let y_val = self.cpu.get_vreg_value(vy);
        match n {
            0x0 => self.cpu.set_vreg_value(vx, y_val),
            0x1 => self.cpu.set_vreg_value(vx, x_val | y_val),
            0x2 => self.cpu.set_vreg_value(vx, x_val & y_val),
            0x3 => self.cpu.set_vreg_value(vx, x_val ^ y_val),
            0x4 => {
                let sum = x_val as u16 + y_val as u16;
                let vf: u8 = if sum > 0xFF { 1 } else { 0 };
                self.cpu.set_vreg_value(vx, x_val.wrapping_add(y_val));
                self.cpu.set_vreg_value(FLAG_REG, vf);
            },
            0x5 => {
                let vf: u8 = if x_val >= y_val { 1 } else { 0 };
                self.cpu.set_vreg_value(vx, x_val.wrapping_sub(y_val));
                self.cpu.set_vreg_value(FLAG_REG, vf);
            },
            0x6 => {
                self.cpu.set_vreg_value(vx, x_val >> 1);
                self.cpu.set_vreg_value(FLAG_REG, x_val & 1);
            },
            0x7 => {
                let vf: u8 = if y_val >= x_val { 1 } else { 0 };
                self.cpu.set_vreg_value(vx, y_val.wrapping_sub(x_val));
                self.cpu.set_vreg_value(FLAG_REG, vf);
            },
            0xE => {
                self.cpu.set_vreg_value(vx, x_val << 1);
                self.cpu.set_vreg_value(FLAG_REG, x_val >> 7);
            },
            _ => {},
        }
    }

    /// Group 0: clear the screen, or return from a subroutine.
    fn exec_system_op(&mut self, opcode: u16)
        requires
            op_group(opcode) == 0,
            old(self)@.wf(),
        ensures
            final(self)@ == exec_system(old(self)@, opcode),
            final(self).state == old(self).state,
    {
        if opcode == 0x00E0 {
            self.bus.display_clear();
        } else if opcode == 0x00EE {
            let sp = self.cpu.get_sp();
            let stack_value = self.cpu.get_stack_value(sp);
            self.cpu.update_pc(stack_value);
            self.cpu.decrease_sp();
        }
    }

    /// Group 2: call the subroutine at `nnn`.
    fn exec_call_op(&mut self, opcode: u16)
        requires
            op_group(opcode) == 2,
            old(self)@.wf(),
        ensures
            final(self)@ == old(self)@.with_cpu(exec_call(old(self)@.cpu, opcode)),
            final(self).state == old(self).state,
    {
        let nnn = opcode & 0x0FFF;
        let sp = self.cpu.get_sp();
        if sp < crate::cpu::STACK_TOP {
            self.cpu.increase_sp();
            let pc = self.cpu.get_pc();
            self.cpu.set_stack_value(sp + 1, pc);
        }
        self.cpu.update_pc(nnn);
    }

    /// Group E: skip on the state of the key named by register `x`.
    fn exec_keys_op(&mut self, opcode: u16)
        requires
            op_group(opcode) == 0xE,
            old(self)@.wf(),
        ensures
            final(self)@ == old(self)@.with_cpu(exec_keys(old(self)@.cpu, old(self)@.bus.keys, opcode)),
            final(self).state == old(self).state,
    {
        proof {
            lemma_op_fields(opcode);
        }
        let vx = ((opcode & 0x0F00) >> 8) as u8;
        let kk = (opcode & 0x00FF) as u8;
        let key = self.cpu.get_vreg_value(vx);
        let pressed = (key as usize) < KEY_COUNT && self.bus.is_key_pressed(key as usize);
        if kk == 0x9E {
            if pressed {
                self.cpu.increment_pc();
            }
        } else if kk == 0xA1 {
            if !pressed {
                self.cpu.increment_pc();
            }
        }
    }
    /// Waits for a key: the lowest held-down key goes to register `x`; with
    /// none held the program counter moves back so that this instruction runs
    /// again on the next step.
    fn wait_for_key(&mut self, vx: u8)
        requires
            vx < 16,
            old(self)@.wf(),
        ensures
            final(self)@ == ({
                let m = old(self)@;
                let k = first_pressed(m.bus.keys, 0);
                if k < KEY_COUNT {
                    m.with_cpu(m.cpu.with_reg(vx as int, k as u8))
                } else {
                    m.with_cpu(m.cpu.with_pc(m.cpu.pc.wrapping_sub(2)))
                }
            }),
            final(self).state == old(self).state,
    {
        let mut i: usize = 0;
        while i < KEY_COUNT
            invariant
                i <= KEY_COUNT,
                vx < 16,
                self@ == old(self)@,
                self.state == old(self).state,
                first_pressed(self@.bus.keys, 0) == first_pressed(self@.bus.keys, i as int),
            decreases KEY_COUNT - i,
        {
            if self.bus.is_key_pressed(i) {
                self.cpu.set_vreg_value(vx, i as u8);
                return;
            }
            i = i + 1;
        }
        self.cpu.decrease_pc();
    }

    /// Stores the decimal digits of register `x` at the address register.
    fn store_bcd(&mut self, vx: u8)
        requires
            vx < 16,
        ensures
            final(self)@ == old(self)@.with_ram(
                bcd_stored(old(self)@.bus.ram, old(self)@.cpu.i, old(self)@.cpu.v[vx as int]),
            ),
            final(self).state == old(self).state,
    {
        let value = self.cpu.get_vreg_value(vx);
        let hundreds = value / 100;
        let tens = (value / 10) % 10;
        let units = value % 10;
        let i_reg = self.cpu.get_i_reg_value();
        proof {
            lemma_cell_wrapping_add(i_reg, 1);
            lemma_cell_wrapping_add(i_reg, 2);
        }
        self.bus.ram_write_byte(i_reg, hundreds);
        self.bus.ram_write_byte(i_reg.wrapping_add(1), tens);
        self.bus.ram_write_byte(i_reg.wrapping_add(2), units);
    }

    /// Stores registers `0..=x`, `x` included, from the address register on.
    fn store_registers(&mut self, vx: u8)
        requires
            vx < 16,
            old(self)@.wf(),
        ensures
            final(self)@ == old(self)@.with_ram(
                regs_stored(old(self)@.bus.ram, old(self)@.cpu.v, old(self)@.cpu.i, vx as int),
            ),
            final(self).state == old(self).state,
    {
        let ghost m = self@;
        let i_reg = self.cpu.get_i_reg_value();
        let mut k: u8 = 0;
        while k <= vx
            invariant
                k <= vx + 1,
                vx < 16,
                i_reg == m.cpu.i,
                self@.cpu == m.cpu,
                self@.bus.video == m.bus.video,
                self@.bus.keys == m.bus.keys,
                self.state == old(self).state,
                m.wf(),
                self@.bus.ram =~= regs_stored(m.bus.ram, m.cpu.v, i_reg, k - 1),
            decreases vx + 1 - k,
        {
            let value = self.cpu.get_vreg_value(k);
            proof {
                lemma_cell_wrapping_add(i_reg, k as u16);
            }
            self.bus.ram_write_byte(i_reg.wrapping_add(k as u16), value);
            k = k + 1;
        }
    }

    /// Loads registers `0..=x`, `x` included, from the address register on.
    fn load_registers(&mut self, vx: u8)
        requires
            vx < 16,
            old(self)@.wf(),
        ensures
            final(self)@ == old(self)@.with_cpu(
                CpuState {
                    v: regs_loaded(old(self)@.bus.ram, old(self)@.cpu.v, old(self)@.cpu.i, vx as int),
                    ..old(self)@.cpu
                },
            ),
            final(self).state == old(self).state,
    {
        let ghost m = self@;
        let i_reg = self.cpu.get_i_reg_value();
        let mut k: u8 = 0;
        while k <= vx
            invariant
                k <= vx + 1,
                vx < 16,
                i_reg == m.cpu.i,
                self@.bus == m.bus,
                self@.cpu == (CpuState { v: self@.cpu.v, ..m.cpu }),
                self.state == old(self).state,
                m.wf(),
                self@.cpu.v =~= regs_loaded(m.bus.ram, m.cpu.v, i_reg, k - 1),
            decreases vx + 1 - k,
        {
            proof {
                lemma_cell_wrapping_add(i_reg, k as u16);
            }
            let value = self.bus.ram_read_byte(i_reg.wrapping_add(k as u16));
            self.cpu.set_vreg_value(k, value);
            k = k + 1;
        }
    }

    /// Group F: timers, key wait, address register and memory transfers.
    fn exec_misc_op(&mut self, opcode: u16)
        requires
            op_group(opcode) == 0xF,
            old(self)@.wf(),
        ensures
            final(self)@ == exec_misc(old(self)@, opcode),
            final(self).state == old(self).state,
    {
        proof {
            lemma_op_fields(opcode);
        }
        let vx = ((opcode & 0x0F00) >> 8) as u8;
        let kk = (opcode & 0x00FF) as u8;
        if kk == 0x07 {
            let delay = self.cpu.get_delay_timer();
            self.cpu.set_vreg_value(vx, delay);
        } else if kk == 0x0A {
            self.wait_for_key(vx);
        } else if kk == 0x15 {
            let value = self.cpu.get_vreg_value(vx);
            self.cpu.set_delay_timer(value);
        } else if kk == 0x18 {
            let value = self.cpu.get_vreg_value(vx);
            self.cpu.set_sound_timer(value);
        } else if kk == 0x1E {
            let value = self.cpu.get_vreg_value(vx);
            let i_reg = self.cpu.get_i_reg_value();
            self.cpu.set_i_reg_value(i_reg.wrapping_add(value as u16));
        } else if kk == 0x29 {
            let digit = self.cpu.get_vreg_value(vx);
            self.cpu.set_i_reg_value(FONTSET_START_ADDRESS + 5 * digit as u16);
        } else if kk == 0x33 {
            self.store_bcd(vx);
        } else if kk == 0x55 {
            self.store_registers(vx);
        } else if kk == 0x65 {
            self.load_registers(vx);
        }
    }
    /// Group D: draws the `n`-row sprite found at the address register with
    /// its corner at (register `x`, register `y`).
    fn exec_draw_op(&mut self, opcode: u16)
        requires
            op_group(opcode) == 0xD,
            old(self)@.wf(),
        ensures
            final(self)@ == exec_draw(old(self)@, opcode),
            final(self).state == old(self).state,
    {
        proof {
            lemma_op_fields(opcode);
        }
        let ghost m = self@;
        let ghost video0 = m.bus.video;
        let ghost ram0 = m.bus.ram;
        let vx = ((opcode & 0x0F00) >> 8) as u8;
        let vy = ((opcode & 0x00F0) >> 4) as u8;
        let n = (opcode & 0x000F) as u8;
        let x0 = self.cpu.get_vreg_value(vx);
        let y0 = self.cpu.get_vreg_value(vy);
        let i_addr = self.cpu.get_i_reg_value();
        let mut collision = false;
        let mut row: u8 = 0;
        while row < n
            invariant
                row <= n,
                n < 16,
                m.wf(),
                i_addr == m.cpu.i,
                self@.cpu == m.cpu,
                self@.bus.ram == ram0,
                self@.bus.keys == m.bus.keys,
                self@.bus.video.len() == DISPLAY_SIZE,
                self.state == old(self).state,
                forall|p: int|
                    0 <= p < DISPLAY_SIZE ==> #[trigger] self@.bus.video[p] == partly_drawn(
                        video0,
                        ram0,
                        i_addr,
                        x0,
                        y0,
                        row as int,
                        0,
                        p,
                    ),
                collision == lit_before(video0, ram0, i_addr, x0, y0, row as int, 0),
            decreases n - row,
        {
            proof {
                lemma_cell_wrapping_add(i_addr, row as u16);
            }
            let sprite_byte = self.bus.ram_read_byte(i_addr.wrapping_add(row as u16));
            let mut col: u8 = 0;
            while col < 8
                invariant
                    col <= 8,
                    row < n,
                    n < 16,
                    m.wf(),
                    i_addr == m.cpu.i,
                    sprite_byte == ram0[cell(i_addr + row)],
                    self@.cpu == m.cpu,
                    self@.bus.ram == ram0,
                    self@.bus.keys == m.bus.keys,
                    self@.bus.video.len() == DISPLAY_SIZE,
                    self.state == old(self).state,
                    forall|p: int|
                        0 <= p < DISPLAY_SIZE ==> #[trigger] self@.bus.video[p] == partly_drawn(
                            video0,
                            ram0,
                            i_addr,
                            x0,
                            y0,
                            row as int,
                            col as int,
                            p,
                        ),
                    collision == lit_before(video0, ram0, i_addr, x0, y0, row as int, col as int),
                decreases 8 - col,
            {
                let pixel_x = (x0 as usize + col as usize) % DISPLAY_WIDTH;
                let pixel_y = (y0 as usize + row as usize) % DISPLAY_HEIGHT;
                let index = pixel_x + pixel_y * DISPLAY_WIDTH;
                proof {
                    lemma_pixel_index(x0, y0, row as int, col as int);
                    assert(index == pixel_index(x0, y0, row as int, col as int));
                }
                let current = self.bus.display_get_pixel(index);
                let shift: u32 = 7 - col as u32;
                let bit = ((sprite_byte as u32) >> shift) & 0x1;
                let value = current ^ bit;
                proof {
                    assert(!drawn_before(x0, y0, row as int, col as int, index as int));
                    assert(value == flipped(video0, ram0, i_addr, x0, y0, index as int));
                }
                self.bus.display_write_pixel(index, value);
                if value == 1 {
                    collision = true;
                }
                proof {
                    let row_i = row as int;
                    let next = (col + 1) as int;
                    assert forall|p: int| 0 <= p < DISPLAY_SIZE implies #[trigger] self@.bus.video[p]
                        == partly_drawn(video0, ram0, i_addr, x0, y0, row_i, next, p) by {
                        if p != index {
                            assert(drawn_before(x0, y0, row_i, next, p) == drawn_before(
                                x0,
                                y0,
                                row_i,
                                col as int,
                                p,
                            ));
                        }
                    }
                    if value != 1 {
                        if lit_before(video0, ram0, i_addr, x0, y0, row_i, next) {
                            let p = choose|p: int|
                                0 <= p < DISPLAY_SIZE && drawn_before(x0, y0, row_i, next, p)
                                    && #[trigger] flipped(video0, ram0, i_addr, x0, y0, p) == 1;
                            assert(p != index);
                            assert(drawn_before(x0, y0, row_i, col as int, p));
                        }
                    } else {
                        assert(flipped(video0, ram0, i_addr, x0, y0, index as int) == 1);
                        assert(drawn_before(x0, y0, row_i, next, index as int));
                    }
                    if lit_before(video0, ram0, i_addr, x0, y0, row_i, col as int) {
                        let p = choose|p: int|
                            0 <= p < DISPLAY_SIZE && drawn_before(x0, y0, row_i, col as int, p)
                                && #[trigger] flipped(video0, ram0, i_addr, x0, y0, p) == 1;
                        assert(drawn_before(x0, y0, row_i, next, p));
                    }
                }
                col = col + 1;
            }
            proof {
                let row_i = row as int;
                assert forall|p: int| 0 <= p < DISPLAY_SIZE implies #[trigger] self@.bus.video[p]
                    == partly_drawn(video0, ram0, i_addr, x0, y0, row_i + 1, 0, p) by {
                    assert(drawn_before(x0, y0, row_i, 8, p) == drawn_before(x0, y0, row_i + 1, 0, p));
                }
                if lit_before(video0, ram0, i_addr, x0, y0, row_i, 8) {
                    let p = choose|p: int|
                        0 <= p < DISPLAY_SIZE && drawn_before(x0, y0, row_i, 8, p) && #[trigger] flipped(
                            video0,
                            ram0,
                            i_addr,
                            x0,
                            y0,
                            p,
                        ) == 1;
                    assert(drawn_before(x0, y0, row_i + 1, 0, p));
                }
                if lit_before(video0, ram0, i_addr, x0, y0, row_i + 1, 0) {
                    let p = choose|p: int|
                        0 <= p < DISPLAY_SIZE && drawn_before(x0, y0, row_i + 1, 0, p)
                            && #[trigger] flipped(video0, ram0, i_addr, x0, y0, p) == 1;
                    assert(drawn_before(x0, y0, row_i, 8, p));
                }
            }
            row = row + 1;
        }
        proof {
            let n_i = n as int;
            assert(self@.bus.video =~= draw_video(video0, ram0, i_addr, x0, y0, n_i));
            if collision {
                let p = choose|p: int|
                    0 <= p < DISPLAY_SIZE && drawn_before(x0, y0, n_i, 0, p) && #[trigger] flipped(
                        video0,
                        ram0,
                        i_addr,
                        x0,
                        y0,
                        p,
                    ) == 1;
                assert(drawn_pixel(video0, ram0, i_addr, x0, y0, n_i, p) == 1);
            }
            if draw_collides(video0, ram0, i_addr, x0, y0, n_i) {
                let p = choose|p: int|
                    0 <= p < video0.len() && covers(x0, y0, n_i, p) && #[trigger] drawn_pixel(
                        video0,
                        ram0,
                        i_addr,
                        x0,
                        y0,
                        n_i,
                        p,
                    ) == 1;
                assert(flipped(video0, ram0, i_addr, x0, y0, p) == 1);
            }
        }
        if collision {
            self.cpu.set_vreg_value(FLAG_REG, 1);
        }
    }
    /// Executes `opcode`, the program counter being already past it, with
    /// `random_byte` as the byte that the random instruction draws. Returns
    /// whether `opcode` is an instruction of the set; an unknown one changes
    /// nothing.
    pub fn exec_with_random_byte(&mut self, opcode: u16, random_byte: u8) -> (known: bool)
        ensures
            final(self)@ == execute(old(self)@, opcode, random_byte),
            final(self).state == old(self).state,
            known == is_known_opcode(opcode),
    {
        proof {
            use_type_invariant(&self.cpu);
            self.bus.lemma_lengths();
            lemma_op_fields(opcode);
        }
        let group = (opcode & 0xF000) >> 12;
        let vx = ((opcode & 0x0F00) >> 8) as u8;
        let vy = ((opcode & 0x00F0) >> 4) as u8;
        let kk = (opcode & 0x00FF) as u8;
        let nnn = opcode & 0x0FFF;
        let n = (opcode & 0x000F) as u8;
        match group {
            0x0 => {
                self.exec_system_op(opcode);
                opcode == 0x00E0 || opcode == 0x00EE
            },
            0x1 => {
                self.cpu.update_pc(nnn);
                true
            },
            0x2 => {
                self.exec_call_op(opcode);
                true
            },
            0x3 => {
                if self.cpu.get_vreg_value(vx) == kk {
                    self.cpu.increment_pc();
                }
                true
            },
            0x4 => {
                if self.cpu.get_vreg_value(vx) != kk {
                    self.cpu.increment_pc();
                }
                true
            },
            0x5 => {
                if n == 0 && self.cpu.get_vreg_value(vx) == self.cpu.get_vreg_value(vy) {
                    self.cpu.increment_pc();
                }
                n == 0
            },
            0x6 => {
                self.cpu.set_vreg_value(vx, kk);
                true
            },
            0x7 => {
                let value = self.cpu.get_vreg_value(vx).wrapping_add(kk);
                self.cpu.set_vreg_value(vx, value);
                true
            },
            0x8 => {
                self.exec_alu_op(opcode);
                n <= 7 || n == 0xE
            },
            0x9 => {
                if n == 0 && self.cpu.get_vreg_value(vx) != self.cpu.get_vreg_value(vy) {
                    self.cpu.increment_pc();
                }
                n == 0
            },
            0xA => {
                self.cpu.set_i_reg_value(nnn);
                true
            },
            0xB => {
                let addr = self.cpu.get_vreg_value(0) as u16 + nnn;
                self.cpu.update_pc(addr);
                true
            },
            0xC => {
                self.cpu.set_vreg_value(vx, random_byte & kk);
                true
            },
            0xD => {
                self.exec_draw_op(opcode);
                true
            },
            0xE => {
                self.exec_keys_op(opcode);
                kk == 0x9E || kk == 0xA1
            },
            _ => {
                self.exec_misc_op(opcode);
                kk == 0x07 || kk == 0x0A || kk == 0x15 || kk == 0x18 || kk == 0x1E || kk == 0x29
                    || kk == 0x33 || kk == 0x55 || kk == 0x65
            },
        }
    }

    /// Executes `opcode`, the program counter being already past it; the
    /// random instruction draws a byte from the thread's generator. Returns
    /// whether `opcode` is an instruction of the set.
    pub fn exec_instructions(&mut self, opcode: u16) -> (known: bool)
        ensures
            exists|r: u8| final(self)@ == execute(old(self)@, opcode, r),
            op_group(opcode) != 0xC ==> final(self)@ == execute(old(self)@, opcode, 0),
            final(self).state == old(self).state,
            known == is_known_opcode(opcode),
    {
        proof {
            lemma_random_group(opcode);
        }
        let random_byte = if (opcode & 0xF000) == 0xC000 {
            gen_random_byte()
        } else {
            0
        };
        self.exec_with_random_byte(opcode, random_byte)
    }

    /// One fetch-decode-execute cycle: reads the two bytes at the program
    /// counter, high byte first, moves the counter past them and executes the
    /// opcode. Returns whether the opcode is an instruction of the set.
    pub fn run(&mut self) -> (known: bool)
        ensures
            exists|r: u8| final(self)@ == step(old(self)@, r),
            op_group(fetch_opcode(old(self)@)) != 0xC ==> final(self)@ == step(old(self)@, 0),
            final(self).state == old(self).state,
            known == is_known_opcode(fetch_opcode(old(self)@)),
    {
        let pc = self.cpu.get_pc();
        let first_byte = self.bus.ram_read_byte(pc);
        let second_byte = self.bus.ram_read_byte(pc.wrapping_add(1));
        let opcode = ((first_byte as u16) << 8) | (second_byte as u16);
        proof {
            lemma_cell_wrapping_add(pc, 1);
            lemma_opcode_bytes(first_byte, second_byte);
        }
        self.cpu.increment_pc();
        let ghost fetched = self@;
        let known = self.exec_instructions(opcode);
        proof {
            let r = choose|r: u8| self@ == execute(fetched, opcode, r);
            assert(self@ == step(old(self)@, r));
        }
        known
    }

    /// Writes a program image into memory from the load address on.
    pub fn load_rom(&mut self, data: Vec<u8>)
        requires
            data.len() <= RAM_SIZE - EXECUTION_INDEX,
        ensures
            final(self)@ == old(self)@.with_ram(rom_loaded(old(self)@.bus.ram, data@)),
            final(self).state == old(self).state,
    {
        proof {
            self.bus.lemma_lengths();
        }
        let ghost m = self@;
        let offset = EXECUTION_INDEX;
        let mut i: usize = 0;
        while i < data.len()
            invariant
                i <= data.len(),
                offset == EXECUTION_INDEX,
                data.len() <= RAM_SIZE - EXECUTION_INDEX,
                m.bus.ram.len() == RAM_SIZE,
                self@ == m.with_ram(self@.bus.ram),
                self.state == old(self).state,
                self@.bus.ram =~= rom_loaded(m.bus.ram, data@.subrange(0, i as int)),
            decreases data.len() - i,
        {
            let addr: u16 = offset + i as u16;
            self.bus.ram_write_byte(addr, data[i]);
            proof {
                assert(cell(addr as int) == EXECUTION_INDEX + i);
                assert(self@.bus.ram =~= rom_loaded(m.bus.ram, data@.subrange(0, i + 1)));
            }
            i = i + 1;
        }
        assert(data@.subrange(0, data.len() as int) =~= data@);
    }

    /// One tick of the 60 Hz timer clock: the delay and sound timers count
    /// down by one each, stopping at zero.
    pub fn update_timer(&mut self)
        ensures
            final(self)@ == old(self)@.with_cpu(timers_ticked(old(self)@.cpu)),
            final(self).state == old(self).state,
    {
        if self.cpu.get_delay_timer() > 0 {
            self.cpu.decrease_delay_timer();
        }
        if self.cpu.get_sound_timer() > 0 {
            self.cpu.decrease_sound_timer();
        }
    }
}

} // verus!
