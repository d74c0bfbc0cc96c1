//! The register file: sixteen byte registers, the address register, the
//! program counter, the two countdown timers and the return-address stack.
use vstd::prelude::*;

verus! {

/// Address at which programs are loaded and execution starts.
pub const EXECUTION_INDEX: u16 = 0x200;

/// Number of general-purpose registers, and of return-address slots.
pub const REGISTER_COUNT: usize = 16;

/// Highest value the stack pointer may take.
pub const STACK_TOP: u8 = 15;

/// The register file as plain values.
pub struct CpuState {
    /// General-purpose registers; the last one doubles as the flag register.
    pub v: Seq<u8>,
    /// Address register.
    pub i: u16,
    pub delay: u8,
    pub sound: u8,
    pub pc: u16,
    pub sp: u8,
    pub stack: Seq<u16>,
}

impl CpuState {
    /// Sixteen registers, sixteen stack slots, and a stack pointer in range.
    pub open spec fn wf(self) -> bool {
        &&& self.v.len() == REGISTER_COUNT
        &&& self.stack.len() == REGISTER_COUNT
        &&& self.sp <= STACK_TOP
    }

    /// The register file at power-on: all zero but the program counter.
    pub open spec fn initial() -> CpuState {
        CpuState {
            v: Seq::new(REGISTER_COUNT as nat, |k: int| 0u8),
            i: 0,
            delay: 0,
            sound: 0,
            pc: EXECUTION_INDEX,
            sp: 0,
            stack: Seq::new(REGISTER_COUNT as nat, |k: int| 0u16),
        }
    }

    /// Register `x` set to `value`.
    pub open spec fn with_reg(self, x: int, value: u8) -> CpuState {
        CpuState { v: self.v.update(x, value), ..self }
    }

    pub open spec fn with_pc(self, pc: u16) -> CpuState {
        CpuState { pc, ..self }
    }
}

/// The register file.
pub struct CPU {
    v_regs: [u8; REGISTER_COUNT],
    i_reg: u16,
    delay_reg: u8,
    sound_reg: u8,
    program_counter: u16,
    stack_pointer: u8,
    stack: [u16; REGISTER_COUNT],
}

impl View for CPU {
    type V = CpuState;

    closed spec fn view(&self) -> CpuState {
        CpuState {
            v: self.v_regs@,
            i: self.i_reg,
            delay: self.delay_reg,
            sound: self.sound_reg,
            pc: self.program_counter,
            sp: self.stack_pointer,
            stack: self.stack@,
        }
    }
}

impl CPU {
    /// Every register file is well formed: sixteen registers, sixteen stack
    /// slots, and a stack pointer that never leaves them.
    #[verifier::type_invariant]
    pub open spec fn inv(&self) -> bool {
        self@.wf()
    }

    pub fn init() -> (r: CPU)
        ensures
            r@ == CpuState::initial(),
    {
        let r = CPU {
            v_regs: [0; REGISTER_COUNT],
            i_reg: 0,
            delay_reg: 0,
            sound_reg: 0,
            program_counter: EXECUTION_INDEX,
            stack: [0; REGISTER_COUNT],
            stack_pointer: 0,
        };
        assert(r@.v =~= CpuState::initial().v);
        assert(r@.stack =~= CpuState::initial().stack);
        r
    }

    /// The return address held in slot `stack_pointer`.
    pub fn get_stack_value(&self, stack_pointer: u8) -> (r: u16)
        requires
            stack_pointer < REGISTER_COUNT,
        ensures
            r == self@.stack[stack_pointer as int],
    {
        self.stack[stack_pointer as usize]
    }

    pub fn set_stack_value(&mut self, stack_pointer: u8, value: u16)
        requires
            stack_pointer < REGISTER_COUNT,
        ensures
            final(self)@ == (CpuState {
                stack: old(self)@.stack.update(stack_pointer as int, value),
                ..old(self)@
            }),
    {
        proof {
            use_type_invariant(&*self);
        }
        self.stack[stack_pointer as usize] = value;
    }

    /// Moves the stack pointer down one slot; at zero it stays.
    pub fn decrease_sp(&mut self)
        ensures
            final(self)@ == (CpuState {
                sp: if old(self)@.sp > 0 { (old(self)@.sp - 1) as u8 } else { 0 },
                ..old(self)@
            }),
    {
        proof {
            use_type_invariant(&*self);
        }
        if self.stack_pointer > 0 {
            self.stack_pointer -= 1;
        }
    }

    /// Moves the stack pointer up one slot; at the top slot it stays.
    pub fn increase_sp(&mut self)
        ensures
            final(self)@ == (CpuState {
                sp: if old(self)@.sp < STACK_TOP { (old(self)@.sp + 1) as u8 } else { old(self)@.sp },
                ..old(self)@
            }),
    {
        proof {
            use_type_invariant(&*self);
        }
        if self.stack_pointer < STACK_TOP {
            self.stack_pointer += 1;
        }
    }

    pub fn update_pc(&mut self, val: u16)
        ensures
            final(self)@ == old(self)@.with_pc(val),
    {
        proof {
            use_type_invariant(&*self);
        }
        self.program_counter = val;
    }

    /// Advances the program counter by one instruction (two bytes), wrapping.
    pub fn increment_pc(&mut self)
        ensures
            final(self)@ == old(self)@.with_pc(old(self)@.pc.wrapping_add(2)),
    {
        proof {
            use_type_invariant(&*self);
        }
        self.program_counter = self.program_counter.wrapping_add(2);
    }

    /// Moves the program counter back by one instruction, wrapping.
    pub fn decrease_pc(&mut self)
        ensures
            final(self)@ == old(self)@.with_pc(old(self)@.pc.wrapping_sub(2)),
    {
        proof {
            use_type_invariant(&*self);
        }
        self.program_counter = self.program_counter.wrapping_sub(2);
    }

    pub fn set_vreg_value(&mut self, index: u8, val: u8)
        requires
            index < REGISTER_COUNT,
        ensures
            final(self)@ == old(self)@.with_reg(index as int, val),
    {
        proof {
            use_type_invariant(&*self);
        }
        self.v_regs[index as usize] = val;
    }

    pub fn get_vreg_value(&self, index: u8) -> (r: u8)
        requires
            index < REGISTER_COUNT,
        ensures
            r == self@.v[index as int],
    {
        self.v_regs[index as usize]
    }

    pub fn set_i_reg_value(&mut self, value: u16)
        ensures
            final(self)@ == (CpuState { i: value, ..old(self)@ }),
    {
        proof {
            use_type_invariant(&*self);
        }
        self.i_reg = value;
    }

    pub fn set_delay_timer(&mut self, value: u8)
        ensures
            final(self)@ == (CpuState { delay: value, ..old(self)@ }),
    {
        proof {
            use_type_invariant(&*self);
        }
        self.delay_reg = value;
    }

    pub fn set_sound_timer(&mut self, value: u8)
        ensures
            final(self)@ == (CpuState { sound: value, ..old(self)@ }),
    {
        proof {
            use_type_invariant(&*self);
        }
        self.sound_reg = value;
    }

    /// Counts the delay timer down by one; at zero it stays.
    pub fn decrease_delay_timer(&mut self)
        ensures
            final(self)@ == (CpuState {
                delay: if old(self)@.delay > 0 { (old(self)@.delay - 1) as u8 } else { 0 },
                ..old(self)@
            }),
    {
        proof {
            use_type_invariant(&*self);
        }
        if self.delay_reg > 0 {
            self.delay_reg -= 1;
        }
    }

    /// Counts the sound timer down by one; at zero it stays.
    pub fn decrease_sound_timer(&mut self)
        ensures
            final(self)@ == (CpuState {
                sound: if old(self)@.sound > 0 { (old(self)@.sound - 1) as u8 } else { 0 },
                ..old(self)@
            }),
    {
        proof {
            use_type_invariant(&*self);
        }
        if self.sound_reg > 0 {
            self.sound_reg -= 1;
        }
    }

    pub fn get_sp(&self) -> (r: u8)
        ensures
            r == self@.sp,
    {
        self.stack_pointer
    }

    pub fn get_pc(&self) -> (r: u16)
        ensures
            r == self@.pc,
    {
        self.program_counter
    }

    pub fn get_i_reg_value(&self) -> (r: u16)
        ensures
            r == self@.i,
    {
        self.i_reg
    }

    pub fn get_delay_timer(&self) -> (r: u8)
        ensures
            r == self@.delay,
    {
        self.delay_reg
    }

    pub fn get_sound_timer(&self) -> (r: u8)
        ensures
            r == self@.sound,
    {
        self.sound_reg
    }
}

} // verus!
