//! The CPU: the register file and the executable pipeline. Every
//! opcode handler is verified against its transition function in
//! `isa`, so a cycle does to the machine exactly what `spec_cycle`
//! says.

use vstd::prelude::*;

use crate::display::Display;
use crate::isa::key_down;
use crate::isa::lemma_octets_bounds;
use crate::isa::skipped;
use crate::isa::spec_add;
use crate::isa::spec_add_byte;
use crate::isa::spec_add_i_vx;
use crate::isa::spec_and;
use crate::isa::spec_call;
use crate::isa::spec_cls;
use crate::isa::spec_drw;
use crate::isa::spec_id;
use crate::isa::spec_jp;
use crate::isa::spec_ld_b_vx;
use crate::isa::spec_ld_byte;
use crate::isa::spec_ld_dt_vx;
use crate::isa::spec_ld_f_vx;
use crate::isa::spec_ld_i;
use crate::isa::spec_ld_i_vx;
use crate::isa::spec_ld_reg;
use crate::isa::spec_ld_st_vx;
use crate::isa::spec_ld_v0;
use crate::isa::spec_ld_vx_dt;
use crate::isa::spec_ld_vx_i;
use crate::isa::spec_octets;
use crate::isa::spec_or;
use crate::isa::spec_ret;
use crate::isa::spec_rnd;
use crate::isa::spec_se_byte;
use crate::isa::spec_se_reg;
use crate::isa::spec_shl;
use crate::isa::spec_shr;
use crate::isa::spec_skp;
use crate::isa::spec_sknp;
use crate::isa::spec_sne_byte;
use crate::isa::spec_sne_reg;
use crate::isa::step_match;
use crate::isa::cycle_match;
use crate::isa::spec_sub;
use crate::isa::spec_xor;
use crate::isa::spec_subn;
use crate::isa::spec_w_key;
use crate::isa::highest_key;
use crate::isa::ticked;
use crate::isa::Action;
use crate::isa::CpuView;
use crate::isa::OpcodePolicy;
use crate::isa::VmError;
use crate::memory::be16;
use crate::memory::Memory;
use crate::memory::MEM_SIZE;
use crate::util::to_addr;
use crate::util::to_id;
use crate::util::to_octets;
use crate::util::to_u8;

verus! {

pub const NUM_GP_REGS: usize = 16;

pub const PC_START_ADDR: u16 = 0x200;

/// The index of the flag register.
pub const VF: u8 = 0xF;

/// Relies on rand::random::<u8>: a byte from the thread-local
/// generator; nothing is assumed about its value.
#[verifier::external_body]
fn random_byte() -> u8 {
    rand::random::<u8>()
}

/// True exactly when the key bitmask reports key `k` down.
pub fn key_pressed(keys: u16, k: u8) -> (r: bool)
    ensures
        r == key_down(keys, k),
{
    if k >= 16 {
        false
    } else {
        (keys >> (k as u16)) & 1 == 1
    }
}

/// The register file, the program counter and timers, and the owned
/// memory and display. Its view is the abstract `CpuView` state the
/// `isa` transition functions speak about.
pub struct CPU {
    ireg: u16,
    pc: u16,
    regs: Vec<u8>,
    delay_reg: u8,
    sound_reg: u8,
    cpu_mem: Memory,
    gfx_mem: Display,
}

impl View for CPU {
    type V = CpuView;

    closed spec fn view(&self) -> CpuView {
        CpuView {
            regs: self.regs@,
            ireg: self.ireg,
            pc: self.pc,
            delay: self.delay_reg,
            sound: self.sound_reg,
            mem: self.cpu_mem@.bytes,
            stack: self.cpu_mem@.stack,
            disp: self.gfx_mem@,
        }
    }
}

impl CPU {
    /// The concrete state is intact and its view keeps the abstract
    /// shapes.
    pub closed spec fn wf(&self) -> bool {
        &&& self.regs@.len() == NUM_GP_REGS
        &&& self.cpu_mem.wf()
        &&& self.gfx_mem.wf()
    }

    /// Well-formed concrete state has a well-formed view.
    pub proof fn lemma_wf_view(&self)
        requires
            self.wf(),
        ensures
            self@.wf(),
    {
        self.cpu_mem.lemma_wf();
        self.gfx_mem.lemma_wf();
    }

    /// A CPU over the given memory and display: registers and timers
    /// zero, the program counter at the conventional start address.
    pub fn new(cpu_mem: Memory, gfx_mem: Display) -> (r: CPU)
        requires
            cpu_mem.wf(),
            gfx_mem.wf(),
        ensures
            r.wf(),
            r@ == (CpuView {
                regs: Seq::new(NUM_GP_REGS as nat, |i: int| 0u8),
                ireg: 0,
                pc: PC_START_ADDR,
                delay: 0,
                sound: 0,
                mem: cpu_mem@.bytes,
                stack: cpu_mem@.stack,
                disp: gfx_mem@,
            }),
    {
        let mut regs: Vec<u8> = Vec::new();
        let mut i: usize = 0;
        while i < NUM_GP_REGS
            invariant
                i <= NUM_GP_REGS,
                regs@.len() == i,
                forall|j: int| 0 <= j < i ==> regs@[j] == 0u8,
            decreases NUM_GP_REGS - i,
        {
            regs.push(0);
            i += 1;
        }
        let r = CPU {
            ireg: 0,
            pc: PC_START_ADDR,
            regs,
            delay_reg: 0,
            sound_reg: 0,
            cpu_mem,
            gfx_mem,
        };
        proof {
            assert(r@.regs =~= Seq::new(NUM_GP_REGS as nat, |i: int| 0u8));
            assert(r@ =~= (CpuView {
                regs: Seq::new(NUM_GP_REGS as nat, |i: int| 0u8),
                ireg: 0,
                pc: PC_START_ADDR,
                delay: 0,
                sound: 0,
                mem: cpu_mem@.bytes,
                stack: cpu_mem@.stack,
                disp: gfx_mem@,
            }));
        }
        r
    }

    /// The value of general register `x`.
    pub fn get_reg(&self, x: u8) -> (r: u8)
        requires
            self.wf(),
            x < 16,
        ensures
            r == self@.regs[x as int],
    {
        self.regs[x as usize]
    }

    /// The program counter.
    pub fn get_pc(&self) -> (r: u16)
        ensures
            r == self@.pc,
    {
        self.pc
    }

    /// The index register.
    pub fn get_ireg(&self) -> (r: u16)
        ensures
            r == self@.ireg,
    {
        self.ireg
    }

    /// The delay timer.
    pub fn get_delay(&self) -> (r: u8)
        ensures
            r == self@.delay,
    {
        self.delay_reg
    }

    /// The sound timer.
    pub fn get_sound(&self) -> (r: u8)
        ensures
            r == self@.sound,
    {
        self.sound_reg
    }

    /// Read-only access to the address space and call stack.
    pub fn memory(&self) -> (r: &Memory)
        requires
            self.wf(),
        ensures
            r.wf(),
            r@.bytes == self@.mem,
            r@.stack == self@.stack,
    {
        &self.cpu_mem
    }

    /// Read-only access to the display buffer.
    pub fn display(&self) -> (r: &Display)
        requires
            self.wf(),
        ensures
            r.wf(),
            r@ == self@.disp,
    {
        &self.gfx_mem
    }

    /// Writes general register `x`, leaving everything else alone.
    fn set_reg(&mut self, x: u8, val: u8)
        requires
            old(self).wf(),
            x < 16,
        ensures
            final(self).wf(),
            final(self)@ == old(self)@.with_regs(old(self)@.regs.update(x as int, val)),
    {
        self.regs.set(x as usize, val);
    }

    /// Moves the program counter past one instruction, with 16-bit
    /// wraparound.
    fn skip_instruction(&mut self)
        requires
            old(self).wf(),
        ensures
            final(self).wf(),
            final(self)@ == skipped(old(self)@),
    {
        let next = ((self.pc as u32 + 2) % 0x10000) as u16;
        self.pc = next;
    }

    /// Reads the instruction word under the program counter and moves
    /// past it; fails, changing nothing, exactly when the word does
    /// not fit the address space.
    pub fn fetch(&mut self) -> (r: Result<u16, VmError>)
        requires
            old(self).wf(),
        ensures
            final(self).wf(),
            old(self)@.pc + 1 < MEM_SIZE ==> r == Ok::<u16, VmError>(
                be16(old(self)@.mem[old(self)@.pc as int], old(self)@.mem[old(self)@.pc as int + 1]),
            ) && final(self)@ == old(self)@.with_pc((old(self)@.pc + 2) as u16),
            old(self)@.pc + 1 >= MEM_SIZE ==> r == Err::<u16, VmError>(VmError::OutOfBounds)
                && final(self)@ == old(self)@,
    {
        match self.cpu_mem.get_instruction(self.pc) {
            None => Err(VmError::OutOfBounds),
            Some(w) => {
                self.pc = self.pc + 2;
                Ok(w)
            },
        }
    }

    /// Splits an instruction word into its opcode identifier and its
    /// four argument nibbles.
    pub fn decode(&self, instruction: u16) -> (r: Option<(u16, (u8, u8, u8, u8))>)
        ensures
            r == Some((spec_id(instruction), spec_octets(instruction))),
    {
        let octs = to_octets(instruction);

        let id = if octs.0 == 0x0 {
            to_id((0x0, 0x0, octs.2, octs.3))
        } else if octs.0 == 0x8 {
            to_id((octs.0, 0x0, 0x0, octs.3))
        } else if octs.0 == 0xE || octs.0 == 0xF {
            to_id((octs.0, 0x0, octs.2, octs.3))
        } else {
            to_id((octs.0, 0x0, 0x0, 0x0))
        };

        Some((id, octs))
    }

    /// CLS: clears the display buffer; the backend redraws.
    pub fn op_cls(&mut self) -> (r: Result<Action, VmError>)
        requires
            old(self).wf(),
        ensures
            final(self).wf(),
            final(self)@ == spec_cls(old(self)@).post,
            r == spec_cls(old(self)@).out,
    {
        self.gfx_mem.clear();
        proof {
            assert(self@ =~= spec_cls(old(self)@).post);
        }
        Ok(Action::Redraw)
    }

    /// RET: the program counter returns to the most recent pushed
    /// address; fails on an empty stack.
    pub fn op_ret(&mut self) -> (r: Result<Action, VmError>)
        requires
            old(self).wf(),
        ensures
            final(self).wf(),
            final(self)@ == spec_ret(old(self)@).post,
            r == spec_ret(old(self)@).out,
    {
        match self.cpu_mem.pop() {
            None => Err(VmError::StackUnderflow),
            Some(a) => {
                self.pc = a;
                Ok(Action::Continue)
            },
        }
    }

    /// JP: jump.
    pub fn op_jp(&mut self, addr: u16) -> (r: Result<Action, VmError>)
        requires
            old(self).wf(),
        ensures
            final(self).wf(),
            final(self)@ == spec_jp(old(self)@, addr).post,
            r == spec_jp(old(self)@, addr).out,
    {
        self.pc = addr;
        Ok(Action::Continue)
    }

    /// CALL: pushes the address of the next instruction, then jumps;
    /// fails on a full stack.
    pub fn op_call(&mut self, addr: u16) -> (r: Result<Action, VmError>)
        requires
            old(self).wf(),
        ensures
            final(self).wf(),
            final(self)@ == spec_call(old(self)@, addr).post,
            r == spec_call(old(self)@, addr).out,
    {
        proof {
            self.cpu_mem.lemma_wf();
        }
        match self.cpu_mem.push(self.pc) {
            None => Err(VmError::StackOverflow),
            Some(()) => {
                self.pc = addr;
                Ok(Action::Continue)
            },
        }
    }

    /// SE byte form: skip when the register equals the immediate.
    pub fn op_se_byte(&mut self, x: u8, kk: u8) -> (r: Result<Action, VmError>)
        requires
            old(self).wf(),
            x < 16,
        ensures
            final(self).wf(),
            final(self)@ == spec_se_byte(old(self)@, x as int, kk).post,
            r == spec_se_byte(old(self)@, x as int, kk).out,
    {
        if self.get_reg(x) == kk {
            self.skip_instruction();
        }
        Ok(Action::Continue)
    }

    /// SNE byte form: skip when the register differs from the
    /// immediate.
    pub fn op_sne_byte(&mut self, x: u8, kk: u8) -> (r: Result<Action, VmError>)
        requires
            old(self).wf(),
            x < 16,
        ensures
            final(self).wf(),
            final(self)@ == spec_sne_byte(old(self)@, x as int, kk).post,
            r == spec_sne_byte(old(self)@, x as int, kk).out,
    {
        if self.get_reg(x) != kk {
            self.skip_instruction();
        }
        Ok(Action::Continue)
    }

    /// SE register form: skip when the two registers are equal.
    pub fn op_se_reg(&mut self, x: u8, y: u8) -> (r: Result<Action, VmError>)
        requires
            old(self).wf(),
            x < 16,
            y < 16,
        ensures
            final(self).wf(),
            final(self)@ == spec_se_reg(old(self)@, x as int, y as int).post,
            r == spec_se_reg(old(self)@, x as int, y as int).out,
    {
        if self.get_reg(x) == self.get_reg(y) {
            self.skip_instruction();
        }
        Ok(Action::Continue)
    }

    /// SNE register form: skip when the two registers differ.
    pub fn op_sne_reg(&mut self, x: u8, y: u8) -> (r: Result<Action, VmError>)
        requires
            old(self).wf(),
            x < 16,
            y < 16,
        ensures
            final(self).wf(),
            final(self)@ == spec_sne_reg(old(self)@, x as int, y as int).post,
            r == spec_sne_reg(old(self)@, x as int, y as int).out,
    {
        if self.get_reg(x) != self.get_reg(y) {
            self.skip_instruction();
        }
        Ok(Action::Continue)
    }

    /// LD byte form: the immediate goes into the register.
    pub fn op_ld_byte(&mut self, x: u8, kk: u8) -> (r: Result<Action, VmError>)
        requires
            old(self).wf(),
            x < 16,
        ensures
            final(self).wf(),
            final(self)@ == spec_ld_byte(old(self)@, x as int, kk).post,
            r == spec_ld_byte(old(self)@, x as int, kk).out,
    {
        self.set_reg(x, kk);
        Ok(Action::Continue)
    }

    /// ADD byte form: eight-bit wraparound sum, no flag side effect.
    pub fn op_add_byte(&mut self, x: u8, kk: u8) -> (r: Result<Action, VmError>)
        requires
            old(self).wf(),
            x < 16,
        ensures
            final(self).wf(),
            final(self)@ == spec_add_byte(old(self)@, x as int, kk).post,
            r == spec_add_byte(old(self)@, x as int, kk).out,
    {
        let vx = self.get_reg(x);
        let sum = vx as u16 + kk as u16;
        self.set_reg(x, (sum % 0x100) as u8);
        Ok(Action::Continue)
    }

    /// LD register form.
    pub fn op_ld_reg(&mut self, x: u8, y: u8) -> (r: Result<Action, VmError>)
        requires
            old(self).wf(),
            x < 16,
            y < 16,
        ensures
            final(self).wf(),
            final(self)@ == spec_ld_reg(old(self)@, x as int, y as int).post,
            r == spec_ld_reg(old(self)@, x as int, y as int).out,
    {
        let vy = self.get_reg(y);
        self.set_reg(x, vy);
        Ok(Action::Continue)
    }

    /// OR: bitwise in place; no flag effect.
    pub fn op_or(&mut self, x: u8, y: u8) -> (r: Result<Action, VmError>)
        requires
            old(self).wf(),
            x < 16,
            y < 16,
        ensures
            final(self).wf(),
            final(self)@ == spec_or(old(self)@, x as int, y as int).post,
            r == spec_or(old(self)@, x as int, y as int).out,
    {
        let vx = self.get_reg(x);
        let vy = self.get_reg(y);
        self.set_reg(x, vx | vy);
        Ok(Action::Continue)
    }

    /// AND: bitwise in place; no flag effect.
    pub fn op_and(&mut self, x: u8, y: u8) -> (r: Result<Action, VmError>)
        requires
            old(self).wf(),
            x < 16,
            y < 16,
        ensures
            final(self).wf(),
            final(self)@ == spec_and(old(self)@, x as int, y as int).post,
            r == spec_and(old(self)@, x as int, y as int).out,
    {
        let vx = self.get_reg(x);
        let vy = self.get_reg(y);
        self.set_reg(x, vx & vy);
        Ok(Action::Continue)
    }

    /// XOR: bitwise in place; no flag effect.
    pub fn op_xor(&mut self, x: u8, y: u8) -> (r: Result<Action, VmError>)
        requires
            old(self).wf(),
            x < 16,
            y < 16,
        ensures
            final(self).wf(),
            final(self)@ == spec_xor(old(self)@, x as int, y as int).post,
            r == spec_xor(old(self)@, x as int, y as int).out,
    {
        let vx = self.get_reg(x);
        let vy = self.get_reg(y);
        self.set_reg(x, vx ^ vy);
        Ok(Action::Continue)
    }

    /// ADD register form: both operands are read before either write,
    /// the result wraps at eight bits, and the flag register gets 1
    /// exactly when the unsigned sum overflows.
    pub fn op_add(&mut self, x: u8, y: u8) -> (r: Result<Action, VmError>)
        requires
            old(self).wf(),
            x < 16,
            y < 16,
        ensures
            final(self).wf(),
            final(self)@ == spec_add(old(self)@, x as int, y as int).post,
            r == spec_add(old(self)@, x as int, y as int).out,
    {
        let vx = self.get_reg(x);
        let vy = self.get_reg(y);
        let sum = vx as u16 + vy as u16;
        self.set_reg(x, (sum % 0x100) as u8);
        self.set_reg(VF, if sum > 0xFF { 1 } else { 0 });
        Ok(Action::Continue)
    }

    /// SUB: both operands are read first, the difference wraps at
    /// eight bits, and the flag register gets 1 exactly when no borrow
    /// occurred.
    pub fn op_sub(&mut self, x: u8, y: u8) -> (r: Result<Action, VmError>)
        requires
            old(self).wf(),
            x < 16,
            y < 16,
        ensures
            final(self).wf(),
            final(self)@ == spec_sub(old(self)@, x as int, y as int).post,
            r == spec_sub(old(self)@, x as int, y as int).out,
    {
        let vx = self.get_reg(x);
        let vy = self.get_reg(y);
        let diff = (vx as u16 + 0x100) - vy as u16;
        proof {
            vstd::arithmetic::div_mod::lemma_mod_multiples_vanish(
                1,
                vx as int - vy as int,
                0x100,
            );
        }
        self.set_reg(x, (diff % 0x100) as u8);
        self.set_reg(VF, if vx >= vy { 1 } else { 0 });
        Ok(Action::Continue)
    }

    /// SHR: the flag register gets the pre-shift least significant
    /// bit, then the register is shifted right once.
    pub fn op_shr(&mut self, x: u8) -> (r: Result<Action, VmError>)
        requires
            old(self).wf(),
            x < 16,
        ensures
            final(self).wf(),
            final(self)@ == spec_shr(old(self)@, x as int).post,
            r == spec_shr(old(self)@, x as int).out,
    {
        let vx = self.get_reg(x);
        self.set_reg(VF, vx & 1);
        let cur = self.get_reg(x);
        self.set_reg(x, cur >> 1u8);
        Ok(Action::Continue)
    }

    /// SUBN: both operands are read first, the reversed difference
    /// wraps at eight bits, and the flag register gets 1 exactly when
    /// no borrow occurred.
    pub fn op_subn(&mut self, x: u8, y: u8) -> (r: Result<Action, VmError>)
        requires
            old(self).wf(),
            x < 16,
            y < 16,
        ensures
            final(self).wf(),
            final(self)@ == spec_subn(old(self)@, x as int, y as int).post,
            r == spec_subn(old(self)@, x as int, y as int).out,
    {
        let vx = self.get_reg(x);
        let vy = self.get_reg(y);
        let diff = (vy as u16 + 0x100) - vx as u16;
        proof {
            vstd::arithmetic::div_mod::lemma_mod_multiples_vanish(
                1,
                vy as int - vx as int,
                0x100,
            );
        }
        self.set_reg(x, (diff % 0x100) as u8);
        self.set_reg(VF, if vy >= vx { 1 } else { 0 });
        Ok(Action::Continue)
    }

    /// SHL: the flag register gets the pre-shift most significant bit,
    /// then the register is doubled with wraparound.
    pub fn op_shl(&mut self, x: u8) -> (r: Result<Action, VmError>)
        requires
            old(self).wf(),
            x < 16,
        ensures
            final(self).wf(),
            final(self)@ == spec_shl(old(self)@, x as int).post,
            r == spec_shl(old(self)@, x as int).out,
    {
        let vx = self.get_reg(x);
        self.set_reg(VF, vx >> 7u8);
        let cur = self.get_reg(x);
        let dbl = (cur as u16 * 2) % 0x100;
        self.set_reg(x, dbl as u8);
        Ok(Action::Continue)
    }

    /// LD I: the index register gets the address.
    pub fn op_ld_i(&mut self, addr: u16) -> (r: Result<Action, VmError>)
        requires
            old(self).wf(),
        ensures
            final(self).wf(),
            final(self)@ == spec_ld_i(old(self)@, addr).post,
            r == spec_ld_i(old(self)@, addr).out,
    {
        self.ireg = addr;
        Ok(Action::Continue)
    }

    /// JP V0 form: jump to the address plus register zero.
    pub fn op_ld_v0(&mut self, addr: u16) -> (r: Result<Action, VmError>)
        requires
            old(self).wf(),
            addr < 0x1000,
        ensures
            final(self).wf(),
            final(self)@ == spec_ld_v0(old(self)@, addr).post,
            r == spec_ld_v0(old(self)@, addr).out,
    {
        let v0 = self.get_reg(0);
        self.pc = addr + v0 as u16;
        Ok(Action::Continue)
    }

    /// RND: a fresh random byte masked with the immediate goes into
    /// the register; every other part of the state is untouched.
    pub fn op_rnd(&mut self, x: u8, kk: u8) -> (r: Result<Action, VmError>)
        requires
            old(self).wf(),
            x < 16,
        ensures
            final(self).wf(),
            exists|rnd: u8| final(self)@ == (#[trigger] spec_rnd(
                old(self)@,
                x as int,
                kk,
                rnd,
            )).post,
            r == Ok::<Action, VmError>(Action::Continue),
    {
        let b = random_byte();
        self.set_reg(x, b & kk);
        proof {
            assert(self@ == spec_rnd(old(self)@, x as int, kk, b).post);
        }
        Ok(Action::Continue)
    }

    /// SKP: skip when the key named by the register is down in the
    /// key bitmask.
    pub fn op_skp(&mut self, x: u8, keys: u16) -> (r: Result<Action, VmError>)
        requires
            old(self).wf(),
            x < 16,
        ensures
            final(self).wf(),
            final(self)@ == spec_skp(old(self)@, x as int, keys).post,
            r == spec_skp(old(self)@, x as int, keys).out,
    {
        let k = self.get_reg(x);
        if key_pressed(keys, k) {
            self.skip_instruction();
        }
        Ok(Action::Continue)
    }

    /// SKNP: skip when that key is not down.
    pub fn op_sknp(&mut self, x: u8, keys: u16) -> (r: Result<Action, VmError>)
        requires
            old(self).wf(),
            x < 16,
        ensures
            final(self).wf(),
            final(self)@ == spec_sknp(old(self)@, x as int, keys).post,
            r == spec_sknp(old(self)@, x as int, keys).out,
    {
        let k = self.get_reg(x);
        if !key_pressed(keys, k) {
            self.skip_instruction();
        }
        Ok(Action::Continue)
    }

    /// LD from delay timer.
    pub fn op_ld_vx_dt(&mut self, x: u8) -> (r: Result<Action, VmError>)
        requires
            old(self).wf(),
            x < 16,
        ensures
            final(self).wf(),
            final(self)@ == spec_ld_vx_dt(old(self)@, x as int).post,
            r == spec_ld_vx_dt(old(self)@, x as int).out,
    {
        let d = self.delay_reg;
        self.set_reg(x, d);
        Ok(Action::Continue)
    }

    /// LD into delay timer.
    pub fn op_ld_dt_vx(&mut self, x: u8) -> (r: Result<Action, VmError>)
        requires
            old(self).wf(),
            x < 16,
        ensures
            final(self).wf(),
            final(self)@ == spec_ld_dt_vx(old(self)@, x as int).post,
            r == spec_ld_dt_vx(old(self)@, x as int).out,
    {
        self.delay_reg = self.get_reg(x);
        Ok(Action::Continue)
    }

    /// LD into sound timer.
    pub fn op_ld_st_vx(&mut self, x: u8) -> (r: Result<Action, VmError>)
        requires
            old(self).wf(),
            x < 16,
        ensures
            final(self).wf(),
            final(self)@ == spec_ld_st_vx(old(self)@, x as int).post,
            r == spec_ld_st_vx(old(self)@, x as int).out,
    {
        self.sound_reg = self.get_reg(x);
        Ok(Action::Continue)
    }

    /// ADD I: sixteen-bit wraparound sum into the index register.
    pub fn op_add_i_vx(&mut self, x: u8) -> (r: Result<Action, VmError>)
        requires
            old(self).wf(),
            x < 16,
        ensures
            final(self).wf(),
            final(self)@ == spec_add_i_vx(old(self)@, x as int).post,
            r == spec_add_i_vx(old(self)@, x as int).out,
    {
        let vx = self.get_reg(x);
        self.ireg = ((self.ireg as u32 + vx as u32) % 0x10000) as u16;
        Ok(Action::Continue)
    }

    /// LD F: the index register points at the built-in glyph for the
    /// hex digit in the register; fails when the value is no hex
    /// digit.
    pub fn op_ld_f_vx(&mut self, x: u8) -> (r: Result<Action, VmError>)
        requires
            old(self).wf(),
            x < 16,
        ensures
            final(self).wf(),
            final(self)@ == spec_ld_f_vx(old(self)@, x as int).post,
            r == spec_ld_f_vx(old(self)@, x as int).out,
    {
        let vx = self.get_reg(x);
        match self.cpu_mem.get_font_sprite_addr(vx) {
            None => Err(VmError::OutOfBounds),
            Some(a) => {
                self.ireg = a;
                Ok(Action::Continue)
            },
        }
    }

    /// DRW: the sprite bytes under the index register are XOR-blitted
    /// onto the display at the coordinates held by the two registers;
    /// the flag register reports the collision and the backend
    /// redraws. Fails, changing nothing, when the sprite bytes or the
    /// blit leave their bounds.
    pub fn op_drw(&mut self, x: u8, y: u8, n: u8) -> (r: Result<Action, VmError>)
        requires
            old(self).wf(),
            x < 16,
            y < 16,
        ensures
            final(self).wf(),
            final(self)@ == spec_drw(old(self)@, x as int, y as int, n).post,
            r == spec_drw(old(self)@, x as int, y as int, n).out,
    {
        proof {
            self.cpu_mem.lemma_wf();
        }
        let px = self.get_reg(x);
        let py = self.get_reg(y);
        let collision = match self.cpu_mem.get_sprites(self.ireg, n) {
            None => {
                return Err(VmError::OutOfBounds);
            },
            Some(sprites) => {
                match self.gfx_mem.apply_sprites(px, py, sprites) {
                    None => {
                        return Err(VmError::OutOfBounds);
                    },
                    Some(c) => c,
                }
            },
        };
        self.set_reg(VF, collision);
        Ok(Action::Redraw)
    }

    /// Key wait: with a key down in the bitmask, the highest one goes
    /// into the register; with none, the program counter steps back
    /// onto this instruction and the caller is told to wait for input
    /// before cycling again.
    pub fn op_w_key(&mut self, x: u8, keys: u16) -> (r: Result<Action, VmError>)
        requires
            old(self).wf(),
            x < 16,
            old(self)@.pc >= 2,
        ensures
            final(self).wf(),
            final(self)@ == spec_w_key(old(self)@, x as int, keys).post,
            r == spec_w_key(old(self)@, x as int, keys).out,
    {
        let mut key: Option<u8> = None;
        let mut i: u8 = 0;
        while i < 16
            invariant
                i <= 16,
                key == highest_key(keys, i as int),
                key matches Some(k) ==> k < 16,
            decreases 16 - i,
        {
            if key_pressed(keys, i) {
                key = Some(i);
            }
            i += 1;
        }

        match key {
            Some(k) => {
                self.set_reg(x, k);
                Ok(Action::Continue)
            },
            None => {
                self.pc = self.pc - 2;
                Ok(Action::WaitKey)
            },
        }
    }

    /// LD B: the register's three decimal digits are stored at I,
    /// I+1, I+2, most significant first; fails, changing nothing,
    /// when they do not fit the address space.
    pub fn op_ld_b_vx(&mut self, x: u8) -> (r: Result<Action, VmError>)
        requires
            old(self).wf(),
            x < 16,
        ensures
            final(self).wf(),
            final(self)@ == spec_ld_b_vx(old(self)@, x as int).post,
            r == spec_ld_b_vx(old(self)@, x as int).out,
    {
        if self.ireg as usize + 2 >= MEM_SIZE {
            return Err(VmError::OutOfBounds);
        }
        let vx = self.get_reg(x);
        let base = self.ireg;
        let _ = self.cpu_mem.set_u8(base, vx / 100);
        let _ = self.cpu_mem.set_u8(base + 1, (vx / 10) % 10);
        let _ = self.cpu_mem.set_u8(base + 2, vx % 10);
        Ok(Action::Continue)
    }

    /// LD [I]: registers 0 through X inclusive are stored at I
    /// onward; fails, changing nothing, when the range leaves the
    /// address space.
    pub fn op_ld_i_vx(&mut self, x: u8) -> (r: Result<Action, VmError>)
        requires
            old(self).wf(),
            x < 16,
        ensures
            final(self).wf(),
            final(self)@ == spec_ld_i_vx(old(self)@, x as int).post,
            r == spec_ld_i_vx(old(self)@, x as int).out,
    {
        if self.ireg as usize + x as usize >= MEM_SIZE {
            return Err(VmError::OutOfBounds);
        }
        proof {
            self.cpu_mem.lemma_wf();
        }
        let base = self.ireg;
        let mut i: u8 = 0;
        while i <= x
            invariant
                i <= x + 1,
                x < 16,
                base == old(self)@.ireg,
                base + x < MEM_SIZE,
                self.wf(),
                self@.regs == old(self)@.regs,
                self@.ireg == old(self)@.ireg,
                self@.pc == old(self)@.pc,
                self@.delay == old(self)@.delay,
                self@.sound == old(self)@.sound,
                self@.stack == old(self)@.stack,
                self@.disp == old(self)@.disp,
                self@.mem.len() == MEM_SIZE,
                forall|j: int| base <= j < base + i ==> self@.mem[j] == old(self)@.regs[j - base],
                forall|j: int| 0 <= j < MEM_SIZE && !(base <= j < base + i)
                    ==> self@.mem[j] == old(self)@.mem[j],
            decreases x + 1 - i,
        {
            let val = self.get_reg(i);
            let _ = self.cpu_mem.set_u8(base + i as u16, val);
            i += 1;
        }
        proof {
            assert(self@.mem =~= Seq::new(
                MEM_SIZE as nat,
                |j: int| if old(self)@.ireg <= j <= old(self)@.ireg + x {
                    old(self)@.regs[j - old(self)@.ireg]
                } else {
                    old(self)@.mem[j]
                },
            ));
            assert(self@ =~= spec_ld_i_vx(old(self)@, x as int).post);
        }
        Ok(Action::Continue)
    }

    /// LD from [I]: registers 0 through X inclusive are loaded from I
    /// onward, the rest keep their values; fails, changing nothing,
    /// when the range leaves the address space.
    pub fn op_ld_vx_i(&mut self, x: u8) -> (r: Result<Action, VmError>)
        requires
            old(self).wf(),
            x < 16,
        ensures
            final(self).wf(),
            final(self)@ == spec_ld_vx_i(old(self)@, x as int).post,
            r == spec_ld_vx_i(old(self)@, x as int).out,
    {
        if self.ireg as usize + x as usize >= MEM_SIZE {
            return Err(VmError::OutOfBounds);
        }
        proof {
            self.cpu_mem.lemma_wf();
        }
        let base = self.ireg;
        let mut i: u8 = 0;
        while i <= x
            invariant
                i <= x + 1,
                x < 16,
                base == old(self)@.ireg,
                base + x < MEM_SIZE,
                self.wf(),
                self@.regs.len() == NUM_GP_REGS,
                self@.ireg == old(self)@.ireg,
                self@.pc == old(self)@.pc,
                self@.delay == old(self)@.delay,
                self@.sound == old(self)@.sound,
                self@.mem == old(self)@.mem,
                self@.stack == old(self)@.stack,
                self@.disp == old(self)@.disp,
                forall|j: int| 0 <= j < i ==> self@.regs[j] == old(self)@.mem[base + j],
                forall|j: int| i <= j < 16 ==> self@.regs[j] == old(self)@.regs[j],
            decreases x + 1 - i,
        {
            let addr = base + i as u16;
            let val = self.cpu_mem.get_u8(addr).unwrap();
            self.set_reg(i, val);
            i += 1;
        }
        proof {
            assert(self@.regs =~= Seq::new(
                16,
                |j: int| if j <= x {
                    old(self)@.mem[old(self)@.ireg + j]
                } else {
                    old(self)@.regs[j]
                },
            ));
            assert(self@ =~= spec_ld_vx_i(old(self)@, x as int).post);
        }
        Ok(Action::Continue)
    }

    /// Executes one decoded instruction: dispatches on the opcode
    /// identifier and does to the state exactly what `spec_step`
    /// prescribes. The random byte an RND instruction draws is
    /// existentially quantified; every other opcode is deterministic.
    pub fn execute(&mut self, id: u16, arg: (u8, u8, u8, u8), keys: u16) -> (r: Result<
        Action,
        VmError,
    >)
        requires
            old(self).wf(),
            arg.0 < 0x10,
            arg.1 < 0x10,
            arg.2 < 0x10,
            arg.3 < 0x10,
            id == 0xF00A ==> old(self)@.pc >= 2,
        ensures
            final(self).wf(),
            exists|rnd: u8|
                #[trigger] step_match(old(self)@, final(self)@, r, id, arg, keys, rnd),
            id != 0xC000 ==> step_match(old(self)@, final(self)@, r, id, arg, keys, 0u8),
    {
        if id == 0x00E0 {
            let r = self.op_cls();
            proof {
                assert(step_match(old(self)@, self@, r, id, arg, keys, 0u8));
            }
            r
        } else if id == 0x00EE {
            let r = self.op_ret();
            proof {
                assert(step_match(old(self)@, self@, r, id, arg, keys, 0u8));
            }
            r
        } else if id == 0x1000 {
            let r = self.op_jp(to_addr((arg.1, arg.2, arg.3)));
            proof {
                assert(step_match(old(self)@, self@, r, id, arg, keys, 0u8));
            }
            r
        } else if id == 0x2000 {
            let r = self.op_call(to_addr((arg.1, arg.2, arg.3)));
            proof {
                assert(step_match(old(self)@, self@, r, id, arg, keys, 0u8));
            }
            r
        } else if id == 0x3000 {
            let r = self.op_se_byte(arg.1, to_u8((arg.2, arg.3)));
            proof {
                assert(step_match(old(self)@, self@, r, id, arg, keys, 0u8));
            }
            r
        } else if id == 0x4000 {
            let r = self.op_sne_byte(arg.1, to_u8((arg.2, arg.3)));
            proof {
                assert(step_match(old(self)@, self@, r, id, arg, keys, 0u8));
            }
            r
        } else if id == 0x5000 {
            let r = self.op_se_reg(arg.1, arg.2);
            proof {
                assert(step_match(old(self)@, self@, r, id, arg, keys, 0u8));
            }
            r
        } else if id == 0x6000 {
            let r = self.op_ld_byte(arg.1, to_u8((arg.2, arg.3)));
            proof {
                assert(step_match(old(self)@, self@, r, id, arg, keys, 0u8));
            }
            r
        } else if id == 0x7000 {
            let r = self.op_add_byte(arg.1, to_u8((arg.2, arg.3)));
            proof {
                assert(step_match(old(self)@, self@, r, id, arg, keys, 0u8));
            }
            r
        } else if id == 0x8000 {
            let r = self.op_ld_reg(arg.1, arg.2);
            proof {
                assert(step_match(old(self)@, self@, r, id, arg, keys, 0u8));
            }
            r
        } else if id == 0x8001 {
            let r = self.op_or(arg.1, arg.2);
            proof {
                assert(step_match(old(self)@, self@, r, id, arg, keys, 0u8));
            }
            r
        } else if id == 0x8002 {
            let r = self.op_and(arg.1, arg.2);
            proof {
                assert(step_match(old(self)@, self@, r, id, arg, keys, 0u8));
            }
            r
        } else if id == 0x8003 {
            let r = self.op_xor(arg.1, arg.2);
            proof {
                assert(step_match(old(self)@, self@, r, id, arg, keys, 0u8));
            }
            r
        } else if id == 0x8004 {
            let r = self.op_add(arg.1, arg.2);
            proof {
                assert(step_match(old(self)@, self@, r, id, arg, keys, 0u8));
            }
            r
        } else if id == 0x8005 {
            let r = self.op_sub(arg.1, arg.2);
            proof {
                assert(step_match(old(self)@, self@, r, id, arg, keys, 0u8));
            }
            r
        } else if id == 0x8006 {
            let r = self.op_shr(arg.1);
            proof {
                assert(step_match(old(self)@, self@, r, id, arg, keys, 0u8));
            }
            r
        } else if id == 0x8007 {
            let r = self.op_subn(arg.1, arg.2);
            proof {
                assert(step_match(old(self)@, self@, r, id, arg, keys, 0u8));
            }
            r
        } else if id == 0x800E {
            let r = self.op_shl(arg.1);
            proof {
                assert(step_match(old(self)@, self@, r, id, arg, keys, 0u8));
            }
            r
        } else if id == 0x9000 {
            let r = self.op_sne_reg(arg.1, arg.2);
            proof {
                assert(step_match(old(self)@, self@, r, id, arg, keys, 0u8));
            }
            r
        } else if id == 0xA000 {
            let r = self.op_ld_i(to_addr((arg.1, arg.2, arg.3)));
            proof {
                assert(step_match(old(self)@, self@, r, id, arg, keys, 0u8));
            }
            r
        } else if id == 0xB000 {
            let r = self.op_ld_v0(to_addr((arg.1, arg.2, arg.3)));
            proof {
                assert(step_match(old(self)@, self@, r, id, arg, keys, 0u8));
            }
            r
        } else if id == 0xC000 {
            let kk = to_u8((arg.2, arg.3));
            let r = self.op_rnd(arg.1, kk);
            proof {
                let rnd0 = choose|rnd: u8|
                    self@ == (#[trigger] spec_rnd(old(self)@, arg.1 as int, kk, rnd)).post;
                assert(step_match(old(self)@, self@, r, id, arg, keys, rnd0));
            }
            r
        } else if id == 0xD000 {
            let r = self.op_drw(arg.1, arg.2, arg.3);
            proof {
                assert(step_match(old(self)@, self@, r, id, arg, keys, 0u8));
            }
            r
        } else if id == 0xE09E {
            let r = self.op_skp(arg.1, keys);
            proof {
                assert(step_match(old(self)@, self@, r, id, arg, keys, 0u8));
            }
            r
        } else if id == 0xE0A1 {
            let r = self.op_sknp(arg.1, keys);
            proof {
                assert(step_match(old(self)@, self@, r, id, arg, keys, 0u8));
            }
            r
        } else if id == 0xF007 {
            let r = self.op_ld_vx_dt(arg.1);
            proof {
                assert(step_match(old(self)@, self@, r, id, arg, keys, 0u8));
            }
            r
        } else if id == 0xF00A {
            let r = self.op_w_key(arg.1, keys);
            proof {
                assert(step_match(old(self)@, self@, r, id, arg, keys, 0u8));
            }
            r
        } else if id == 0xF015 {
            let r = self.op_ld_dt_vx(arg.1);
            proof {
                assert(step_match(old(self)@, self@, r, id, arg, keys, 0u8));
            }
            r
        } else if id == 0xF018 {
            let r = self.op_ld_st_vx(arg.1);
            proof {
                assert(step_match(old(self)@, self@, r, id, arg, keys, 0u8));
            }
            r
        } else if id == 0xF01E {
            let r = self.op_add_i_vx(arg.1);
            proof {
                assert(step_match(old(self)@, self@, r, id, arg, keys, 0u8));
            }
            r
        } else if id == 0xF029 {
            let r = self.op_ld_f_vx(arg.1);
            proof {
                assert(step_match(old(self)@, self@, r, id, arg, keys, 0u8));
            }
            r
        } else if id == 0xF033 {
            let r = self.op_ld_b_vx(arg.1);
            proof {
                assert(step_match(old(self)@, self@, r, id, arg, keys, 0u8));
            }
            r
        } else if id == 0xF055 {
            let r = self.op_ld_i_vx(arg.1);
            proof {
                assert(step_match(old(self)@, self@, r, id, arg, keys, 0u8));
            }
            r
        } else if id == 0xF065 {
            let r = self.op_ld_vx_i(arg.1);
            proof {
                assert(step_match(old(self)@, self@, r, id, arg, keys, 0u8));
            }
            r
        } else {
            proof {
                assert(step_match(
                    old(self)@,
                    self@,
                    Err::<Action, VmError>(VmError::UnknownOpcode),
                    id,
                    arg,
                    keys,
                    0u8,
                ));
            }
            Err(VmError::UnknownOpcode)
        }
    }

    /// One whole pipeline cycle, exactly as `spec_cycle` prescribes:
    /// fetch the word under the program counter, advance past it,
    /// decode, execute, and on anything but a fatal error step the
    /// timers. Under the `Skip` policy an unknown opcode is passed
    /// over instead of halting.
    pub fn cycle(&mut self, keys: u16, policy: OpcodePolicy) -> (r: Result<Action, VmError>)
        requires
            old(self).wf(),
        ensures
            final(self).wf(),
            exists|rnd: u8|
                #[trigger] cycle_match(old(self)@, final(self)@, r, keys, policy, rnd),
    {
        let ghost v0 = old(self)@;
        let w = match self.fetch() {
            Err(e) => {
                proof {
                    assert(cycle_match(
                        v0,
                        self@,
                        Err::<Action, VmError>(VmError::OutOfBounds),
                        keys,
                        policy,
                        0u8,
                    ));
                }
                return Err(e);
            },
            Ok(w) => w,
        };
        let ghost v1 = self@;
        let (id, arg) = self.decode(w).unwrap();
        proof {
            lemma_octets_bounds(w);
        }
        let res = self.execute(id, arg, keys);
        let ghost v2 = self@;
        let ghost rnd0 = choose|rnd: u8| step_match(v1, v2, res, id, arg, keys, rnd);
        match res {
            Ok(a) => {
                self.update_timers();
                proof {
                    assert(cycle_match(v0, self@, Ok::<Action, VmError>(a), keys, policy, rnd0));
                }
                Ok(a)
            },
            Err(e) => {
                if e == VmError::UnknownOpcode && policy == OpcodePolicy::Skip {
                    self.update_timers();
                    proof {
                        assert(cycle_match(
                            v0,
                            self@,
                            Ok::<Action, VmError>(Action::Continue),
                            keys,
                            policy,
                            rnd0,
                        ));
                    }
                    Ok(Action::Continue)
                } else {
                    proof {
                        assert(cycle_match(v0, self@, Err::<Action, VmError>(e), keys, policy, rnd0));
                    }
                    Err(e)
                }
            },
        }
    }

    /// Steps both timers down once, saturating at zero.
    pub fn update_timers(&mut self)
        requires
            old(self).wf(),
        ensures
            final(self).wf(),
            final(self)@ == ticked(old(self)@),
    {
        self.delay_reg = self.delay_reg.saturating_sub(1);
        self.sound_reg = self.sound_reg.saturating_sub(1);
    }
}

} // verus!
