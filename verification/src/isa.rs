//! The instruction set, stated mathematically: the abstract CPU state,
//! the decode tables, and one transition function per opcode. The
//! executable pipeline in `cpu` is verified against these definitions.

use vstd::prelude::*;

use crate::display::blit;
use crate::display::collided;
use crate::display::DISPLAY_BYTES;
use crate::display::DISPLAY_TOTAL_HEIGHT;
use crate::display::DISPLAY_VISIBLE_WIDTH;
use crate::memory::MEM_SIZE;
use crate::memory::SPRITE_SIZE;
use crate::memory::FONT_GLYPHS;
use crate::stack::STACK_SIZE;

verus! {

/// The abstract state of the whole machine: the sixteen general
/// registers, the index register, the program counter, the two
/// timers, the byte store, the call stack and the pixel buffer.
#[verifier::ext_equal]
pub ghost struct CpuView {
    pub regs: Seq<u8>,
    pub ireg: u16,
    pub pc: u16,
    pub delay: u8,
    pub sound: u8,
    pub mem: Seq<u8>,
    pub stack: Seq<u16>,
    pub disp: Seq<u8>,
}

/// What a cycle hands back to the driving loop: keep going, redraw the
/// screen from the pixel buffer, or wait for a key before the retried
/// instruction can finish.
#[derive(Clone, Copy, Debug, PartialEq, Eq, Structural)]
pub enum Action {
    Continue,
    Redraw,
    WaitKey,
}

/// The fatal and policy-configurable failures of the pipeline.
#[derive(Clone, Copy, Debug, PartialEq, Eq, Structural)]
pub enum VmError {
    OutOfBounds,
    StackOverflow,
    StackUnderflow,
    UnknownOpcode,
}

/// What the pipeline does with an instruction no handler is registered
/// for: halt on it, or skip it and go on.
#[derive(Clone, Copy, Debug, PartialEq, Eq, Structural)]
pub enum OpcodePolicy {
    FailFast,
    Skip,
}

/// One transition: the state after the instruction and what the caller
/// is told.
#[verifier::ext_equal]
pub ghost struct Step {
    pub post: CpuView,
    pub out: Result<Action, VmError>,
}

impl CpuView {
    /// The shapes every reachable state keeps: sixteen registers, a
    /// full-size byte store and pixel buffer, a bounded call stack.
    pub open spec fn wf(self) -> bool {
        &&& self.regs.len() == 16
        &&& self.mem.len() == MEM_SIZE
        &&& self.stack.len() <= STACK_SIZE
        &&& self.disp.len() == DISPLAY_BYTES
    }

    pub open spec fn with_regs(self, regs: Seq<u8>) -> CpuView {
        CpuView { regs, ..self }
    }

    pub open spec fn with_ireg(self, ireg: u16) -> CpuView {
        CpuView { ireg, ..self }
    }

    pub open spec fn with_pc(self, pc: u16) -> CpuView {
        CpuView { pc, ..self }
    }

    pub open spec fn with_delay(self, delay: u8) -> CpuView {
        CpuView { delay, ..self }
    }

    pub open spec fn with_sound(self, sound: u8) -> CpuView {
        CpuView { sound, ..self }
    }

    pub open spec fn with_mem(self, mem: Seq<u8>) -> CpuView {
        CpuView { mem, ..self }
    }

    pub open spec fn with_stack(self, stack: Seq<u16>) -> CpuView {
        CpuView { stack, ..self }
    }

    pub open spec fn with_disp(self, disp: Seq<u8>) -> CpuView {
        CpuView { disp, ..self }
    }
}

/// A state left as it is, with the given outcome.
pub open spec fn stay(v: CpuView, out: Result<Action, VmError>) -> Step {
    Step { post: v, out }
}

/// A changed state whose instruction completed normally.
pub open spec fn go(post: CpuView) -> Step {
    Step { post, out: Ok(Action::Continue) }
}

/// Eight-bit wraparound.
pub open spec fn wrap8(i: int) -> u8 {
    (i % 0x100) as u8
}

/// Sixteen-bit wraparound.
pub open spec fn wrap16(i: int) -> u16 {
    (i % 0x10000) as u16
}

/// A timer decrement: down by one, saturating at zero, never wrapping.
pub open spec fn dec1(t: u8) -> u8 {
    if t == 0 {
        0u8
    } else {
        (t - 1) as u8
    }
}

/// True when key `k` is reported down in the key bitmask (bit `k` set,
/// keys beyond the sixteen-key pad are never down).
pub open spec fn key_down(keys: u16, k: u8) -> bool {
    k < 16 && (keys >> (k as u16)) & 1 == 1
}

/// The highest key below `n` that is down, if any: the key the
/// key-wait instruction picks when several are held.
pub open spec fn highest_key(keys: u16, n: int) -> Option<u8>
    decreases n,
{
    if n <= 0 {
        None
    } else if key_down(keys, (n - 1) as u8) {
        Some((n - 1) as u8)
    } else {
        highest_key(keys, n - 1)
    }
}

/// CLS: every pixel off; the backend is told to redraw.
pub open spec fn spec_cls(v: CpuView) -> Step {
    Step {
        post: v.with_disp(Seq::new(DISPLAY_BYTES as nat, |i: int| 0u8)),
        out: Ok(Action::Redraw),
    }
}

/// RET: the program counter returns to the most recent pushed address;
/// fails on an empty stack.
pub open spec fn spec_ret(v: CpuView) -> Step {
    if v.stack.len() == 0 {
        stay(v, Err(VmError::StackUnderflow))
    } else {
        go(v.with_pc(v.stack.last()).with_stack(v.stack.drop_last()))
    }
}

/// JP: jump.
pub open spec fn spec_jp(v: CpuView, addr: u16) -> Step {
    go(v.with_pc(addr))
}

/// CALL: the address of the next instruction is pushed, then the jump;
/// fails on a full stack.
pub open spec fn spec_call(v: CpuView, addr: u16) -> Step {
    if v.stack.len() == STACK_SIZE {
        stay(v, Err(VmError::StackOverflow))
    } else {
        go(v.with_stack(v.stack.push(v.pc)).with_pc(addr))
    }
}

/// The program counter moved past one instruction, as the skip
/// instructions do.
pub open spec fn skipped(v: CpuView) -> CpuView {
    v.with_pc(wrap16(v.pc + 2))
}

/// SE byte form: skip when the register equals the immediate.
pub open spec fn spec_se_byte(v: CpuView, x: int, kk: u8) -> Step {
    if v.regs[x] == kk {
        go(skipped(v))
    } else {
        go(v)
    }
}

/// SNE byte form: skip when the register differs from the immediate.
pub open spec fn spec_sne_byte(v: CpuView, x: int, kk: u8) -> Step {
    if v.regs[x] != kk {
        go(skipped(v))
    } else {
        go(v)
    }
}

/// SE register form: skip when the two registers are equal.
pub open spec fn spec_se_reg(v: CpuView, x: int, y: int) -> Step {
    if v.regs[x] == v.regs[y] {
        go(skipped(v))
    } else {
        go(v)
    }
}

/// SNE register form: skip when the two registers differ.
pub open spec fn spec_sne_reg(v: CpuView, x: int, y: int) -> Step {
    if v.regs[x] != v.regs[y] {
        go(skipped(v))
    } else {
        go(v)
    }
}

/// LD byte form: the immediate goes into the register.
pub open spec fn spec_ld_byte(v: CpuView, x: int, kk: u8) -> Step {
    go(v.with_regs(v.regs.update(x, kk)))
}

/// ADD byte form: eight-bit wraparound sum, and no flag side effect.
pub open spec fn spec_add_byte(v: CpuView, x: int, kk: u8) -> Step {
    go(v.with_regs(v.regs.update(x, wrap8(v.regs[x] + kk))))
}

/// LD register form.
pub open spec fn spec_ld_reg(v: CpuView, x: int, y: int) -> Step {
    go(v.with_regs(v.regs.update(x, v.regs[y])))
}

/// OR: bitwise in place; no flag effect.
pub open spec fn spec_or(v: CpuView, x: int, y: int) -> Step {
    go(v.with_regs(v.regs.update(x, v.regs[x] | v.regs[y])))
}

/// AND: bitwise in place; no flag effect.
pub open spec fn spec_and(v: CpuView, x: int, y: int) -> Step {
    go(v.with_regs(v.regs.update(x, v.regs[x] & v.regs[y])))
}

/// XOR: bitwise in place; no flag effect.
pub open spec fn spec_xor(v: CpuView, x: int, y: int) -> Step {
    go(v.with_regs(v.regs.update(x, v.regs[x] ^ v.regs[y])))
}

/// ADD register form: the result is `(vx + vy) mod 256`, and the flag
/// register gets 1 exactly when `vx + vy > 255`. Both operands are
/// read before either register is written.
pub open spec fn spec_add(v: CpuView, x: int, y: int) -> Step {
    let sum = v.regs[x] + v.regs[y];
    go(
        v.with_regs(
            v.regs.update(x, wrap8(sum)).update(0xF, if sum > 0xFF { 1u8 } else { 0u8 }),
        ),
    )
}

/// SUB: the result is `(vx - vy) mod 256`, and the flag register gets
/// 1 exactly when `vx >= vy` (no borrow).
pub open spec fn spec_sub(v: CpuView, x: int, y: int) -> Step {
    let diff = v.regs[x] - v.regs[y];
    go(
        v.with_regs(
            v.regs.update(x, wrap8(diff)).update(
                0xF,
                if v.regs[x] >= v.regs[y] {
                    1u8
                } else {
                    0u8
                },
            ),
        ),
    )
}

/// SHR: the flag register gets the bit shifted out (the pre-shift
/// least significant bit), then the register is halved. The flag is
/// written first, as the hardware convention orders it, so when the
/// operand is the flag register itself the shift reads the flag value.
pub open spec fn spec_shr(v: CpuView, x: int) -> Step {
    let flagged = v.regs.update(0xF, v.regs[x] & 1);
    go(v.with_regs(flagged.update(x, flagged[x] >> 1u8)))
}

/// SUBN: the result is `(vy - vx) mod 256`, and the flag register gets
/// 1 exactly when `vy >= vx`.
pub open spec fn spec_subn(v: CpuView, x: int, y: int) -> Step {
    let diff = v.regs[y] - v.regs[x];
    go(
        v.with_regs(
            v.regs.update(x, wrap8(diff)).update(
                0xF,
                if v.regs[y] >= v.regs[x] {
                    1u8
                } else {
                    0u8
                },
            ),
        ),
    )
}

/// SHL: the flag register gets the bit shifted out (the pre-shift most
/// significant bit), then the register is doubled with wraparound. The
/// flag is written first, as in SHR.
pub open spec fn spec_shl(v: CpuView, x: int) -> Step {
    let flagged = v.regs.update(0xF, v.regs[x] >> 7u8);
    go(v.with_regs(flagged.update(x, wrap8(2 * flagged[x]))))
}

/// LD I: the index register gets the address.
pub open spec fn spec_ld_i(v: CpuView, addr: u16) -> Step {
    go(v.with_ireg(addr))
}

/// JP V0 form: jump to the address plus register zero, as a 16-bit
/// sum; the landing spot is checked by the next fetch, not here.
pub open spec fn spec_ld_v0(v: CpuView, addr: u16) -> Step {
    go(v.with_pc(wrap16(addr + v.regs[0])))
}

/// RND: a random byte masked with the immediate.
pub open spec fn spec_rnd(v: CpuView, x: int, kk: u8, rnd: u8) -> Step {
    go(v.with_regs(v.regs.update(x, rnd & kk)))
}

/// DRW: the sprite bytes under the index register are XOR-composed
/// onto the display at the column and row held by the two registers;
/// the flag register reports the collision, and the backend is told to
/// redraw. Fails, changing nothing, when the sprite bytes leave the
/// address space or the blit leaves the stored rows.
pub open spec fn spec_drw(v: CpuView, x: int, y: int, n: u8) -> Step {
    if v.ireg + n > MEM_SIZE {
        stay(v, Err(VmError::OutOfBounds))
    } else {
        let sp = v.mem.subrange(v.ireg as int, v.ireg + n);
        let px = v.regs[x];
        let py = v.regs[y];
        if px < DISPLAY_VISIBLE_WIDTH && py + n <= DISPLAY_TOTAL_HEIGHT {
            let vf: u8 = if collided(v.disp, px as int, py as int, sp) {
                1u8
            } else {
                0u8
            };
            Step {
                post: v.with_disp(blit(v.disp, px as int, py as int, sp)).with_regs(
                    v.regs.update(0xF, vf),
                ),
                out: Ok(Action::Redraw),
            }
        } else {
            stay(v, Err(VmError::OutOfBounds))
        }
    }
}

/// SKP: skip when the key named by the register is down.
pub open spec fn spec_skp(v: CpuView, x: int, keys: u16) -> Step {
    if key_down(keys, v.regs[x]) {
        go(skipped(v))
    } else {
        go(v)
    }
}

/// SKNP: skip when that key is not down.
pub open spec fn spec_sknp(v: CpuView, x: int, keys: u16) -> Step {
    if !key_down(keys, v.regs[x]) {
        go(skipped(v))
    } else {
        go(v)
    }
}

/// LD from delay timer.
pub open spec fn spec_ld_vx_dt(v: CpuView, x: int) -> Step {
    go(v.with_regs(v.regs.update(x, v.delay)))
}

/// Key wait: with a key down, the highest one goes into the register;
/// with none, the program counter is stepped back onto this very
/// instruction and the driver is told to wait for input before the
/// next cycle retries it.
pub open spec fn spec_w_key(v: CpuView, x: int, keys: u16) -> Step {
    match highest_key(keys, 16) {
        Some(k) => go(v.with_regs(v.regs.update(x, k))),
        None => Step { post: v.with_pc((v.pc - 2) as u16), out: Ok(Action::WaitKey) },
    }
}

/// LD into delay timer.
pub open spec fn spec_ld_dt_vx(v: CpuView, x: int) -> Step {
    go(v.with_delay(v.regs[x]))
}

/// LD into sound timer.
pub open spec fn spec_ld_st_vx(v: CpuView, x: int) -> Step {
    go(v.with_sound(v.regs[x]))
}

/// ADD I: sixteen-bit sum into the index register; the instruction set
/// defines no overflow flag here.
pub open spec fn spec_add_i_vx(v: CpuView, x: int) -> Step {
    go(v.with_ireg(wrap16(v.ireg + v.regs[x])))
}

/// LD F: the index register points at the built-in glyph for the hex
/// digit held by the register; fails when the value is no hex digit.
pub open spec fn spec_ld_f_vx(v: CpuView, x: int) -> Step {
    if v.regs[x] < FONT_GLYPHS {
        go(v.with_ireg((SPRITE_SIZE * v.regs[x]) as u16))
    } else {
        stay(v, Err(VmError::OutOfBounds))
    }
}

/// LD B: the register's three decimal digits land at I, I+1, I+2, most
/// significant first; fails, changing nothing, when they do not fit.
pub open spec fn spec_ld_b_vx(v: CpuView, x: int) -> Step {
    if v.ireg + 2 < MEM_SIZE {
        let vx = v.regs[x];
        go(
            v.with_mem(
                v.mem.update(v.ireg as int, vx / 100).update(v.ireg + 1, (vx / 10) % 10).update(
                    v.ireg + 2,
                    vx % 10,
                ),
            ),
        )
    } else {
        stay(v, Err(VmError::OutOfBounds))
    }
}

/// LD [I]: registers 0 through X inclusive are stored at I onward;
/// fails, changing nothing, when the range leaves the address space.
pub open spec fn spec_ld_i_vx(v: CpuView, x: int) -> Step {
    if v.ireg + x < MEM_SIZE {
        go(
            v.with_mem(
                Seq::new(
                    MEM_SIZE as nat,
                    |j: int| if v.ireg <= j <= v.ireg + x {
                        v.regs[j - v.ireg]
                    } else {
                        v.mem[j]
                    },
                ),
            ),
        )
    } else {
        stay(v, Err(VmError::OutOfBounds))
    }
}

/// LD from [I]: registers 0 through X inclusive are loaded from I
/// onward, the rest keep their values; fails, changing nothing, when
/// the range leaves the address space.
pub open spec fn spec_ld_vx_i(v: CpuView, x: int) -> Step {
    if v.ireg + x < MEM_SIZE {
        go(
            v.with_regs(
                Seq::new(
                    16,
                    |i: int| if i <= x {
                        v.mem[v.ireg + i]
                    } else {
                        v.regs[i]
                    },
                ),
            ),
        )
    } else {
        stay(v, Err(VmError::OutOfBounds))
    }
}

/// The four nibbles of an instruction word, most significant first.
pub open spec fn spec_octets(w: u16) -> (u8, u8, u8, u8) {
    (((w >> 12) & 0xf) as u8, ((w >> 8) & 0xf) as u8, ((w >> 4) & 0xf) as u8, (w & 0xf) as u8)
}

/// The opcode identifier of an instruction word: the family-specific
/// masking of its nibbles that picks the handler.
pub open spec fn spec_id(w: u16) -> u16 {
    let o = spec_octets(w);
    if o.0 == 0x0 {
        (o.2 * 0x10 + o.3) as u16
    } else if o.0 == 0x8 {
        (o.0 * 0x1000 + o.3) as u16
    } else if o.0 == 0xE || o.0 == 0xF {
        (o.0 * 0x1000 + o.2 * 0x10 + o.3) as u16
    } else {
        (o.0 * 0x1000) as u16
    }
}

/// The byte immediate of an instruction word.
pub open spec fn spec_kk(arg: (u8, u8, u8, u8)) -> u8 {
    (arg.2 * 0x10 + arg.3) as u8
}

/// The address immediate of an instruction word.
pub open spec fn spec_addr(arg: (u8, u8, u8, u8)) -> u16 {
    (arg.1 * 0x100 + arg.2 * 0x10 + arg.3) as u16
}

/// The whole instruction set: what executing identifier `id` with
/// argument nibbles `arg` does to state `v`, given the key bitmask and
/// the random byte drawn for RND. An identifier no opcode owns is an
/// unknown-opcode failure.
pub open spec fn spec_step(
    v: CpuView,
    id: u16,
    arg: (u8, u8, u8, u8),
    keys: u16,
    rnd: u8,
) -> Step {
    let x = arg.1 as int;
    let y = arg.2 as int;
    if id == 0x00E0 {
        spec_cls(v)
    } else if id == 0x00EE {
        spec_ret(v)
    } else if id == 0x1000 {
        spec_jp(v, spec_addr(arg))
    } else if id == 0x2000 {
        spec_call(v, spec_addr(arg))
    } else if id == 0x3000 {
        spec_se_byte(v, x, spec_kk(arg))
    } else if id == 0x4000 {
        spec_sne_byte(v, x, spec_kk(arg))
    } else if id == 0x5000 {
        spec_se_reg(v, x, y)
    } else if id == 0x6000 {
        spec_ld_byte(v, x, spec_kk(arg))
    } else if id == 0x7000 {
        spec_add_byte(v, x, spec_kk(arg))
    } else if id == 0x8000 {
        spec_ld_reg(v, x, y)
    } else if id == 0x8001 {
        spec_or(v, x, y)
    } else if id == 0x8002 {
        spec_and(v, x, y)
    } else if id == 0x8003 {
        spec_xor(v, x, y)
    } else if id == 0x8004 {
        spec_add(v, x, y)
    } else if id == 0x8005 {
        spec_sub(v, x, y)
    } else if id == 0x8006 {
        spec_shr(v, x)
    } else if id == 0x8007 {
        spec_subn(v, x, y)
    } else if id == 0x800E {
        spec_shl(v, x)
    } else if id == 0x9000 {
        spec_sne_reg(v, x, y)
    } else if id == 0xA000 {
        spec_ld_i(v, spec_addr(arg))
    } else if id == 0xB000 {
        spec_ld_v0(v, spec_addr(arg))
    } else if id == 0xC000 {
        spec_rnd(v, x, spec_kk(arg), rnd)
    } else if id == 0xD000 {
        spec_drw(v, x, y, arg.3)
    } else if id == 0xE09E {
        spec_skp(v, x, keys)
    } else if id == 0xE0A1 {
        spec_sknp(v, x, keys)
    } else if id == 0xF007 {
        spec_ld_vx_dt(v, x)
    } else if id == 0xF00A {
        spec_w_key(v, x, keys)
    } else if id == 0xF015 {
        spec_ld_dt_vx(v, x)
    } else if id == 0xF018 {
        spec_ld_st_vx(v, x)
    } else if id == 0xF01E {
        spec_add_i_vx(v, x)
    } else if id == 0xF029 {
        spec_ld_f_vx(v, x)
    } else if id == 0xF033 {
        spec_ld_b_vx(v, x)
    } else if id == 0xF055 {
        spec_ld_i_vx(v, x)
    } else if id == 0xF065 {
        spec_ld_vx_i(v, x)
    } else {
        stay(v, Err(VmError::UnknownOpcode))
    }
}

/// The nibbles of any word are nibbles.
pub proof fn lemma_octets_bounds(w: u16)
    ensures
        spec_octets(w).0 < 0x10,
        spec_octets(w).1 < 0x10,
        spec_octets(w).2 < 0x10,
        spec_octets(w).3 < 0x10,
{
    assert((w >> 12) & 0xf < 0x10 && (w >> 8) & 0xf < 0x10 && (w >> 4) & 0xf < 0x10 && w & 0xf
        < 0x10) by (bit_vector);
}

/// That a state and an outcome are exactly what `spec_step` prescribes
/// for this instruction, with this random byte.
pub open spec fn step_match(
    pre: CpuView,
    post: CpuView,
    r: Result<Action, VmError>,
    id: u16,
    arg: (u8, u8, u8, u8),
    keys: u16,
    rnd: u8,
) -> bool {
    let s = spec_step(pre, id, arg, keys, rnd);
    post == s.post && r == s.out
}

/// Both timers stepped down once, saturating at zero.
pub open spec fn ticked(v: CpuView) -> CpuView {
    v.with_delay(dec1(v.delay)).with_sound(dec1(v.sound))
}

/// One whole pipeline cycle: fetch the word under the program counter
/// (failing out of bounds), advance past it, decode, execute, and on
/// anything but a fatal error step the timers. Under the `Skip`
/// policy an unknown opcode is passed over instead of halting.
pub open spec fn spec_cycle(v: CpuView, keys: u16, rnd: u8, policy: OpcodePolicy) -> Step {
    if v.pc + 1 >= MEM_SIZE {
        stay(v, Err(VmError::OutOfBounds))
    } else {
        let w = crate::memory::be16(v.mem[v.pc as int], v.mem[v.pc as int + 1]);
        let fetched = v.with_pc((v.pc + 2) as u16);
        let s = spec_step(fetched, spec_id(w), spec_octets(w), keys, rnd);
        if s.out is Ok {
            Step { post: ticked(s.post), out: s.out }
        } else if s.out == Err::<Action, VmError>(VmError::UnknownOpcode) && policy is Skip {
            Step { post: ticked(s.post), out: Ok(Action::Continue) }
        } else {
            s
        }
    }
}

/// ADD: for every pair of register values, the stored result is the
/// sum modulo 256, and the flag register reads 1 exactly when the
/// true sum exceeds 255. The result clause holds when the destination
/// is not the flag register itself, which the flag write overwrites.
pub proof fn lemma_add_flag(v: CpuView, x: int, y: int)
    requires
        v.wf(),
        0 <= x < 16,
        0 <= y < 16,
    ensures
        x != 0xF ==> spec_add(v, x, y).post.regs[x] == (v.regs[x] + v.regs[y]) % 256,
        spec_add(v, x, y).post.regs[0xF] == (if v.regs[x] + v.regs[y] > 255 {
            1u8
        } else {
            0u8
        }),
{
}

/// SUB: for every pair of register values, the stored result is the
/// difference modulo 256, and the flag register reads 1 exactly when
/// no borrow occurred, that is when `vx >= vy`. The result clause
/// holds when the destination is not the flag register itself.
pub proof fn lemma_sub_flag(v: CpuView, x: int, y: int)
    requires
        v.wf(),
        0 <= x < 16,
        0 <= y < 16,
    ensures
        x != 0xF ==> spec_sub(v, x, y).post.regs[x] == (v.regs[x] - v.regs[y]) % 256,
        spec_sub(v, x, y).post.regs[0xF] == (if v.regs[x] >= v.regs[y] {
            1u8
        } else {
            0u8
        }),
{
}

/// SHR and SHL: the flag register reads the bit shifted out of the
/// operand, never the post-shift value. Holds whenever the operand is
/// not the flag register itself, which the flag write overwrites
/// before the shift reads it back.
pub proof fn lemma_shift_flags(v: CpuView, x: int)
    requires
        v.wf(),
        0 <= x < 16,
        x != 0xF,
    ensures
        spec_shr(v, x).post.regs[0xF] == v.regs[x] & 1,
        spec_shr(v, x).post.regs[x] == v.regs[x] >> 1u8,
        spec_shl(v, x).post.regs[0xF] == v.regs[x] >> 7u8,
        spec_shl(v, x).post.regs[x] == (2 * v.regs[x]) % 256,
{
}

/// CALL followed by RET restores the whole state: in particular the
/// program counter comes back to the instruction right after the CALL
/// (the address the CALL pushed), and the stack is as it was. Holds
/// whenever the stack has room for the CALL.
pub proof fn lemma_call_then_ret(v: CpuView, addr: u16)
    requires
        v.wf(),
        v.stack.len() < STACK_SIZE,
    ensures
        spec_call(v, addr).out == Ok::<Action, VmError>(Action::Continue),
        spec_ret(spec_call(v, addr).post).out == Ok::<Action, VmError>(Action::Continue),
        spec_ret(spec_call(v, addr).post).post == v,
{
    let v1 = spec_call(v, addr).post;
    assert(v1.stack == v.stack.push(v.pc));
    assert(v1.stack.drop_last() =~= v.stack);
    assert(spec_ret(v1).post =~= v);
}

/// Round trip: storing registers 0 through X at I and loading them
/// back leaves every register as it was, provided nothing else writes
/// in between and the range fits the address space.
pub proof fn lemma_store_then_load(v: CpuView, x: int)
    requires
        v.wf(),
        0 <= x < 16,
        v.ireg + x < MEM_SIZE,
    ensures
        spec_ld_i_vx(v, x).out == Ok::<Action, VmError>(Action::Continue),
        spec_ld_vx_i(spec_ld_i_vx(v, x).post, x).out == Ok::<Action, VmError>(Action::Continue),
        spec_ld_vx_i(spec_ld_i_vx(v, x).post, x).post.regs == v.regs,
{
    let v1 = spec_ld_i_vx(v, x).post;
    assert(spec_ld_vx_i(v1, x).post.regs =~= v.regs);
}

/// Timer saturation: a timer that reads zero stays zero under any
/// number of further decrements, and never wraps around.
pub proof fn lemma_timer_saturation(v: CpuView)
    ensures
        v.delay == 0 ==> ticked(v).delay == 0,
        v.sound == 0 ==> ticked(v).sound == 0,
        ticked(v).delay <= v.delay,
        ticked(v).sound <= v.sound,
{
}

/// That a state and an outcome are exactly what `spec_cycle`
/// prescribes, with this random byte.
pub open spec fn cycle_match(
    pre: CpuView,
    post: CpuView,
    r: Result<Action, VmError>,
    keys: u16,
    policy: OpcodePolicy,
    rnd: u8,
) -> bool {
    let s = spec_cycle(pre, keys, rnd, policy);
    post == s.post && r == s.out
}

} // verus!
