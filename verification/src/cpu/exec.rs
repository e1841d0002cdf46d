//! The executor: per-instruction semantics of the machine.
//!
//! [`step`] is the mathematical semantics: it maps a machine state, an
//! instruction and the byte drawn from the random source to the next state
//! and a program-counter directive (or a reported stack fault).
//! [`Cpu::execute_with_random`] implements exactly that function;
//! [`Cpu::execute`] draws the random byte and runs it.

use vstd::prelude::*;

use crate::cpu::draw::draw_sprite_rows;
use crate::cpu::instructions::Instruction;
use crate::cpu::{
    advance_pc, mem_addr, spec_skip_if, Cpu, MachineError, MachineView, ProgramCounterChange,
    FLAG_REGISTER, FONTSET_START, MEMORY_SIZE, NUM_REGISTERS, OPCODE_SIZE, SCREEN_HEIGHT,
    SCREEN_WIDTH, STACK_DEPTH, USERSPACE_START,
};

verus! {

/// What one instruction does: the machine state after it, and either the
/// program-counter directive it produced or the stack fault it reported.
#[verifier::ext_equal]
pub struct StepResult {
    /// The machine state after the instruction.
    pub post: MachineView,
    /// The program-counter directive, or the reported fault (on a fault the
    /// program counter is held).
    pub change: Result<ProgramCounterChange, MachineError>,
}

/// Byte addition wrapping modulo 256.
pub open spec fn wrap_add_byte(a: u8, b: u8) -> u8 {
    if a + b > 255 {
        (a + b - 256) as u8
    } else {
        (a + b) as u8
    }
}

/// Byte subtraction wrapping modulo 256.
pub open spec fn wrap_sub_byte(a: u8, b: u8) -> u8 {
    if a >= b {
        (a - b) as u8
    } else {
        (a + 256 - b) as u8
    }
}

/// Memory after storing registers `0..count` at addresses `index..`,
/// one byte per register, each address reduced to the addressable range.
pub open spec fn dump_regs(memory: Seq<u8>, v: Seq<u8>, index: int, count: int) -> Seq<u8>
    decreases count,
{
    if count <= 0 {
        memory
    } else {
        dump_regs(memory, v, index, count - 1).update(mem_addr(index + (count - 1)), v[count - 1])
    }
}

/// Registers after filling `0..count` from memory at `index..`,
/// one byte per register, each address reduced to the addressable range.
pub open spec fn load_regs(v: Seq<u8>, memory: Seq<u8>, index: int, count: int) -> Seq<u8>
    decreases count,
{
    if count <= 0 {
        v
    } else {
        load_regs(v, memory, index, count - 1).update(
            count - 1,
            memory[mem_addr(index + (count - 1))],
        )
    }
}

/// Memory after storing the three decimal digits of `val` at `index`,
/// `index + 1` and `index + 2`.
pub open spec fn bcd_memory(memory: Seq<u8>, index: int, val: u8) -> Seq<u8> {
    memory.update(mem_addr(index), ((val as int) / 100) as u8).update(
        mem_addr(index + 1),
        (((val as int) % 100) / 10) as u8,
    ).update(mem_addr(index + 2), ((val as int) % 10) as u8)
}

/// The per-instruction semantics of the machine.
///
/// `rnd` is the byte drawn from the random source; only `RandX` reads it.
/// Register writes happen in the order the machine performs them, so the
/// overloading of register 15 as the flag register falls out of the
/// equations (a flag write can be observed, or overwritten, through `V15`).
pub open spec fn step(pre: MachineView, instr: Instruction, rnd: u8) -> StepResult {
    match instr {
        Instruction::Call(_nnn) => StepResult {
            post: pre,
            change: Ok(ProgramCounterChange::Next),
        },
        Instruction::Clear => StepResult {
            post: MachineView {
                pixels: Seq::new((SCREEN_WIDTH * SCREEN_HEIGHT) as nat, |p: int| false),
                draw_flag: true,
                ..pre
            },
            change: Ok(ProgramCounterChange::Next),
        },
        Instruction::SubReturn => if pre.sp == 0 {
            StepResult { post: pre, change: Err(MachineError::StackUnderflow) }
        } else {
            StepResult {
                post: MachineView { sp: (pre.sp - 1) as u8, ..pre },
                change: Ok(ProgramCounterChange::Jump(pre.stack[pre.sp - 1])),
            }
        },
        Instruction::Jump(nnn) => StepResult {
            post: pre,
            change: Ok(ProgramCounterChange::Jump(nnn)),
        },
        Instruction::CallSubroutine(nnn) => if pre.sp >= STACK_DEPTH {
            StepResult { post: pre, change: Err(MachineError::StackOverflow) }
        } else {
            StepResult {
                post: MachineView {
                    stack: pre.stack.update(pre.sp as int, advance_pc(pre.pc, OPCODE_SIZE)),
                    sp: (pre.sp + 1) as u8,
                    ..pre
                },
                change: Ok(ProgramCounterChange::Jump(nnn)),
            }
        },
        Instruction::SkipEq(x, nn) => StepResult {
            post: pre,
            change: Ok(spec_skip_if(pre.v[x as int] == nn)),
        },
        Instruction::SkipNeq(x, nn) => StepResult {
            post: pre,
            change: Ok(spec_skip_if(pre.v[x as int] != nn)),
        },
        Instruction::SkipRegEq(x, y) => StepResult {
            post: pre,
            change: Ok(spec_skip_if(pre.v[x as int] == pre.v[y as int])),
        },
        Instruction::SetReg(x, nn) => StepResult {
            post: MachineView { v: pre.v.update(x as int, nn), ..pre },
            change: Ok(ProgramCounterChange::Next),
        },
        Instruction::AddNoCarry(x, nn) => StepResult {
            post: MachineView {
                v: pre.v.update(x as int, wrap_add_byte(pre.v[x as int], nn)),
                ..pre
            },
            change: Ok(ProgramCounterChange::Next),
        },
        Instruction::Assign(x, y) => StepResult {
            post: MachineView { v: pre.v.update(x as int, pre.v[y as int]), ..pre },
            change: Ok(ProgramCounterChange::Next),
        },
        Instruction::AssignOr(x, y) => StepResult {
            post: MachineView {
                v: pre.v.update(x as int, pre.v[x as int] | pre.v[y as int]),
                ..pre
            },
            change: Ok(ProgramCounterChange::Next),
        },
        Instruction::AssignAnd(x, y) => StepResult {
            post: MachineView {
                v: pre.v.update(x as int, pre.v[x as int] & pre.v[y as int]),
                ..pre
            },
            change: Ok(ProgramCounterChange::Next),
        },
        Instruction::AssignXor(x, y) => StepResult {
            post: MachineView {
                v: pre.v.update(x as int, pre.v[x as int] ^ pre.v[y as int]),
                ..pre
            },
            change: Ok(ProgramCounterChange::Next),
        },
        Instruction::AddCarry(x, y) => {
            let sum = pre.v[x as int] + pre.v[y as int];
            let v1 = pre.v.update(x as int, wrap_add_byte(pre.v[x as int], pre.v[y as int]));
            let v2 = v1.update(FLAG_REGISTER as int, if sum > 255 { 1u8 } else { 0u8 });
            StepResult {
                post: MachineView { v: v2, ..pre },
                change: Ok(ProgramCounterChange::Next),
            }
        },
        Instruction::SubLeft(x, y) => {
            let flag = if pre.v[y as int] > pre.v[x as int] { 0u8 } else { 1u8 };
            let v1 = pre.v.update(FLAG_REGISTER as int, flag);
            let v2 = v1.update(x as int, wrap_sub_byte(v1[x as int], v1[y as int]));
            StepResult {
                post: MachineView { v: v2, ..pre },
                change: Ok(ProgramCounterChange::Next),
            }
        },
        Instruction::LeastSig(x) => {
            let v1 = pre.v.update(FLAG_REGISTER as int, pre.v[x as int] & 1);
            let v2 = v1.update(x as int, v1[x as int] >> 1);
            StepResult {
                post: MachineView { v: v2, ..pre },
                change: Ok(ProgramCounterChange::Next),
            }
        },
        Instruction::SubRight(x, y) => {
            let flag = if pre.v[x as int] > pre.v[y as int] { 0u8 } else { 1u8 };
            let v1 = pre.v.update(FLAG_REGISTER as int, flag);
            let v2 = v1.update(x as int, wrap_sub_byte(v1[y as int], v1[x as int]));
            StepResult {
                post: MachineView { v: v2, ..pre },
                change: Ok(ProgramCounterChange::Next),
            }
        },
        Instruction::MostSig(x) => {
            let v1 = pre.v.update(FLAG_REGISTER as int, pre.v[x as int] >> 7);
            let v2 = v1.update(x as int, v1[x as int] << 1);
            StepResult {
                post: MachineView { v: v2, ..pre },
                change: Ok(ProgramCounterChange::Next),
            }
        },
        Instruction::CondNeq(x, y) => StepResult {
            post: pre,
            change: Ok(spec_skip_if(pre.v[x as int] != pre.v[y as int])),
        },
        Instruction::SetI(nnn) => StepResult {
            post: MachineView { index: nnn, ..pre },
            change: Ok(ProgramCounterChange::Next),
        },
        Instruction::JumpV0NNN(nnn) => StepResult {
            post: pre,
            change: Ok(ProgramCounterChange::Jump((pre.v[0] + nnn) as u16)),
        },
        Instruction::RandX(x, nn) => StepResult {
            post: MachineView { v: pre.v.update(x as int, rnd & nn), ..pre },
            change: Ok(ProgramCounterChange::Next),
        },
        Instruction::DrawSprite(x, y, n) => {
            let d = draw_sprite_rows(
                pre.pixels,
                pre.memory,
                pre.index as int,
                pre.v[x as int] as int,
                pre.v[y as int] as int,
                n as int,
            );
            StepResult {
                post: MachineView {
                    pixels: d.0,
                    v: pre.v.update(FLAG_REGISTER as int, if d.1 { 1u8 } else { 0u8 }),
                    draw_flag: true,
                    ..pre
                },
                change: Ok(ProgramCounterChange::Next),
            }
        },
        Instruction::KeyPressed(x) => StepResult {
            post: pre,
            change: Ok(spec_skip_if(pre.keys[(pre.v[x as int] & 0xF) as int])),
        },
        Instruction::KeyUnpressed(x) => StepResult {
            post: pre,
            change: Ok(spec_skip_if(!pre.keys[(pre.v[x as int] & 0xF) as int])),
        },
        Instruction::SetXDelayTimer(x) => StepResult {
            post: MachineView { v: pre.v.update(x as int, pre.delay_timer), ..pre },
            change: Ok(ProgramCounterChange::Next),
        },
        Instruction::AwaitKeyPress(x) => StepResult {
            post: MachineView { awaiting_key: Some(x), ..pre },
            change: Ok(ProgramCounterChange::Hold),
        },
        Instruction::SetDelayTimer(x) => StepResult {
            post: MachineView { delay_timer: pre.v[x as int], ..pre },
            change: Ok(ProgramCounterChange::Next),
        },
        Instruction::SetSoundTimer(x) => StepResult {
            post: MachineView { sound_timer: pre.v[x as int], ..pre },
            change: Ok(ProgramCounterChange::Next),
        },
        Instruction::AddVxToI(x) => {
            let sum = pre.v[x as int] + pre.index;
            let flag = if sum > 0xFFF { 1u8 } else { 0u8 };
            let truncated = if sum > 0xFFFF { (sum - 0x10000) as u16 } else { sum as u16 };
            StepResult {
                post: MachineView {
                    v: pre.v.update(FLAG_REGISTER as int, flag),
                    index: truncated,
                    ..pre
                },
                change: Ok(ProgramCounterChange::Next),
            }
        },
        Instruction::SetIWithChar(x) => StepResult {
            post: MachineView {
                index: (FONTSET_START + pre.v[x as int] * 5) as u16,
                ..pre
            },
            change: Ok(ProgramCounterChange::Next),
        },
        Instruction::SetBCD(x) => StepResult {
            post: MachineView {
                memory: bcd_memory(pre.memory, pre.index as int, pre.v[x as int]),
                ..pre
            },
            change: Ok(ProgramCounterChange::Next),
        },
        Instruction::RegDump(x) => StepResult {
            post: MachineView {
                memory: dump_regs(pre.memory, pre.v, pre.index as int, x as int + 1),
                ..pre
            },
            change: Ok(ProgramCounterChange::Next),
        },
        Instruction::RegLoad(x) => StepResult {
            post: MachineView {
                v: load_regs(pre.v, pre.memory, pre.index as int, x as int + 1),
                ..pre
            },
            change: Ok(ProgramCounterChange::Next),
        },
    }
}

/// Storing registers does not change the memory's size.
pub proof fn lemma_dump_regs_len(memory: Seq<u8>, v: Seq<u8>, index: int, count: int)
    requires
        memory.len() == MEMORY_SIZE,
    ensures
        dump_regs(memory, v, index, count).len() == memory.len(),
    decreases count,
{
    if count > 0 {
        lemma_dump_regs_len(memory, v, index, count - 1);
    }
}

/// Two distinct offsets below the memory size land on distinct reduced
/// addresses.
proof fn lemma_mem_addr_distinct(index: int, j1: int, j2: int)
    requires
        0 <= index,
        0 <= j1 < j2,
        j2 - j1 < MEMORY_SIZE,
    ensures
        mem_addr(index + j1) != mem_addr(index + j2),
{
    let msize = MEMORY_SIZE as int;
    vstd::arithmetic::div_mod::lemma_fundamental_div_mod(index + j1, msize);
    vstd::arithmetic::div_mod::lemma_fundamental_div_mod(index + j2, msize);
    let q1 = (index + j1) / msize;
    let q2 = (index + j2) / msize;
    if mem_addr(index + j1) == mem_addr(index + j2) {
        assert(j2 - j1 == msize * (q2 - q1));
        let d = q2 - q1;
        if d <= 0 {
            assert(msize * d <= 0) by (nonlinear_arith)
                requires
                    d <= 0,
                    msize > 0,
            ;
        } else {
            assert(msize * d >= msize) by (nonlinear_arith)
                requires
                    d >= 1,
                    msize > 0,
            ;
        }
        assert(false);
    }
}

/// After a register dump, memory holds the registers: reading back the
/// dumped addresses gives the dumped values.
proof fn lemma_dump_reads_back(memory: Seq<u8>, v: Seq<u8>, index: int, count: int)
    requires
        memory.len() == MEMORY_SIZE,
        0 <= index,
        0 <= count <= v.len(),
        count <= MEMORY_SIZE,
    ensures
        forall|k: int|
            0 <= k < count ==> dump_regs(memory, v, index, count)[mem_addr(index + k)] == v[k],
    decreases count,
{
    broadcast use vstd::arithmetic::div_mod::lemma_mod_division_less_than_divisor;

    if count > 0 {
        lemma_dump_reads_back(memory, v, index, count - 1);
        lemma_dump_regs_len(memory, v, index, count - 1);
        let prev = dump_regs(memory, v, index, count - 1);
        let d = dump_regs(memory, v, index, count);
        assert(d == prev.update(mem_addr(index + (count - 1)), v[count - 1]));
        assert forall|k: int|
            0 <= k < count implies d[mem_addr(index + k)] == v[k] by {
            if k < count - 1 {
                lemma_mem_addr_distinct(index, k, count - 1);
            }
        }
    }
}

/// Loading registers from memory that already holds their values leaves
/// the register file unchanged.
proof fn lemma_load_identity(v: Seq<u8>, memory: Seq<u8>, index: int, count: int)
    requires
        v.len() == NUM_REGISTERS,
        0 <= count <= NUM_REGISTERS,
        forall|k: int| 0 <= k < count ==> memory[mem_addr(index + k)] == v[k],
    ensures
        load_regs(v, memory, index, count) == v,
    decreases count,
{
    if count > 0 {
        lemma_load_identity(v, memory, index, count - 1);
        assert(load_regs(v, memory, index, count) =~= v);
    }
}

/// Dumping registers and loading them back from the same index restores the
/// register file: for every machine and every register index `x`, `RegDump(x)`
/// followed by `RegLoad(x)` leaves every register as it was, and neither
/// instruction moves the index register or the program counter.
pub proof fn lemma_dump_load_restores(m: MachineView, x: usize, rnd: u8)
    requires
        m.wf(),
        x < NUM_REGISTERS,
    ensures
        ({
            let m1 = step(m, Instruction::RegDump(x), rnd).post;
            let m2 = step(m1, Instruction::RegLoad(x), rnd).post;
            &&& m2.v == m.v
            &&& m1.index == m.index
            &&& m2.index == m.index
            &&& m1.pc == m.pc
            &&& m2.pc == m.pc
        }),
{
    let m1 = step(m, Instruction::RegDump(x), rnd).post;
    let m2 = step(m1, Instruction::RegLoad(x), rnd).post;
    let count = x as int + 1;
    lemma_dump_reads_back(m.memory, m.v, m.index as int, count);
    lemma_load_identity(m.v, m1.memory, m.index as int, count);
}

/// Adding a register with carry and then subtracting the same register
/// restores the destination, provided no wraparound occurred and neither
/// operand is the flag register (which both instructions overwrite).
/// The carry flag is clear after the addition.
pub proof fn lemma_add_then_sub_restores(m: MachineView, x: usize, y: usize, rnd: u8)
    requires
        m.wf(),
        x < FLAG_REGISTER,
        y < FLAG_REGISTER,
        x != y,
        m.v[x as int] + m.v[y as int] <= 255,
    ensures
        ({
            let m1 = step(m, Instruction::AddCarry(x, y), rnd).post;
            let m2 = step(m1, Instruction::SubLeft(x, y), rnd).post;
            &&& m1.v[FLAG_REGISTER as int] == 0
            &&& m1.v[x as int] == m.v[x as int] + m.v[y as int]
            &&& m2.v[x as int] == m.v[x as int]
            &&& m2.v[y as int] == m.v[y as int]
        }),
{
}

/// The low nibble of a byte is below 16.
proof fn lemma_low_nibble_bound(b: u8)
    ensures
        b & 0xF < 16,
{
    assert(b & 0xF < 16) by (bit_vector);
}

/// Relies on `rand::random`: draws one uniformly distributed byte from the
/// thread-local generator.  Nothing is assumed of the value.
#[verifier::external_body]
fn random_byte() -> u8 {
    rand::random::<u8>()
}

impl Cpu {
    /// Sets every framebuffer cell to unlit and raises the redraw flag.
    fn clear_screen(&mut self)
        ensures
            final(self)@ == (MachineView {
                pixels: Seq::new((SCREEN_WIDTH * SCREEN_HEIGHT) as nat, |p: int| false),
                draw_flag: true,
                ..old(self)@
            }),
    {
        self.pixels = crate::cpu::filled_vec(SCREEN_WIDTH * SCREEN_HEIGHT, false);
        self.draw_flag = true;
        proof {
            assert(self@.pixels =~= Seq::new((SCREEN_WIDTH * SCREEN_HEIGHT) as nat, |p: int| false));
        }
    }

    /// Stores registers `0..=x` to memory at the index register, which is
    /// itself left unchanged.
    fn reg_dump(&mut self, x: usize)
        requires
            old(self)@.wf(),
            x < NUM_REGISTERS,
        ensures
            final(self)@ == (MachineView {
                memory: dump_regs(
                    old(self)@.memory,
                    old(self)@.v,
                    old(self)@.index as int,
                    x as int + 1,
                ),
                ..old(self)@
            }),
            final(self)@.wf(),
    {
        let ghost pre = self@;
        let mut k: usize = 0;
        while k <= x
            invariant
                pre.wf(),
                x < NUM_REGISTERS,
                k <= x + 1,
                self@ == (MachineView { memory: self@.memory, ..pre }),
                self@.memory == dump_regs(pre.memory, pre.v, pre.index as int, k as int),
                self@.memory.len() == MEMORY_SIZE,
            decreases x + 1 - k,
        {
            let addr: usize = ((self.i as usize) + k) % MEMORY_SIZE;
            let val: u8 = self.v[k];
            self.memory.set(addr, val);
            proof {
                assert(self@.memory =~= dump_regs(pre.memory, pre.v, pre.index as int, k as int + 1));
            }
            k = k + 1;
        }
    }

    /// Fills registers `0..=x` from memory at the index register, which is
    /// itself left unchanged.
    fn reg_load(&mut self, x: usize)
        requires
            old(self)@.wf(),
            x < NUM_REGISTERS,
        ensures
            final(self)@ == (MachineView {
                v: load_regs(
                    old(self)@.v,
                    old(self)@.memory,
                    old(self)@.index as int,
                    x as int + 1,
                ),
                ..old(self)@
            }),
            final(self)@.wf(),
    {
        let ghost pre = self@;
        let mut k: usize = 0;
        while k <= x
            invariant
                pre.wf(),
                x < NUM_REGISTERS,
                k <= x + 1,
                self@ == (MachineView { v: self@.v, ..pre }),
                self@.v == load_regs(pre.v, pre.memory, pre.index as int, k as int),
                self@.v.len() == NUM_REGISTERS,
            decreases x + 1 - k,
        {
            let addr: usize = ((self.i as usize) + k) % MEMORY_SIZE;
            let val: u8 = self.memory[addr];
            self.v.set(k, val);
            proof {
                assert(self@.v =~= load_regs(pre.v, pre.memory, pre.index as int, k as int + 1));
            }
            k = k + 1;
        }
    }

    /// Stores the three decimal digits of `VX` at the index register.
    fn store_bcd(&mut self, x: usize)
        requires
            old(self)@.wf(),
            x < NUM_REGISTERS,
        ensures
            final(self)@ == (MachineView {
                memory: bcd_memory(old(self)@.memory, old(self)@.index as int, old(self)@.v[x as int]),
                ..old(self)@
            }),
            final(self)@.wf(),
    {
        let val: u8 = self.v[x];
        let base: usize = self.i as usize;
        let a0: usize = base % MEMORY_SIZE;
        let a1: usize = (base + 1) % MEMORY_SIZE;
        let a2: usize = (base + 2) % MEMORY_SIZE;
        self.memory.set(a0, val / 100);
        self.memory.set(a1, (val % 100) / 10);
        self.memory.set(a2, val % 10);
        proof {
            assert(self@.memory =~= bcd_memory(old(self)@.memory, old(self)@.index as int, val));
        }
    }

    /// Applies one instruction with `rnd` as the byte drawn from the random
    /// source: exactly the [`step`] function of the machine.
    pub fn execute_with_random(&mut self, instr: Instruction, rnd: u8) -> (r: Result<
        ProgramCounterChange,
        MachineError,
    >)
        requires
            old(self)@.wf(),
            instr.wf(),
        ensures
            final(self)@ == step(old(self)@, instr, rnd).post,
            r == step(old(self)@, instr, rnd).change,
            final(self)@.wf(),
    {
        match instr {
            Instruction::Call(_nnn) => Ok(ProgramCounterChange::Next),
            Instruction::Clear => {
                self.clear_screen();
                Ok(ProgramCounterChange::Next)
            },
            Instruction::SubReturn => {
                if self.sp == 0 {
                    Err(MachineError::StackUnderflow)
                } else {
                    self.sp = self.sp - 1;
                    let target: u16 = self.stack[self.sp as usize];
                    Ok(ProgramCounterChange::Jump(target))
                }
            },
            Instruction::Jump(nnn) => Ok(ProgramCounterChange::Jump(nnn)),
            Instruction::CallSubroutine(nnn) => {
                if (self.sp as usize) >= STACK_DEPTH {
                    Err(MachineError::StackOverflow)
                } else {
                    let ret: u16 = if self.pc >= 0xFFE {
                        USERSPACE_START
                    } else {
                        self.pc + OPCODE_SIZE
                    };
                    self.stack.set(self.sp as usize, ret);
                    self.sp = self.sp + 1;
                    Ok(ProgramCounterChange::Jump(nnn))
                }
            },
            Instruction::SkipEq(x, nn) => Ok(ProgramCounterChange::skip_if(self.v[x] == nn)),
            Instruction::SkipNeq(x, nn) => Ok(ProgramCounterChange::skip_if(self.v[x] != nn)),
            Instruction::SkipRegEq(x, y) => Ok(
                ProgramCounterChange::skip_if(self.v[x] == self.v[y]),
            ),
            Instruction::SetReg(x, nn) => {
                self.v.set(x, nn);
                Ok(ProgramCounterChange::Next)
            },
            Instruction::AddNoCarry(x, nn) => {
                let res: u16 = (self.v[x] as u16) + (nn as u16);
                let low: u16 = if res > 0xFF {
                    res - 256
                } else {
                    res
                };
                self.v.set(x, low as u8);
                Ok(ProgramCounterChange::Next)
            },
            Instruction::Assign(x, y) => {
                let val: u8 = self.v[y];
                self.v.set(x, val);
                Ok(ProgramCounterChange::Next)
            },
            Instruction::AssignOr(x, y) => {
                let val: u8 = self.v[x] | self.v[y];
                self.v.set(x, val);
                Ok(ProgramCounterChange::Next)
            },
            Instruction::AssignAnd(x, y) => {
                let val: u8 = self.v[x] & self.v[y];
                self.v.set(x, val);
                Ok(ProgramCounterChange::Next)
            },
            Instruction::AssignXor(x, y) => {
                let val: u8 = self.v[x] ^ self.v[y];
                self.v.set(x, val);
                Ok(ProgramCounterChange::Next)
            },
            Instruction::AddCarry(x, y) => {
                let res: u16 = (self.v[x] as u16) + (self.v[y] as u16);
                let low: u16 = if res > 0xFF {
                    res - 256
                } else {
                    res
                };
                self.v.set(x, low as u8);
                let flag: u8 = if res > 0xFF {
                    1
                } else {
                    0
                };
                self.v.set(FLAG_REGISTER, flag);
                Ok(ProgramCounterChange::Next)
            },
            Instruction::SubLeft(x, y) => {
                let flag: u8 = if self.v[y] > self.v[x] {
                    0
                } else {
                    1
                };
                self.v.set(FLAG_REGISTER, flag);
                let a: u8 = self.v[x];
                let b: u8 = self.v[y];
                let diff: u8 = if a >= b {
                    a - b
                } else {
                    ((a as u16) + 256 - (b as u16)) as u8
                };
                self.v.set(x, diff);
                Ok(ProgramCounterChange::Next)
            },
            Instruction::LeastSig(x) => {
                let flag: u8 = self.v[x] & 1;
                self.v.set(FLAG_REGISTER, flag);
                let cur: u8 = self.v[x];
                self.v.set(x, cur >> 1u8);
                Ok(ProgramCounterChange::Next)
            },
            Instruction::SubRight(x, y) => {
                let flag: u8 = if self.v[x] > self.v[y] {
                    0
                } else {
                    1
                };
                self.v.set(FLAG_REGISTER, flag);
                let a: u8 = self.v[x];
                let b: u8 = self.v[y];
                let diff: u8 = if b >= a {
                    b - a
                } else {
                    ((b as u16) + 256 - (a as u16)) as u8
                };
                self.v.set(x, diff);
                Ok(ProgramCounterChange::Next)
            },
            Instruction::MostSig(x) => {
                let flag: u8 = self.v[x] >> 7u8;
                self.v.set(FLAG_REGISTER, flag);
                let cur: u8 = self.v[x];
                self.v.set(x, cur << 1u8);
                Ok(ProgramCounterChange::Next)
            },
            Instruction::CondNeq(x, y) => Ok(
                ProgramCounterChange::skip_if(self.v[x] != self.v[y]),
            ),
            Instruction::SetI(nnn) => {
                self.i = nnn;
                Ok(ProgramCounterChange::Next)
            },
            Instruction::JumpV0NNN(nnn) => {
                let target: u16 = (self.v[0] as u16) + nnn;
                Ok(ProgramCounterChange::Jump(target))
            },
            Instruction::RandX(x, nn) => {
                self.v.set(x, rnd & nn);
                Ok(ProgramCounterChange::Next)
            },
            Instruction::DrawSprite(x, y, n) => {
                let vx: u8 = self.v[x];
                let vy: u8 = self.v[y];
                let collided: bool = self.draw_sprite(vx, vy, n);
                let flag: u8 = if collided {
                    1
                } else {
                    0
                };
                self.v.set(FLAG_REGISTER, flag);
                self.draw_flag = true;
                Ok(ProgramCounterChange::Next)
            },
            Instruction::KeyPressed(x) => {
                let code: u8 = self.v[x] & 0xF;
                proof {
                    lemma_low_nibble_bound(old(self)@.v[x as int]);
                }
                Ok(ProgramCounterChange::skip_if(self.keys[code as usize]))
            },
            Instruction::KeyUnpressed(x) => {
                let code: u8 = self.v[x] & 0xF;
                proof {
                    lemma_low_nibble_bound(old(self)@.v[x as int]);
                }
                Ok(ProgramCounterChange::skip_if(!self.keys[code as usize]))
            },
            Instruction::SetXDelayTimer(x) => {
                let val: u8 = self.delay_timer;
                self.v.set(x, val);
                Ok(ProgramCounterChange::Next)
            },
            Instruction::AwaitKeyPress(x) => {
                self.awaiting_key = Some(x);
                Ok(ProgramCounterChange::Hold)
            },
            Instruction::SetDelayTimer(x) => {
                self.delay_timer = self.v[x];
                Ok(ProgramCounterChange::Next)
            },
            Instruction::SetSoundTimer(x) => {
                self.sound_timer = self.v[x];
                Ok(ProgramCounterChange::Next)
            },
            Instruction::AddVxToI(x) => {
                let vx_val: usize = self.v[x] as usize;
                let i_val: usize = self.i as usize;
                let res: usize = vx_val + i_val;
                let flag: u8 = if res > 0xFFF {
                    1
                } else {
                    0
                };
                self.v.set(FLAG_REGISTER, flag);
                let ni: usize = if res > 0xFFFF {
                    res - 0x10000
                } else {
                    res
                };
                self.i = ni as u16;
                Ok(ProgramCounterChange::Next)
            },
            Instruction::SetIWithChar(x) => {
                self.i = (FONTSET_START as u16) + (self.v[x] as u16) * 5;
                Ok(ProgramCounterChange::Next)
            },
            Instruction::SetBCD(x) => {
                self.store_bcd(x);
                Ok(ProgramCounterChange::Next)
            },
            Instruction::RegDump(x) => {
                self.reg_dump(x);
                Ok(ProgramCounterChange::Next)
            },
            Instruction::RegLoad(x) => {
                self.reg_load(x);
                Ok(ProgramCounterChange::Next)
            },
        }
    }

    /// Applies one instruction, drawing from the machine's random source
    /// where the instruction asks for a random byte.
    ///
    /// The outcome is a [`step`] of the machine for some value of the drawn
    /// byte; every instruction but `RandX` is independent of it.
    pub fn execute(&mut self, instr: Instruction) -> (r: Result<
        ProgramCounterChange,
        MachineError,
    >)
        requires
            old(self)@.wf(),
            instr.wf(),
        ensures
            final(self)@.wf(),
            exists|b: u8|
                #[trigger] step(old(self)@, instr, b) == (StepResult {
                    post: final(self)@,
                    change: r,
                }),
    {
        match instr {
            Instruction::RandX(_x, _nn) => {
                let b: u8 = random_byte();
                let r = self.execute_with_random(instr, b);
                proof {
                    assert(step(old(self)@, instr, b) == (StepResult { post: self@, change: r }));
                }
                r
            },
            _ => {
                let r = self.execute_with_random(instr, 0);
                proof {
                    assert(step(old(self)@, instr, 0) == (StepResult { post: self@, change: r }));
                }
                r
            },
        }
    }
}

} // verus!
