//! Machine state and the cycle driver of the CHIP-8 core.
//!
//! The state of the machine is modelled by [`MachineView`], a mathematical
//! image of the register file, memory, call stack, framebuffer, timers and
//! input state.  Every executable method on [`Cpu`] states its effect as an
//! equation over that model.

pub mod draw;
pub mod exec;
pub mod instructions;

use vstd::prelude::*;

use self::exec::{step, StepResult};
use self::instructions::{decode_opcode, spec_decode, Instruction};

verus! {

/// Number of addressable bytes of memory.
pub const MEMORY_SIZE: usize = 4096;
/// Number of general-purpose registers.
pub const NUM_REGISTERS: usize = 16;
/// Index of the register that doubles as the carry/borrow/collision flag.
pub const FLAG_REGISTER: usize = 15;
/// Number of nested subroutine calls the stack can hold.
pub const STACK_DEPTH: usize = 16;
/// Width of the monochrome framebuffer in pixels.
pub const SCREEN_WIDTH: usize = 64;
/// Height of the monochrome framebuffer in pixels.
pub const SCREEN_HEIGHT: usize = 32;
/// Number of keys of the input device.
pub const NUM_KEYS: usize = 16;
/// Width of one instruction word in bytes.
pub const OPCODE_SIZE: u16 = 2;
/// First address of the user program space.
pub const USERSPACE_START: u16 = 0x200;
/// Last addressable byte of memory.
pub const USERSPACE_END: u16 = 0xFFF;
/// Address at which the built-in glyph table is installed.
pub const FONTSET_START: usize = 0x0000;

/// Mathematical model of the whole machine state.
#[verifier::ext_equal]
pub struct MachineView {
    /// The 4096 addressable bytes of memory.
    pub memory: Seq<u8>,
    /// The 16 general-purpose 8-bit registers; entry 15 is the flag register.
    pub v: Seq<u8>,
    /// Program counter: byte offset of the next instruction word.
    pub pc: u16,
    /// The 16-bit index register used by memory-indexed operations.
    pub index: u16,
    /// Return addresses of active subroutine calls.
    pub stack: Seq<u16>,
    /// Stack pointer: the next free stack slot.
    pub sp: u8,
    /// The 64 x 32 framebuffer, row-major; `true` is a lit pixel.
    pub pixels: Seq<bool>,
    /// Pressed state of the 16 keys.
    pub keys: Seq<bool>,
    /// Delay timer, decremented once per running cycle while nonzero.
    pub delay_timer: u8,
    /// Sound timer, decremented once per running cycle while nonzero.
    pub sound_timer: u8,
    /// Set whenever the framebuffer changed; cleared when a frame is handed out.
    pub draw_flag: bool,
    /// Target register of a pending key-wait, if one is in progress.
    pub awaiting_key: Option<usize>,
}

impl MachineView {
    /// Structural well-formedness: every fixed-size component has its size and
    /// the stack pointer and key-wait target are in range.
    pub open spec fn wf(self) -> bool {
        &&& self.memory.len() == MEMORY_SIZE
        &&& self.v.len() == NUM_REGISTERS
        &&& self.stack.len() == STACK_DEPTH
        &&& self.pixels.len() == SCREEN_WIDTH * SCREEN_HEIGHT
        &&& self.keys.len() == NUM_KEYS
        &&& self.sp <= STACK_DEPTH
        &&& (self.awaiting_key matches Some(x) ==> x < NUM_REGISTERS)
    }
}

/// The CHIP-8 processor: registers, memory, call stack, framebuffer, timers
/// and input state, driven one instruction cycle at a time.
pub struct Cpu {
    /// Addressable memory; the glyph table lives at the low end, the user
    /// program from [`USERSPACE_START`] on.
    pub memory: Vec<u8>,
    /// General-purpose registers `V0`..`VF`.
    pub v: Vec<u8>,
    /// Program counter.
    pub pc: u16,
    /// Return-address stack.
    pub stack: Vec<u16>,
    /// Stack pointer: the next free slot.
    pub sp: u8,
    /// Index register.
    pub i: u16,
    /// Framebuffer, row-major.
    pub pixels: Vec<bool>,
    /// Pressed state of the 16 keys.
    pub keys: Vec<bool>,
    /// Sound timer.
    pub sound_timer: u8,
    /// Delay timer.
    pub delay_timer: u8,
    /// Set whenever the framebuffer changed; the renderer clears it through
    /// [`Cpu::draw_graphics`].
    pub draw_flag: bool,
    /// Target register of a pending key-wait.
    pub awaiting_key: Option<usize>,
}

impl View for Cpu {
    type V = MachineView;

    open spec fn view(&self) -> MachineView {
        MachineView {
            memory: self.memory@,
            v: self.v@,
            pc: self.pc,
            index: self.i,
            stack: self.stack@,
            sp: self.sp,
            pixels: self.pixels@,
            keys: self.keys@,
            delay_timer: self.delay_timer,
            sound_timer: self.sound_timer,
            draw_flag: self.draw_flag,
            awaiting_key: self.awaiting_key,
        }
    }
}

/// How the program counter moves after an instruction executes.
#[derive(Clone, Copy, Debug, PartialEq, Eq, Structural)]
pub enum ProgramCounterChange {
    /// Advance by one instruction width.
    Next,
    /// Advance by two instruction widths, skipping one instruction.
    Skip,
    /// Set the program counter to an absolute address.
    Jump(u16),
    /// Leave the program counter where it is.
    Hold,
}

/// [`ProgramCounterChange::skip_if`] as a spec-level function.
pub open spec fn spec_skip_if(cond: bool) -> ProgramCounterChange {
    if cond {
        ProgramCounterChange::Skip
    } else {
        ProgramCounterChange::Next
    }
}

impl ProgramCounterChange {
    /// `Skip` when the condition holds, `Next` otherwise.
    pub fn skip_if(cond: bool) -> (r: Self)
        ensures
            r == spec_skip_if(cond),
    {
        if cond {
            Self::Skip
        } else {
            Self::Next
        }
    }
}

/// A reported, non-fatal error condition of the machine.
///
/// The cycle driver reports these and keeps running: an unknown opcode is
/// stepped over, and a stack fault holds the program counter.
#[derive(Clone, Copy, Debug, PartialEq, Eq, Structural)]
pub enum MachineError {
    /// The fetched word matches no known instruction shape.
    UnknownOpcode(u16),
    /// A subroutine call was attempted with the call stack full.
    StackOverflow,
    /// A subroutine return was attempted with the call stack empty.
    StackUnderflow,
}

/// A memory address reduced to the addressable range: the index register is
/// 16-bit, but memory-indexed operations address the 4096-byte space.
pub open spec fn mem_addr(a: int) -> int {
    a % (MEMORY_SIZE as int)
}

/// The program counter after advancing `width` bytes: wraps back to the
/// start of program space instead of running past the top of memory.
pub open spec fn advance_pc(pc: u16, width: u16) -> u16 {
    if pc + width > USERSPACE_END {
        USERSPACE_START
    } else {
        (pc + width) as u16
    }
}

/// Initial value of the program counter: the start of the user program space.
pub fn init_pc_register() -> (pc: u16)
    ensures
        pc == USERSPACE_START,
{
    USERSPACE_START
}

/// The state of a machine that was just created or fully reset, before the
/// glyph table is installed: everything zeroed, the program counter at the
/// start of program space.
pub open spec fn initial_machine() -> MachineView {
    MachineView {
        memory: Seq::new(MEMORY_SIZE as nat, |a: int| 0u8),
        v: Seq::new(NUM_REGISTERS as nat, |r: int| 0u8),
        pc: USERSPACE_START,
        index: 0,
        stack: Seq::new(STACK_DEPTH as nat, |s: int| 0u16),
        sp: 0,
        pixels: Seq::new((SCREEN_WIDTH * SCREEN_HEIGHT) as nat, |p: int| false),
        keys: Seq::new(NUM_KEYS as nat, |k: int| false),
        delay_timer: 0,
        sound_timer: 0,
        draw_flag: false,
        awaiting_key: None,
    }
}

/// Builds a vector of `n` copies of `val`.
pub(crate) fn filled_vec<T: Copy>(n: usize, val: T) -> (r: Vec<T>)
    ensures
        r@ == Seq::new(n as nat, |i: int| val),
{
    let mut r: Vec<T> = Vec::new();
    let mut k: usize = 0;
    while k < n
        invariant
            k <= n,
            r@ =~= Seq::new(k as nat, |i: int| val),
        decreases n - k,
    {
        r.push(val);
        k = k + 1;
    }
    proof {
        assert(r@ =~= Seq::new(n as nat, |i: int| val));
    }
    r
}

impl Cpu {
    /// Creates a machine in its initial state: memory, registers, stack,
    /// framebuffer and keys zeroed, and the program counter at the start of
    /// the user program space.
    pub fn new() -> (cpu: Cpu)
        ensures
            cpu@ == initial_machine(),
            cpu@.wf(),
    {
        let cpu = Cpu {
            memory: filled_vec(MEMORY_SIZE, 0u8),
            v: filled_vec(NUM_REGISTERS, 0u8),
            pc: init_pc_register(),
            stack: filled_vec(STACK_DEPTH, 0u16),
            sp: 0x00,
            i: 0x0000,
            pixels: filled_vec(SCREEN_WIDTH * SCREEN_HEIGHT, false),
            keys: filled_vec(NUM_KEYS, false),
            sound_timer: 0,
            delay_timer: 0,
            draw_flag: false,
            awaiting_key: None,
        };
        proof {
            assert(cpu@ =~= initial_machine());
        }
        cpu
    }
}

/// The built-in glyph table: 16 glyphs of 5 bytes each, the hexadecimal
/// digits `0`..`F` as 4-wide-by-5-tall bitmaps.
pub open spec fn fontset_spec() -> Seq<u8> {
    seq![
        0xF0u8, 0x90, 0x90, 0x90, 0xF0,  // 0
        0x20, 0x60, 0x20, 0x20, 0x70,    // 1
        0xF0, 0x10, 0xF0, 0x80, 0xF0,    // 2
        0xF0, 0x10, 0xF0, 0x10, 0xF0,    // 3
        0x90, 0x90, 0xF0, 0x10, 0x10,    // 4
        0xF0, 0x80, 0xF0, 0x10, 0xF0,    // 5
        0xF0, 0x80, 0xF0, 0x90, 0xF0,    // 6
        0xF0, 0x10, 0x20, 0x40, 0x40,    // 7
        0xF0, 0x90, 0xF0, 0x90, 0xF0,    // 8
        0xF0, 0x90, 0xF0, 0x10, 0xF0,    // 9
        0xF0, 0x90, 0xF0, 0x90, 0x90,    // A
        0xE0, 0x90, 0xE0, 0x90, 0xE0,    // B
        0xF0, 0x80, 0x80, 0x80, 0xF0,    // C
        0xE0, 0x90, 0x90, 0x90, 0xE0,    // D
        0xF0, 0x80, 0xF0, 0x80, 0xF0,    // E
        0xF0, 0x80, 0xF0, 0x80, 0x80,    // F
    ]
}

/// The glyph table as a vector, byte for byte [`fontset_spec`].
#[verifier::rlimit(50)]
fn fontset_vec() -> (f: Vec<u8>)
    ensures
        f@ == fontset_spec(),
{
    let mut f: Vec<u8> = Vec::new();
    f.push(0xF0); f.push(0x90); f.push(0x90); f.push(0x90); f.push(0xF0);
    f.push(0x20); f.push(0x60); f.push(0x20); f.push(0x20); f.push(0x70);
    f.push(0xF0); f.push(0x10); f.push(0xF0); f.push(0x80); f.push(0xF0);
    f.push(0xF0); f.push(0x10); f.push(0xF0); f.push(0x10); f.push(0xF0);
    f.push(0x90); f.push(0x90); f.push(0xF0); f.push(0x10); f.push(0x10);
    f.push(0xF0); f.push(0x80); f.push(0xF0); f.push(0x10); f.push(0xF0);
    f.push(0xF0); f.push(0x80); f.push(0xF0); f.push(0x90); f.push(0xF0);
    f.push(0xF0); f.push(0x10); f.push(0x20); f.push(0x40); f.push(0x40);
    f.push(0xF0); f.push(0x90); f.push(0xF0); f.push(0x90); f.push(0xF0);
    f.push(0xF0); f.push(0x90); f.push(0xF0); f.push(0x10); f.push(0xF0);
    f.push(0xF0); f.push(0x90); f.push(0xF0); f.push(0x90); f.push(0x90);
    f.push(0xE0); f.push(0x90); f.push(0xE0); f.push(0x90); f.push(0xE0);
    f.push(0xF0); f.push(0x80); f.push(0x80); f.push(0x80); f.push(0xF0);
    f.push(0xE0); f.push(0x90); f.push(0x90); f.push(0x90); f.push(0xE0);
    f.push(0xF0); f.push(0x80); f.push(0xF0); f.push(0x80); f.push(0xF0);
    f.push(0xF0); f.push(0x80); f.push(0xF0); f.push(0x80); f.push(0x80);
    proof {
        assert(f@ =~= fontset_spec());
    }
    f
}

/// The state after a full reset: everything zeroed, the glyph table
/// installed at the low end of memory, the program counter at the start of
/// program space.
pub open spec fn initialized_machine() -> MachineView {
    MachineView {
        memory: Seq::new(
            MEMORY_SIZE as nat,
            |a: int|
                if FONTSET_START <= a < FONTSET_START + fontset_spec().len() {
                    fontset_spec()[a - FONTSET_START]
                } else {
                    0u8
                },
        ),
        ..initial_machine()
    }
}

/// The program counter a fetch reads from: where the counter cannot address
/// a full instruction word, it wraps back to the start of program space.
pub open spec fn norm_pc(pc: u16) -> u16 {
    if pc + 1 < MEMORY_SIZE {
        pc
    } else {
        USERSPACE_START
    }
}

/// The big-endian instruction word at address `pc`.
pub open spec fn word_at(memory: Seq<u8>, pc: u16) -> u16 {
    (memory[pc as int] * 256 + memory[pc as int + 1]) as u16
}

/// Both timers decremented by one, with a floor at zero.
pub open spec fn tick_timers(m: MachineView) -> MachineView {
    MachineView {
        delay_timer: if m.delay_timer > 0 {
            (m.delay_timer - 1) as u8
        } else {
            0
        },
        sound_timer: if m.sound_timer > 0 {
            (m.sound_timer - 1) as u8
        } else {
            0
        },
        ..m
    }
}

/// The machine with a program-counter directive applied.
pub open spec fn apply_change(m: MachineView, ch: ProgramCounterChange) -> MachineView {
    match ch {
        ProgramCounterChange::Next => MachineView { pc: advance_pc(m.pc, OPCODE_SIZE), ..m },
        ProgramCounterChange::Skip => MachineView { pc: advance_pc(m.pc, (2 * OPCODE_SIZE) as u16), ..m },
        ProgramCounterChange::Jump(addr) => MachineView { pc: addr, ..m },
        ProgramCounterChange::Hold => m,
    }
}

/// What one cycle does: the machine state after it, and what it reported.
#[verifier::ext_equal]
pub struct CycleOutcome {
    /// The machine state after the cycle.
    pub post: MachineView,
    /// `Ok` for a silent cycle; otherwise the reported, non-fatal error.
    pub report: Result<(), MachineError>,
}

/// The semantics of one cycle of the driver, with `rnd` as the byte drawn
/// from the random source.
///
/// While a key-wait is pending the machine does nothing.  Otherwise the
/// driver normalizes the program counter, fetches and decodes one word, and
/// either executes it and applies the resulting directive, or — for an
/// unknown word — steps the counter past it; a stack fault holds the
/// counter.  Every non-suspended cycle ends with a timer tick.
pub open spec fn cycle(pre: MachineView, rnd: u8) -> CycleOutcome {
    if pre.awaiting_key is Some {
        CycleOutcome { post: pre, report: Ok(()) }
    } else {
        let m0 = MachineView { pc: norm_pc(pre.pc), ..pre };
        let w = word_at(m0.memory, m0.pc);
        match spec_decode(w) {
            Result::Err(_) => CycleOutcome {
                post: tick_timers(MachineView { pc: advance_pc(m0.pc, OPCODE_SIZE), ..m0 }),
                report: Err(MachineError::UnknownOpcode(w)),
            },
            Result::Ok(instr) => {
                let s = step(m0, instr, rnd);
                match s.change {
                    Result::Ok(ch) => CycleOutcome {
                        post: tick_timers(apply_change(s.post, ch)),
                        report: Ok(()),
                    },
                    Result::Err(e) => CycleOutcome { post: tick_timers(s.post), report: Err(e) },
                }
            },
        }
    }
}

/// A key-press event: while a key-wait is pending, the key code lands in
/// the captured register, the wait ends and the program counter advances by
/// one instruction width; otherwise the event is ignored.
pub open spec fn spec_key_press(m: MachineView, key: usize) -> MachineView {
    match m.awaiting_key {
        Some(x) => MachineView {
            v: m.v.update(x as int, key as u8),
            awaiting_key: None,
            pc: advance_pc(m.pc, OPCODE_SIZE),
            ..m
        },
        None => m,
    }
}

/// Memory with a program image overlaid at the start of program space.
pub open spec fn loaded_memory(memory: Seq<u8>, rom: Seq<u8>) -> Seq<u8> {
    Seq::new(
        MEMORY_SIZE as nat,
        |a: int|
            if USERSPACE_START <= a < USERSPACE_START + rom.len() {
                rom[a - USERSPACE_START]
            } else {
                memory[a]
            },
    )
}

impl Cpu {
    /// Fully resets the machine and installs the glyph table: every field
    /// zeroed, the framebuffer cleared, the program counter back at the
    /// start of program space.
    pub fn initialize(&mut self)
        ensures
            final(self)@ == initialized_machine(),
            final(self)@.wf(),
    {
        self.memory = filled_vec(MEMORY_SIZE, 0u8);
        self.v = filled_vec(NUM_REGISTERS, 0u8);
        self.pc = init_pc_register();
        self.stack = filled_vec(STACK_DEPTH, 0u16);
        self.sp = 0x00;
        self.i = 0x0000;
        self.pixels = filled_vec(SCREEN_WIDTH * SCREEN_HEIGHT, false);
        self.keys = filled_vec(NUM_KEYS, false);
        self.sound_timer = 0;
        self.delay_timer = 0;
        self.draw_flag = false;
        self.awaiting_key = None;
        let font: Vec<u8> = fontset_vec();
        let mut k: usize = 0;
        while k < 80
            invariant
                k <= 80,
                font@ == fontset_spec(),
                self@ == (MachineView { memory: self@.memory, ..initial_machine() }),
                self@.memory =~= Seq::new(
                    MEMORY_SIZE as nat,
                    |a: int| if a < k { fontset_spec()[a] } else { 0u8 },
                ),
            decreases 80 - k,
        {
            let b: u8 = font[k];
            self.memory.set(FONTSET_START + k, b);
            proof {
                assert(self@.memory =~= Seq::new(
                    MEMORY_SIZE as nat,
                    |a: int| if a < k + 1 { fontset_spec()[a] } else { 0u8 },
                ));
            }
            k = k + 1;
        }
        proof {
            assert(self@ =~= initialized_machine());
        }
    }

    /// Copies a program image into memory from the start of program space
    /// on.  The image must fit in the user program space; nothing else of
    /// the machine changes.
    pub fn load_rom_bytes(&mut self, rom: &Vec<u8>)
        requires
            old(self)@.wf(),
            rom@.len() <= USERSPACE_END - USERSPACE_START + 1,
        ensures
            final(self)@ == (MachineView {
                memory: loaded_memory(old(self)@.memory, rom@),
                ..old(self)@
            }),
            final(self)@.wf(),
    {
        let ghost pre = self@;
        let count: usize = rom.len();
        let mut k: usize = 0;
        while k < count
            invariant
                pre.wf(),
                count == rom@.len(),
                count <= USERSPACE_END - USERSPACE_START + 1,
                k <= count,
                self@ == (MachineView { memory: self@.memory, ..pre }),
                self@.memory.len() == MEMORY_SIZE,
                forall|a: int|
                    0 <= a < MEMORY_SIZE ==> self@.memory[a] == (if USERSPACE_START <= a
                        < USERSPACE_START + k {
                        rom@[a - USERSPACE_START]
                    } else {
                        pre.memory[a]
                    }),
            decreases count - k,
        {
            let b: u8 = rom[k];
            self.memory.set((USERSPACE_START as usize) + k, b);
            k = k + 1;
        }
        proof {
            assert(self@.memory =~= loaded_memory(pre.memory, rom@));
        }
    }

    /// Reads one byte of memory.
    pub fn get_memory(&self, idx: usize) -> (b: u8)
        requires
            self@.wf(),
            idx < MEMORY_SIZE,
        ensures
            b == self@.memory[idx as int],
    {
        self.memory[idx]
    }

    /// Fetches the big-endian instruction word at the program counter.
    pub fn fetch_opcode(&self) -> (w: u16)
        requires
            self@.wf(),
            self@.pc + 1 < MEMORY_SIZE,
        ensures
            w == word_at(self@.memory, self@.pc),
    {
        let b1: u8 = self.memory[self.pc as usize];
        let b2: u8 = self.memory[(self.pc as usize) + 1];
        let w: u16 = ((b1 as u16) << 8u16) | (b2 as u16);
        proof {
            assert(((b1 as u16) << 8u16) | (b2 as u16) == (b1 as u16) * 256 + (b2 as u16))
                by (bit_vector);
        }
        w
    }

    /// Decrements both timers, with a floor at zero.
    fn tick(&mut self)
        ensures
            final(self)@ == tick_timers(old(self)@),
    {
        if self.sound_timer > 0 {
            self.sound_timer = self.sound_timer - 1;
        }
        if self.delay_timer > 0 {
            self.delay_timer = self.delay_timer - 1;
        }
    }

    /// Applies a program-counter directive, wrapping an advance that would
    /// run past the top of memory back to the start of program space.
    fn apply_pc_change(&mut self, ch: ProgramCounterChange)
        ensures
            final(self)@ == apply_change(old(self)@, ch),
    {
        match ch {
            ProgramCounterChange::Next => {
                if self.pc >= 0xFFE {
                    self.pc = USERSPACE_START;
                } else {
                    self.pc = self.pc + OPCODE_SIZE;
                }
            },
            ProgramCounterChange::Skip => {
                if self.pc >= 0xFFC {
                    self.pc = USERSPACE_START;
                } else {
                    self.pc = self.pc + 2 * OPCODE_SIZE;
                }
            },
            ProgramCounterChange::Jump(addr) => {
                self.pc = addr;
            },
            ProgramCounterChange::Hold => {},
        }
    }

    /// Runs one cycle of the machine: exactly the [`cycle`] function, for
    /// some value of the byte drawn from the random source.
    ///
    /// A reported error is non-fatal: an unknown opcode has already been
    /// stepped over, and a stack fault has held the program counter; the
    /// caller may keep cycling.
    pub fn emulate_cycle(&mut self) -> (r: Result<(), MachineError>)
        requires
            old(self)@.wf(),
        ensures
            final(self)@.wf(),
            exists|b: u8|
                #[trigger] cycle(old(self)@, b) == (CycleOutcome { post: final(self)@, report: r }),
    {
        if self.awaiting_key.is_some() {
            proof {
                assert(cycle(old(self)@, 0) == (CycleOutcome {
                    post: self@,
                    report: Ok::<(), MachineError>(()),
                }));
            }
            return Ok(());
        }
        if self.pc >= (MEMORY_SIZE as u16) - 1 {
            self.pc = USERSPACE_START;
        }
        let ghost m0 = self@;
        proof {
            assert(m0 == (MachineView { pc: norm_pc(old(self)@.pc), ..old(self)@ }));
        }
        let opcode: u16 = self.fetch_opcode();
        match decode_opcode(opcode) {
            Result::Err(_e) => {
                if self.pc >= 0xFFE {
                    self.pc = USERSPACE_START;
                } else {
                    self.pc = self.pc + OPCODE_SIZE;
                }
                self.tick();
                proof {
                    assert(cycle(old(self)@, 0) == (CycleOutcome {
                        post: self@,
                        report: Err::<(), MachineError>(MachineError::UnknownOpcode(opcode)),
                    }));
                }
                Err(MachineError::UnknownOpcode(opcode))
            },
            Result::Ok(instr) => {
                let res = self.execute(instr);
                let ghost m1 = self@;
                let ghost b = choose|b: u8|
                    step(m0, instr, b) == (StepResult { post: m1, change: res });
                match res {
                    Result::Ok(ch) => {
                        self.apply_pc_change(ch);
                        self.tick();
                        proof {
                            assert(cycle(old(self)@, b) == (CycleOutcome {
                                post: self@,
                                report: Ok::<(), MachineError>(()),
                            }));
                        }
                        Ok(())
                    },
                    Result::Err(e) => {
                        self.tick();
                        proof {
                            assert(cycle(old(self)@, b) == (CycleOutcome {
                                post: self@,
                                report: Err::<(), MachineError>(e),
                            }));
                        }
                        Err(e)
                    },
                }
            },
        }
    }

    /// Delivers a "key pressed" event.  Consumed only while a key-wait is
    /// pending: the key code lands in the captured register, the wait ends
    /// and the program counter advances by one instruction width.
    pub fn key_press(&mut self, key: usize)
        requires
            old(self)@.wf(),
            key < NUM_KEYS,
        ensures
            final(self)@ == spec_key_press(old(self)@, key),
            final(self)@.wf(),
    {
        match self.awaiting_key {
            Some(x) => {
                self.v.set(x, key as u8);
                self.awaiting_key = None;
                if self.pc >= 0xFFE {
                    self.pc = USERSPACE_START;
                } else {
                    self.pc = self.pc + OPCODE_SIZE;
                }
            },
            None => {},
        }
    }

    /// Stores the pressed state of all 16 keys, as the input collaborator
    /// reports it.
    pub fn set_keys(&mut self, keys: &Vec<bool>)
        requires
            old(self)@.wf(),
            keys@.len() == NUM_KEYS,
        ensures
            final(self)@ == (MachineView { keys: keys@, ..old(self)@ }),
            final(self)@.wf(),
    {
        let ghost pre = self@;
        let mut k: usize = 0;
        while k < NUM_KEYS
            invariant
                pre.wf(),
                keys@.len() == NUM_KEYS,
                k <= NUM_KEYS,
                self@ == (MachineView { keys: self@.keys, ..pre }),
                self@.keys.len() == NUM_KEYS,
                forall|j: int|
                    0 <= j < NUM_KEYS ==> self@.keys[j] == (if j < k {
                        keys@[j]
                    } else {
                        pre.keys[j]
                    }),
            decreases NUM_KEYS - k,
        {
            let kv: bool = keys[k];
            self.keys.set(k, kv);
            k = k + 1;
        }
        proof {
            assert(self@.keys =~= keys@);
        }
    }

    /// Hands the framebuffer to the rendering collaborator and clears the
    /// redraw flag: returns a copy of the frame, row-major, 64 by 32.
    pub fn draw_graphics(&mut self) -> (frame: Vec<bool>)
        requires
            old(self)@.wf(),
        ensures
            frame@ == old(self)@.pixels,
            final(self)@ == (MachineView { draw_flag: false, ..old(self)@ }),
            final(self)@.wf(),
    {
        let mut frame: Vec<bool> = Vec::new();
        let mut k: usize = 0;
        while k < SCREEN_WIDTH * SCREEN_HEIGHT
            invariant
                old(self)@.wf(),
                self@ == old(self)@,
                k <= SCREEN_WIDTH * SCREEN_HEIGHT,
                frame@.len() == k,
                forall|j: int| 0 <= j < k ==> frame@[j] == self@.pixels[j],
            decreases SCREEN_WIDTH * SCREEN_HEIGHT - k,
        {
            let px: bool = self.pixels[k];
            frame.push(px);
            k = k + 1;
        }
        self.draw_flag = false;
        proof {
            assert(frame@ =~= old(self)@.pixels);
        }
        frame
    }
}

} // verus!
