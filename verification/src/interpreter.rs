//! The interpreter facade: the machine presented through the operations a
//! host loop drives, one cycle at a time.
//!
//! Every method carries the same contract as the underlying [`Cpu`]
//! operation it performs; the interpreter's view *is* the machine's
//! [`MachineView`].

use vstd::prelude::*;

pub use crate::cpu::instructions::{decode_opcode, DecodeError, Instruction};

use crate::cpu::{
    cycle, initial_machine, initialized_machine, loaded_memory, spec_key_press, Cpu, CycleOutcome,
    MachineError, MachineView, MEMORY_SIZE, NUM_KEYS, USERSPACE_END, USERSPACE_START,
};

verus! {

/// The CHIP-8 interpreter: the machine together with the host-facing
/// surface of the run loop — cycles, frames, key state and key events.
pub struct Chip8Interpreter {
    /// The machine being driven.
    pub cpu: Cpu,
}

impl View for Chip8Interpreter {
    type V = MachineView;

    open spec fn view(&self) -> MachineView {
        self.cpu@
    }
}

impl Chip8Interpreter {
    /// Creates an interpreter over a machine in its initial state.
    pub fn new() -> (interp: Chip8Interpreter)
        ensures
            interp@ == initial_machine(),
            interp@.wf(),
    {
        Chip8Interpreter { cpu: Cpu::new() }
    }

    /// Fully resets the machine and installs the glyph table.
    pub fn initialize(&mut self)
        ensures
            final(self)@ == initialized_machine(),
            final(self)@.wf(),
    {
        self.cpu.initialize();
    }

    /// Copies a program image into memory from the start of program space on.
    pub fn load_rom_bytes(&mut self, rom: &Vec<u8>)
        requires
            old(self)@.wf(),
            rom@.len() <= USERSPACE_END - USERSPACE_START + 1,
        ensures
            final(self)@ == (MachineView {
                memory: loaded_memory(old(self)@.memory, rom@),
                ..old(self)@
            }),
            final(self)@.wf(),
    {
        self.cpu.load_rom_bytes(rom);
    }

    /// Reads one byte of memory.
    pub fn get_memory(&self, idx: usize) -> (b: u8)
        requires
            self@.wf(),
            idx < MEMORY_SIZE,
        ensures
            b == self@.memory[idx as int],
    {
        self.cpu.get_memory(idx)
    }

    /// Runs one cycle of the machine: exactly the [`cycle`] function, for
    /// some value of the byte drawn from the random source.  Reported
    /// errors are non-fatal; the caller may keep cycling.
    pub fn emulate_cycle(&mut self) -> (r: Result<(), MachineError>)
        requires
            old(self)@.wf(),
        ensures
            final(self)@.wf(),
            exists|b: u8|
                #[trigger] cycle(old(self)@, b) == (CycleOutcome { post: final(self)@, report: r }),
    {
        self.cpu.emulate_cycle()
    }

    /// Hands the framebuffer to the rendering collaborator and clears the
    /// redraw flag.
    pub fn draw_graphics(&mut self) -> (frame: Vec<bool>)
        requires
            old(self)@.wf(),
        ensures
            frame@ == old(self)@.pixels,
            final(self)@ == (MachineView { draw_flag: false, ..old(self)@ }),
            final(self)@.wf(),
    {
        self.cpu.draw_graphics()
    }

    /// Stores the pressed state of all 16 keys.
    pub fn set_keys(&mut self, keys: &Vec<bool>)
        requires
            old(self)@.wf(),
            keys@.len() == NUM_KEYS,
        ensures
            final(self)@ == (MachineView { keys: keys@, ..old(self)@ }),
            final(self)@.wf(),
    {
        self.cpu.set_keys(keys);
    }

    /// Delivers a "key pressed" event, consumed only while a key-wait is
    /// pending.
    pub fn key_press(&mut self, key: usize)
        requires
            old(self)@.wf(),
            key < NUM_KEYS,
        ensures
            final(self)@ == spec_key_press(old(self)@, key),
            final(self)@.wf(),
    {
        self.cpu.key_press(key);
    }
}

} // verus!
