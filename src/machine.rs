use vstd::prelude::*;

mod instructions;
use crate::model::{
    Chip8State, ExecuteError, FONT_SET, FONT_SET_SIZE, START_ADDR, execute_spec, fetch_opcode,
    font_set, initial_state, step, tick, with_program, wrap_addr,
};
use crate::quirks::{Quirks, default_quirks};

verus! {

/// A CHIP-8 machine: memory, registers, call stack, timers, keypad and display.
pub struct Chip8 {
    memory: [u8; 4096],
    registers: [u8; 16],
    index: u16,
    pc: u16,
    sp: u8,
    stack: [u16; 16],
    delay_timer: u8,
    sound_timer: u8,
    keys: [bool; 16],
    framebuffer: [bool; 2048],
    quirks: Quirks,
    // Key latched by `Fx0A` while it waits for the release
    pressed_key: Option<u8>,
}

impl View for Chip8 {
    type V = Chip8State;

    closed spec fn view(&self) -> Chip8State {
        Chip8State {
            memory: self.memory@,
            registers: self.registers@,
            index: self.index,
            pc: self.pc,
            sp: self.sp,
            stack: self.stack@,
            delay_timer: self.delay_timer,
            sound_timer: self.sound_timer,
            keys: self.keys@,
            framebuffer: self.framebuffer@,
            quirks: self.quirks,
            pressed_key: self.pressed_key,
        }
    }
}

impl Chip8 {
    /// A machine with the default quirks.
    pub fn new() -> (r: Self)
        ensures
            r@ == initial_state(default_quirks()),
            r@.wf(),
    {
        Self::with_quirks(Quirks::new())
    }

    /// A machine with the given quirks.
    pub fn with_quirks(quirks: Quirks) -> (r: Self)
        ensures
            r@ == initial_state(quirks),
            r@.wf(),
    {
        let mut memory = [0u8; 4096];
        let mut i: usize = 0;
        while i < FONT_SET_SIZE
            invariant
                i <= 80,
                forall|j: int| 0 <= j < i ==> memory@[j] == FONT_SET@[j],
                forall|j: int| i <= j < 4096 ==> memory@[j] == 0,
            decreases 80 - i,
        {
            memory[i] = FONT_SET[i];
            i = i + 1;
        }
        let r = Chip8 {
            memory,
            registers: [0u8; 16],
            index: 0,
            pc: START_ADDR,
            sp: 0,
            stack: [0u16; 16],
            delay_timer: 0,
            sound_timer: 0,
            keys: [false; 16],
            framebuffer: [false; 2048],
            quirks,
            pressed_key: None,
        };
        assert(r@.memory =~= initial_state(quirks).memory);
        assert(r@.registers =~= initial_state(quirks).registers);
        assert(r@.stack =~= initial_state(quirks).stack);
        assert(r@.keys =~= initial_state(quirks).keys);
        assert(r@.framebuffer =~= initial_state(quirks).framebuffer);
        assert(r@.memory.subrange(0, 80) =~= font_set());
        r
    }

    /// Puts the machine back in the state it was built in, quirks kept.
    pub fn reset(&mut self)
        ensures
            final(self)@ == initial_state(old(self)@.quirks),
            final(self)@.wf(),
    {
        *self = Self::with_quirks(self.quirks);
    }

    /// Copies a program into memory from the program start on.
    pub fn load(&mut self, data: &[u8])
        requires
            old(self)@.wf(),
            data@.len() <= 4096 - START_ADDR,
        ensures
            final(self)@ == (Chip8State { memory: with_program(old(self)@.memory, data@), ..old(self)@ }),
            final(self)@.wf(),
    {
        let ghost s0 = self@;
        let mut i: usize = 0;
        while i < data.len()
            invariant
                s0.wf(),
                i <= data@.len(),
                data@.len() <= 4096 - START_ADDR,
                self@ == (Chip8State { memory: self@.memory, ..s0 }),
                self@.memory.len() == 4096,
                forall|a: int|
                    0 <= a < 4096 ==> #[trigger] self@.memory[a] == if START_ADDR <= a < START_ADDR
                        + i {
                        data@[a - START_ADDR]
                    } else {
                        s0.memory[a]
                    },
            decreases data@.len() - i,
        {
            self.memory[START_ADDR as usize + i] = data[i];
            i = i + 1;
        }
        assert(self@.memory =~= with_program(s0.memory, data@));
        assert(self@.memory.subrange(0, 80) =~= s0.memory.subrange(0, 80));
    }

    /// Copies a program into memory from the program start on, as `load` does.
    pub fn load_rom(&mut self, rom: &[u8])
        requires
            old(self)@.wf(),
            rom@.len() <= 4096 - START_ADDR,
        ensures
            final(self)@ == (Chip8State { memory: with_program(old(self)@.memory, rom@), ..old(self)@ }),
            final(self)@.wf(),
    {
        self.load(rom);
    }

    /// The display, row after row, pixel `x` of row `y` at `y * 64 + x`.
    pub fn framebuffer(&self) -> (r: &[bool])
        ensures
            r@ == self@.framebuffer,
    {
        self.framebuffer.as_slice()
    }

    /// Records key `idx` of the pad as held down or released.
    pub fn set_key(&mut self, idx: usize, pressed: bool)
        requires
            old(self)@.wf(),
            idx < 16,
        ensures
            final(self)@ == (Chip8State { keys: old(self)@.keys.update(idx as int, pressed), ..old(self)@ }),
            final(self)@.wf(),
    {
        self.keys[idx] = pressed;
    }

    /// One tick of the two timers: each one that is above zero goes down by one.
    pub fn tick_timers(&mut self)
        ensures
            final(self)@ == (Chip8State {
                delay_timer: tick(old(self)@.delay_timer),
                sound_timer: tick(old(self)@.sound_timer),
                ..old(self)@
            }),
    {
        if self.delay_timer > 0 {
            self.delay_timer = self.delay_timer - 1;
        }
        if self.sound_timer > 0 {
            self.sound_timer = self.sound_timer - 1;
        }
    }

    /// Performs one instruction cycle, drawing a random byte when the
    /// instruction is `Cxnn`.
    pub fn emulate(&mut self) -> (r: Result<(), ExecuteError>)
        requires
            old(self)@.wf(),
        ensures
            final(self)@.wf(),
            exists|random: u8| (final(self)@, r) == step(old(self)@, random),
    {
        let ghost s0 = self@;
        let opcode = self.fetch();
        let random = if opcode & 0xF000 == 0xC000 {
            random_byte()
        } else {
            0
        };
        let r = self.execute(opcode, random);
        assert((self@, r) == step(s0, random));
        r
    }

    /// Performs one instruction cycle, with `random` as the byte that `Cxnn` draws.
    pub fn emulate_with_random(&mut self, random: u8) -> (r: Result<(), ExecuteError>)
        requires
            old(self)@.wf(),
        ensures
            final(self)@.wf(),
            (final(self)@, r) == step(old(self)@, random),
    {
        let opcode = self.fetch();
        self.execute(opcode, random)
    }

    /// Reads the opcode at the program counter and moves the counter past it.
    fn fetch(&mut self) -> (opcode: u16)
        requires
            old(self)@.wf(),
        ensures
            opcode == fetch_opcode(old(self)@),
            final(self)@ == old(self)@.with_pc(wrap_addr(old(self)@.pc + 2)),
            final(self)@.wf(),
    {
        let high_byte = self.memory[self.pc as usize] as u16;
        let low_byte = self.memory[((self.pc + 1) % 4096) as usize] as u16;
        assert((high_byte << 8) | low_byte == high_byte * 256 + low_byte) by (bit_vector)
            requires
                high_byte < 256,
                low_byte < 256,
        ;
        let opcode = (high_byte << 8) | low_byte;
        self.pc = (self.pc + 2) % 4096;
        opcode
    }

    /// Decodes and executes one opcode.
    fn execute(&mut self, opcode: u16, random: u8) -> (r: Result<(), ExecuteError>)
        requires
            old(self)@.wf(),
        ensures
            final(self)@.wf(),
            match execute_spec(old(self)@, opcode, random) {
                Ok(u) => r == Ok::<(), ExecuteError>(()) && final(self)@ == u,
                Err(e) => r == Err::<(), ExecuteError>(e) && final(self)@ == old(self)@,
            },
    {
        match ((opcode & 0xF000) >> 12, (opcode & 0x0F00) >> 8, (opcode & 0x00F0) >> 4, opcode & 0x000F) {
            (0x0, 0x0, 0xE, 0x0) => self.op_00e0(),
            (0x0, 0x0, 0xE, 0xE) => {
                if self.sp == 0 {
                    return Err(ExecuteError::StackUnderflow(opcode));
                }
                self.op_00ee()
            },
            (0x1, _, _, _) => self.op_1nnn(opcode),
            (0x2, _, _, _) => {
                if self.sp >= 16 {
                    return Err(ExecuteError::StackOverflow(opcode));
                }
                self.op_2nnn(opcode)
            },
            (0x3, _, _, _) => self.op_3xkk(opcode),
            (0x4, _, _, _) => self.op_4xkk(opcode),
            (0x5, _, _, 0x0) => self.op_5xy0(opcode),
            (0x6, _, _, _) => self.op_6xkk(opcode),
            (0x7, _, _, _) => self.op_7xkk(opcode),
            (0x8, _, _, 0x0) => self.op_8xy0(opcode),
            (0x8, _, _, 0x1) => self.op_8xy1(opcode),
            (0x8, _, _, 0x2) => self.op_8xy2(opcode),
            (0x8, _, _, 0x3) => self.op_8xy3(opcode),
            (0x8, _, _, 0x4) => self.op_8xy4(opcode),
            (0x8, _, _, 0x5) => self.op_8xy5(opcode),
            (0x8, _, _, 0x6) => self.op_8xy6(opcode),
            (0x8, _, _, 0x7) => self.op_8xy7(opcode),
            (0x8, _, _, 0xE) => self.op_8xye(opcode),
            (0x9, _, _, 0x0) => self.op_9xy0(opcode),
            (0xA, _, _, _) => self.op_annn(opcode),
            (0xB, _, _, _) => self.op_bnnn(opcode),
            (0xC, _, _, _) => self.op_cxkk(opcode, random),
            (0xD, _, _, _) => self.op_dxyn(opcode),
            (0xE, _, 0x9, 0xE) => self.op_ex9e(opcode),
            (0xE, _, 0xA, 0x1) => self.op_exa1(opcode),
            (0xF, _, 0x0, 0x7) => self.op_fx07(opcode),
            (0xF, _, 0x0, 0xA) => self.op_fx0a(opcode),
            (0xF, _, 0x1, 0x5) => self.op_fx15(opcode),
            (0xF, _, 0x1, 0x8) => self.op_fx18(opcode),
            (0xF, _, 0x1, 0xE) => self.op_fx1e(opcode),
            (0xF, _, 0x2, 0x9) => self.op_fx29(opcode),
            (0xF, _, 0x3, 0x3) => self.op_fx33(opcode),
            (0xF, _, 0x5, 0x5) => self.op_fx55(opcode),
            (0xF, _, 0x6, 0x5) => self.op_fx65(opcode),
            _ => return Err(ExecuteError::UndefinedInstruction(opcode)),
        }
        Ok(())
    }

    /// The program counter.
    pub fn pc(&self) -> (r: u16)
        ensures
            r == self@.pc,
    {
        self.pc
    }

    /// The index register.
    pub fn index(&self) -> (r: u16)
        ensures
            r == self@.index,
    {
        self.index
    }

    /// General register `i`.
    pub fn register(&self, i: usize) -> (r: u8)
        requires
            i < 16,
        ensures
            r == self@.registers[i as int],
    {
        self.registers[i]
    }

    /// The delay timer.
    pub fn delay_timer(&self) -> (r: u8)
        ensures
            r == self@.delay_timer,
    {
        self.delay_timer
    }

    /// The sound timer: a tone plays while it is above zero.
    pub fn sound_timer(&self) -> (r: u8)
        ensures
            r == self@.sound_timer,
    {
        self.sound_timer
    }
}

impl Default for Chip8 {
    fn default() -> (r: Self)
        ensures
            r@ == initial_state(default_quirks()),
            r@.wf(),
    {
        Self::new()
    }
}

/// Relies on rand::random: a byte from the thread-local generator, of which
/// nothing is known.
#[verifier::external_body]
fn random_byte() -> (r: u8) {
    rand::random::<u8>()
}

} // verus!
