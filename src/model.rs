use vstd::prelude::*;
use crate::quirks::Quirks;
use vstd::arithmetic::div_mod::lemma_fundamental_div_mod_converse;

verus! {

/// Width of the display, in pixels.
pub const VIDEO_WIDTH: usize = 64;

/// Height of the display, in pixels.
pub const VIDEO_HEIGHT: usize = 32;

/// Address at which programs are loaded and execution starts.
pub const START_ADDR: u16 = 0x200;

/// Number of bytes of the built-in hexadecimal font, stored from address 0.
pub const FONT_SET_SIZE: usize = 80;

/// Sixteen glyphs of five rows each, one for every hexadecimal digit.
pub const FONT_SET: [u8; 80] = [
    0xF0, 0x90, 0x90, 0x90, 0xF0, // 0
    0x20, 0x60, 0x20, 0x20, 0x70, // 1
    0xF0, 0x10, 0xF0, 0x80, 0xF0, // 2
    0xF0, 0x10, 0xF0, 0x10, 0xF0, // 3
    0x90, 0x90, 0xF0, 0x10, 0x10, // 4
    0xF0, 0x80, 0xF0, 0x10, 0xF0, // 5
    0xF0, 0x80, 0xF0, 0x90, 0xF0, // 6
    0xF0, 0x10, 0x20, 0x40, 0x40, // 7
    0xF0, 0x90, 0xF0, 0x90, 0xF0, // 8
    0xF0, 0x90, 0xF0, 0x10, 0xF0, // 9
    0xF0, 0x90, 0xF0, 0x90, 0x90, // A
    0xE0, 0x90, 0xE0, 0x90, 0xE0, // B
    0xF0, 0x80, 0x80, 0x80, 0xF0, // C
    0xE0, 0x90, 0x90, 0x90, 0xE0, // D
    0xF0, 0x80, 0xF0, 0x80, 0xF0, // E
    0xF0, 0x80, 0xF0, 0x80, 0x80, // F
];

/// The one condition under which a cycle fails.
#[derive(Clone, Copy, Debug, PartialEq, Eq, Structural)]
pub enum ExecuteError {
    /// The fetched opcode matches no instruction.
    UndefinedInstruction(u16),
    /// A call (`2nnn`) was made with all sixteen stack levels in use.
    StackOverflow(u16),
    /// A return (`00EE`) was made with an empty stack.
    StackUnderflow(u16),
}

/// The machine state as mathematical values.
pub struct Chip8State {
    /// 4096 bytes: the font from address 0, programs from `START_ADDR`.
    pub memory: Seq<u8>,
    /// v0 to vF; vF doubles as the carry, borrow and collision flag.
    pub registers: Seq<u8>,
    /// The index register I.
    pub index: u16,
    /// Address of the next instruction.
    pub pc: u16,
    /// Number of return addresses on the stack.
    pub sp: u8,
    /// Sixteen return addresses, the first `sp` of them in use.
    pub stack: Seq<u16>,
    pub delay_timer: u8,
    pub sound_timer: u8,
    /// Which of the sixteen pad keys are held down.
    pub keys: Seq<bool>,
    /// 64 by 32 pixels, row after row.
    pub framebuffer: Seq<bool>,
    pub quirks: Quirks,
    /// The key that `Fx0A` found down and now waits to see released.
    pub pressed_key: Option<u8>,
}

pub open spec fn font_set() -> Seq<u8> {
    FONT_SET@
}

impl Chip8State {
    /// Sizes of the fixed stores, every address below 4096, the font in place.
    pub open spec fn wf(&self) -> bool {
        &&& self.memory.len() == 4096
        &&& self.registers.len() == 16
        &&& self.stack.len() == 16
        &&& self.keys.len() == 16
        &&& self.framebuffer.len() == 2048
        &&& self.pc < 4096
        &&& self.index < 4096
        &&& self.sp <= 16
        &&& forall|i: int| 0 <= i < 16 ==> #[trigger] self.stack[i] < 4096
        &&& self.memory.subrange(0, 80) == font_set()
        &&& (self.pressed_key matches Some(k) ==> k < 16)
    }
}

/// The state of a machine just built: the font loaded, all else zero, execution
/// about to start at the program's first byte.
pub open spec fn initial_state(quirks: Quirks) -> Chip8State {
    Chip8State {
        memory: font_set() + Seq::new(4016, |i: int| 0u8),
        registers: Seq::new(16, |i: int| 0u8),
        index: 0,
        pc: START_ADDR,
        sp: 0,
        stack: Seq::new(16, |i: int| 0u16),
        delay_timer: 0,
        sound_timer: 0,
        keys: Seq::new(16, |i: int| false),
        framebuffer: Seq::new(2048, |i: int| false),
        quirks,
        pressed_key: None,
    }
}

/// An address reduced into the 4096-byte address space: every address the
/// machine derives (program counter, index register, index offsets) wraps here.
pub open spec fn wrap_addr(a: int) -> u16 {
    (a % 4096) as u16
}

/// Register selected by bits 8 to 11 of the opcode.
pub open spec fn op_x(op: u16) -> int {
    ((op & 0x0F00) >> 8) as int
}

/// Register selected by bits 4 to 7 of the opcode.
pub open spec fn op_y(op: u16) -> int {
    ((op & 0x00F0) >> 4) as int
}

/// The lowest nibble of the opcode.
pub open spec fn op_n(op: u16) -> int {
    (op & 0x000F) as int
}

/// The lowest byte of the opcode.
pub open spec fn op_nn(op: u16) -> u8 {
    (op & 0x00FF) as u8
}

/// The lowest twelve bits of the opcode: an address.
pub open spec fn op_nnn(op: u16) -> u16 {
    op & 0x0FFF
}

/// Memory after a store by an instruction. Stores into the font area are
/// dropped, so that the font is never overwritten by a running program.
pub open spec fn store(mem: Seq<u8>, addr: int, v: u8) -> Seq<u8> {
    if addr < FONT_SET_SIZE {
        mem
    } else {
        mem.update(addr, v)
    }
}

impl Chip8State {
    pub open spec fn reg(self, i: int) -> u8 {
        self.registers[i]
    }

    pub open spec fn with_reg(self, i: int, v: u8) -> Chip8State {
        Chip8State { registers: self.registers.update(i, v), ..self }
    }

    pub open spec fn with_pc(self, pc: u16) -> Chip8State {
        Chip8State { pc, ..self }
    }

    /// Skips the next instruction when `c` holds.
    pub open spec fn skip_if(self, c: bool) -> Chip8State {
        if c {
            self.with_pc(wrap_addr(self.pc + 2))
        } else {
            self
        }
    }

    /// Steps back over the instruction just fetched, so that it runs again.
    pub open spec fn rewind(self) -> Chip8State {
        self.with_pc(wrap_addr(self.pc + 4094))
    }

    /// Whether `k` names a key of the pad that is held down.
    pub open spec fn key_down(self, k: int) -> bool {
        0 <= k < 16 && self.keys[k]
    }
}

/// The two bytes at the program counter, high byte first.
pub open spec fn fetch_opcode(s: Chip8State) -> u16 {
    (s.memory[s.pc as int] as int * 256 + s.memory[wrap_addr(s.pc + 1) as int] as int) as u16
}

// In what follows `s` is the state after the fetch: its program counter
// already points past the instruction.

/// `00E0`: every pixel off.
pub open spec fn clear_screen(s: Chip8State) -> Chip8State {
    Chip8State { framebuffer: Seq::new(2048, |i: int| false), ..s }
}

/// `00EE`: pop the return address (the stack must not be empty).
pub open spec fn return_from_call(s: Chip8State) -> Chip8State {
    Chip8State { sp: (s.sp - 1) as u8, pc: s.stack[s.sp - 1], ..s }
}

/// `1nnn`
pub open spec fn jump(s: Chip8State, op: u16) -> Chip8State {
    s.with_pc(op_nnn(op))
}

/// `2nnn`: push the return address (a level must be free) and jump.
pub open spec fn call(s: Chip8State, op: u16) -> Chip8State {
    Chip8State {
        stack: s.stack.update(s.sp as int, s.pc),
        sp: (s.sp + 1) as u8,
        pc: op_nnn(op),
        ..s
    }
}

/// `3xnn`
pub open spec fn skip_if_eq_byte(s: Chip8State, op: u16) -> Chip8State {
    s.skip_if(s.reg(op_x(op)) == op_nn(op))
}

/// `4xnn`
pub open spec fn skip_if_ne_byte(s: Chip8State, op: u16) -> Chip8State {
    s.skip_if(s.reg(op_x(op)) != op_nn(op))
}

/// `5xy0`
pub open spec fn skip_if_eq_reg(s: Chip8State, op: u16) -> Chip8State {
    s.skip_if(s.reg(op_x(op)) == s.reg(op_y(op)))
}

/// `9xy0`
pub open spec fn skip_if_ne_reg(s: Chip8State, op: u16) -> Chip8State {
    s.skip_if(s.reg(op_x(op)) != s.reg(op_y(op)))
}

/// `6xnn`
pub open spec fn load_byte(s: Chip8State, op: u16) -> Chip8State {
    s.with_reg(op_x(op), op_nn(op))
}

/// `7xnn`: add modulo 256, the flag untouched.
pub open spec fn add_byte(s: Chip8State, op: u16) -> Chip8State {
    s.with_reg(op_x(op), ((s.reg(op_x(op)) + op_nn(op)) % 256) as u8)
}

/// `8xy0`
pub open spec fn load_reg(s: Chip8State, op: u16) -> Chip8State {
    s.with_reg(op_x(op), s.reg(op_y(op)))
}

/// The state that the logical opcodes work on: with `vf_reset`, vF is zeroed first.
pub open spec fn flag_reset(s: Chip8State) -> Chip8State {
    if s.quirks.vf_reset {
        s.with_reg(15, 0)
    } else {
        s
    }
}

/// `8xy1`
pub open spec fn or_reg(s: Chip8State, op: u16) -> Chip8State {
    let t = flag_reset(s);
    t.with_reg(op_x(op), t.reg(op_x(op)) | t.reg(op_y(op)))
}

/// `8xy2`
pub open spec fn and_reg(s: Chip8State, op: u16) -> Chip8State {
    let t = flag_reset(s);
    t.with_reg(op_x(op), t.reg(op_x(op)) & t.reg(op_y(op)))
}

/// `8xy3`
pub open spec fn xor_reg(s: Chip8State, op: u16) -> Chip8State {
    let t = flag_reset(s);
    t.with_reg(op_x(op), t.reg(op_x(op)) ^ t.reg(op_y(op)))
}

/// `8xy4`: vX + vY modulo 256, then vF is 1 exactly when the sum exceeded 255.
pub open spec fn add_reg(s: Chip8State, op: u16) -> Chip8State {
    let sum = s.reg(op_x(op)) + s.reg(op_y(op));
    s.with_reg(op_x(op), (sum % 256) as u8).with_reg(15, if sum > 255 { 1 } else { 0 })
}

/// `8xy5`: vX - vY modulo 256, then vF is 1 exactly when no borrow occurred.
pub open spec fn sub_reg(s: Chip8State, op: u16) -> Chip8State {
    let a = s.reg(op_x(op));
    let b = s.reg(op_y(op));
    s.with_reg(op_x(op), ((a - b + 256) % 256) as u8).with_reg(15, if a >= b { 1 } else { 0 })
}

/// `8xy7`: vY - vX modulo 256, then vF is 1 exactly when no borrow occurred.
pub open spec fn subn_reg(s: Chip8State, op: u16) -> Chip8State {
    let a = s.reg(op_x(op));
    let b = s.reg(op_y(op));
    s.with_reg(op_x(op), ((b - a + 256) % 256) as u8).with_reg(15, if b >= a { 1 } else { 0 })
}

/// The value the shift opcodes shift: vX with `shifting`, else vY.
pub open spec fn shift_source(s: Chip8State, op: u16) -> u8 {
    if s.quirks.shifting {
        s.reg(op_x(op))
    } else {
        s.reg(op_y(op))
    }
}

/// `8xy6`: vX is the source halved, then vF its lowest bit.
pub open spec fn shift_right(s: Chip8State, op: u16) -> Chip8State {
    let v = shift_source(s, op);
    s.with_reg(op_x(op), v / 2).with_reg(15, v % 2)
}

/// `8xyE`: vX is the source doubled modulo 256, then vF its highest bit.
pub open spec fn shift_left(s: Chip8State, op: u16) -> Chip8State {
    let v = shift_source(s, op);
    s.with_reg(op_x(op), ((v * 2) % 256) as u8).with_reg(15, v / 128)
}

/// `Annn`
pub open spec fn load_index(s: Chip8State, op: u16) -> Chip8State {
    Chip8State { index: op_nnn(op), ..s }
}

/// `Bnnn`: jump to nnn plus v0, or plus vX with `jumping`.
pub open spec fn jump_offset(s: Chip8State, op: u16) -> Chip8State {
    let r = if s.quirks.jumping { op_x(op) } else { 0 };
    s.with_pc(wrap_addr(op_nnn(op) + s.reg(r)))
}

/// `Cxnn`, given the random byte drawn.
pub open spec fn random_and(s: Chip8State, op: u16, random: u8) -> Chip8State {
    s.with_reg(op_x(op), random & op_nn(op))
}

/// `Ex9E`
pub open spec fn skip_if_key(s: Chip8State, op: u16) -> Chip8State {
    s.skip_if(s.key_down(s.reg(op_x(op)) as int))
}

/// `ExA1`
pub open spec fn skip_if_not_key(s: Chip8State, op: u16) -> Chip8State {
    s.skip_if(!s.key_down(s.reg(op_x(op)) as int))
}

/// `Fx07`
pub open spec fn load_delay(s: Chip8State, op: u16) -> Chip8State {
    s.with_reg(op_x(op), s.delay_timer)
}

/// `Fx15`
pub open spec fn set_delay(s: Chip8State, op: u16) -> Chip8State {
    Chip8State { delay_timer: s.reg(op_x(op)), ..s }
}

/// `Fx18`
pub open spec fn set_sound(s: Chip8State, op: u16) -> Chip8State {
    Chip8State { sound_timer: s.reg(op_x(op)), ..s }
}

/// `Fx1E`
pub open spec fn add_index(s: Chip8State, op: u16) -> Chip8State {
    Chip8State { index: wrap_addr(s.index + s.reg(op_x(op))), ..s }
}

/// `Fx29`: the glyph of the low nibble of vX.
pub open spec fn load_glyph(s: Chip8State, op: u16) -> Chip8State {
    Chip8State { index: (5 * (s.reg(op_x(op)) % 16)) as u16, ..s }
}

/// `Fx33`: hundreds, tens and ones of vX at I, I + 1 and I + 2.
pub open spec fn store_bcd(s: Chip8State, op: u16) -> Chip8State {
    let v = s.reg(op_x(op));
    let m1 = store(s.memory, wrap_addr(s.index as int) as int, (v / 100) as u8);
    let m2 = store(m1, wrap_addr(s.index + 1) as int, ((v / 10) % 10) as u8);
    let m3 = store(m2, wrap_addr(s.index + 2) as int, (v % 10) as u8);
    Chip8State { memory: m3, ..s }
}

/// The index after `Fx55` or `Fx65`: moved past the last register with `memory`.
pub open spec fn index_after_block(s: Chip8State, op: u16) -> u16 {
    if s.quirks.memory {
        wrap_addr(s.index + op_x(op) + 1)
    } else {
        s.index
    }
}

/// Distance from the index register up to `a`, in the wrapping address space.
pub open spec fn offset_from_index(s: Chip8State, a: int) -> int {
    addr_offset(s.index as int, a)
}

/// Distance from address `base` up to address `a`, wrapping at 4096.
pub open spec fn addr_offset(base: int, a: int) -> int {
    (a - base + 4096) % 4096
}

/// `Fx55`: v0 to vX stored from I on (outside the font area).
pub open spec fn store_regs(s: Chip8State, op: u16) -> Chip8State {
    Chip8State {
        memory: Seq::new(
            4096,
            |a: int|
                if a >= FONT_SET_SIZE && offset_from_index(s, a) <= op_x(op) {
                    s.reg(offset_from_index(s, a))
                } else {
                    s.memory[a]
                },
        ),
        index: index_after_block(s, op),
        ..s
    }
}

/// `Fx65`: v0 to vX loaded from I on.
pub open spec fn load_regs(s: Chip8State, op: u16) -> Chip8State {
    Chip8State {
        registers: Seq::new(
            16,
            |i: int|
                if i <= op_x(op) {
                    s.memory[wrap_addr(s.index + i) as int]
                } else {
                    s.reg(i)
                },
        ),
        index: index_after_block(s, op),
        ..s
    }
}

/// `k` is the lowest-numbered key held down.
pub open spec fn is_lowest_down(keys: Seq<bool>, k: int) -> bool {
    &&& 0 <= k < 16
    &&& keys[k]
    &&& forall|j: int| 0 <= j < k ==> !keys[j]
}

/// The lowest-numbered key held down, if any.
pub open spec fn lowest_down(keys: Seq<bool>) -> Option<u8> {
    if exists|k: int| is_lowest_down(keys, k) {
        Some((choose|k: int| is_lowest_down(keys, k)) as u8)
    } else {
        None
    }
}

/// `Fx0A`, one cycle of it. Without `release` it completes on the first
/// cycle that finds a key down. With `release` a key found down is written
/// to vX and latched, and the instruction completes on the first cycle that
/// finds the latched key up. Until it completes it runs again.
pub open spec fn wait_key(s: Chip8State, op: u16) -> Chip8State {
    if !s.quirks.release {
        match lowest_down(s.keys) {
            Some(k) => s.with_reg(op_x(op), k),
            None => s.rewind(),
        }
    } else {
        match s.pressed_key {
            None => match lowest_down(s.keys) {
                Some(k) => Chip8State { pressed_key: Some(k), ..s.with_reg(op_x(op), k) }.rewind(),
                None => s.rewind(),
            },
            Some(k) => if !s.keys[k as int] {
                Chip8State { pressed_key: None, ..s }
            } else {
                s.rewind()
            },
        }
    }
}

/// Horizontal distance from the sprite's left edge to pixel `p`, wrapping.
pub open spec fn sprite_col(s: Chip8State, op: u16, p: int) -> int {
    col_offset((s.reg(op_x(op)) % 64) as int, p)
}

/// Vertical distance from the sprite's top edge to pixel `p`, wrapping.
pub open spec fn sprite_row(s: Chip8State, op: u16, p: int) -> int {
    row_offset((s.reg(op_y(op)) % 32) as int, p)
}

/// Columns from `x0` rightwards to pixel `p`, wrapping at the right edge.
pub open spec fn col_offset(x0: int, p: int) -> int {
    (p % 64 - x0 + 64) % 64
}

/// Rows from `y0` downwards to pixel `p`, wrapping at the bottom edge.
pub open spec fn row_offset(y0: int, p: int) -> int {
    (p / 64 - y0 + 32) % 32
}

/// The pixel `col` columns right of and `row` rows below (`x0`, `y0`), wrapping.
pub open spec fn target_pixel(x0: int, y0: int, row: int, col: int) -> int {
    (x0 + col) % 64 + 64 * ((y0 + row) % 32)
}

/// Bit `c` of a sprite row, the most significant bit being the leftmost.
pub open spec fn sprite_bit(b: u8, c: int) -> bool {
    b & (0x80u8 >> (c as u8)) != 0
}

/// Whether the sprite of `Dxyn` toggles pixel `p`: the pixel lies within the
/// n rows and 8 columns from (vX mod 64, vY mod 32), is not cut off by
/// `clipping` at the right or bottom edge, and its sprite bit is set.
pub open spec fn sprite_covers(s: Chip8State, op: u16, p: int) -> bool {
    let c = sprite_col(s, op, p);
    let r = sprite_row(s, op, p);
    &&& r < op_n(op)
    &&& c < 8
    &&& (!s.quirks.clipping || (s.reg(op_x(op)) % 64 + c < 64 && s.reg(op_y(op)) % 32 + r < 32))
    &&& sprite_bit(s.memory[wrap_addr(s.index + r) as int], c)
}

/// Whether `Dxyn` turns off a pixel that was on.
pub open spec fn sprite_collides(s: Chip8State, op: u16) -> bool {
    exists|p: int| 0 <= p < 2048 && #[trigger] sprite_covers(s, op, p) && s.framebuffer[p]
}

/// `Dxyn`: every covered pixel toggled, then vF is 1 exactly on a collision.
pub open spec fn draw(s: Chip8State, op: u16) -> Chip8State {
    Chip8State {
        framebuffer: Seq::new(2048, |p: int| s.framebuffer[p] != sprite_covers(s, op, p)),
        ..s
    }.with_reg(15, if sprite_collides(s, op) { 1 } else { 0 })
}

/// The four nibbles of the opcode, highest first.
pub open spec fn nibbles(op: u16) -> (u16, u16, u16, u16) {
    ((op & 0xF000) >> 12, (op & 0x0F00) >> 8, (op & 0x00F0) >> 4, op & 0x000F)
}

/// What one instruction does to the state after its fetch, `random` being
/// the byte that `Cxnn` draws. Every opcode that names no instruction is
/// refused, as are a call with a full stack and a return with an empty one;
/// a refused instruction changes nothing.
pub open spec fn execute_spec(s: Chip8State, op: u16, random: u8) -> Result<Chip8State, ExecuteError> {
    match nibbles(op) {
        (0x0, 0x0, 0xE, 0x0) => Ok(clear_screen(s)),
        (0x0, 0x0, 0xE, 0xE) => if s.sp == 0 {
            Err(ExecuteError::StackUnderflow(op))
        } else {
            Ok(return_from_call(s))
        },
        (0x1, _, _, _) => Ok(jump(s, op)),
        (0x2, _, _, _) => if s.sp >= 16 {
            Err(ExecuteError::StackOverflow(op))
        } else {
            Ok(call(s, op))
        },
        (0x3, _, _, _) => Ok(skip_if_eq_byte(s, op)),
        (0x4, _, _, _) => Ok(skip_if_ne_byte(s, op)),
        (0x5, _, _, 0x0) => Ok(skip_if_eq_reg(s, op)),
        (0x6, _, _, _) => Ok(load_byte(s, op)),
        (0x7, _, _, _) => Ok(add_byte(s, op)),
        (0x8, _, _, 0x0) => Ok(load_reg(s, op)),
        (0x8, _, _, 0x1) => Ok(or_reg(s, op)),
        (0x8, _, _, 0x2) => Ok(and_reg(s, op)),
        (0x8, _, _, 0x3) => Ok(xor_reg(s, op)),
        (0x8, _, _, 0x4) => Ok(add_reg(s, op)),
        (0x8, _, _, 0x5) => Ok(sub_reg(s, op)),
        (0x8, _, _, 0x6) => Ok(shift_right(s, op)),
        (0x8, _, _, 0x7) => Ok(subn_reg(s, op)),
        (0x8, _, _, 0xE) => Ok(shift_left(s, op)),
        (0x9, _, _, 0x0) => Ok(skip_if_ne_reg(s, op)),
        (0xA, _, _, _) => Ok(load_index(s, op)),
        (0xB, _, _, _) => Ok(jump_offset(s, op)),
        (0xC, _, _, _) => Ok(random_and(s, op, random)),
        (0xD, _, _, _) => Ok(draw(s, op)),
        (0xE, _, 0x9, 0xE) => Ok(skip_if_key(s, op)),
        (0xE, _, 0xA, 0x1) => Ok(skip_if_not_key(s, op)),
        (0xF, _, 0x0, 0x7) => Ok(load_delay(s, op)),
        (0xF, _, 0x0, 0xA) => Ok(wait_key(s, op)),
        (0xF, _, 0x1, 0x5) => Ok(set_delay(s, op)),
        (0xF, _, 0x1, 0x8) => Ok(set_sound(s, op)),
        (0xF, _, 0x1, 0xE) => Ok(add_index(s, op)),
        (0xF, _, 0x2, 0x9) => Ok(load_glyph(s, op)),
        (0xF, _, 0x3, 0x3) => Ok(store_bcd(s, op)),
        (0xF, _, 0x5, 0x5) => Ok(store_regs(s, op)),
        (0xF, _, 0x6, 0x5) => Ok(load_regs(s, op)),
        _ => Err(ExecuteError::UndefinedInstruction(op)),
    }
}

/// One full cycle: fetch the opcode at the program counter, move the counter
/// past it, execute. On a refused instruction the cycle ends with the
/// counter past it and nothing else changed.
pub open spec fn step(s: Chip8State, random: u8) -> (Chip8State, Result<(), ExecuteError>) {
    let op = fetch_opcode(s);
    let t = s.with_pc(wrap_addr(s.pc + 2));
    match execute_spec(t, op, random) {
        Ok(u) => (u, Ok(())),
        Err(e) => (t, Err(e)),
    }
}

/// Memory with `data` copied in from the program start on.
pub open spec fn with_program(mem: Seq<u8>, data: Seq<u8>) -> Seq<u8> {
    Seq::new(
        4096,
        |a: int|
            if START_ADDR <= a < START_ADDR + data.len() {
                data[a - START_ADDR]
            } else {
                mem[a]
            },
    )
}

/// A timer after one tick: down by one, never below zero.
pub open spec fn tick(t: u8) -> u8 {
    if t > 0 {
        (t - 1) as u8
    } else {
        0
    }
}

/// The opcode fields are within their ranges.
pub(crate) proof fn lemma_fields(op: u16)
    ensures
        0 <= op_x(op) < 16,
        0 <= op_y(op) < 16,
        0 <= op_n(op) < 16,
        op_nnn(op) < 4096,
{
    assert((op & 0x0F00) >> 8 < 16) by (bit_vector);
    assert((op & 0x00F0) >> 4 < 16) by (bit_vector);
    assert(op & 0x000F < 16) by (bit_vector);
    assert(op & 0x0FFF < 4096) by (bit_vector);
}

/// The pixel that sprite row `row`, column `col` lands on, drawn from
/// (`x0`, `y0`), is the one pixel at that distance from the sprite's corner.
pub(crate) proof fn lemma_sprite_target(x0: int, y0: int, row: int, col: int)
    requires
        0 <= x0 < 64,
        0 <= y0 < 32,
        0 <= row < 16,
        0 <= col < 8,
    ensures
        0 <= target_pixel(x0, y0, row, col) < 2048,
        col_offset(x0, target_pixel(x0, y0, row, col)) == col,
        row_offset(y0, target_pixel(x0, y0, row, col)) == row,
        forall|p: int|
            0 <= p < 2048 && #[trigger] col_offset(x0, p) == col && #[trigger] row_offset(y0, p) == row
                ==> p == target_pixel(x0, y0, row, col),
{
    let a = (x0 + col) % 64;
    let b = (y0 + row) % 32;
    let t = a + 64 * b;
    if x0 + col < 64 {
        lemma_fundamental_div_mod_converse(x0 + col, 64, 0, x0 + col);
        lemma_fundamental_div_mod_converse(col + 64, 64, 1, col);
    } else {
        lemma_fundamental_div_mod_converse(x0 + col, 64, 1, x0 + col - 64);
        lemma_fundamental_div_mod_converse(col, 64, 0, col);
    }
    if y0 + row < 32 {
        lemma_fundamental_div_mod_converse(y0 + row, 32, 0, y0 + row);
        lemma_fundamental_div_mod_converse(row + 32, 32, 1, row);
    } else {
        lemma_fundamental_div_mod_converse(y0 + row, 32, 1, y0 + row - 32);
        lemma_fundamental_div_mod_converse(row, 32, 0, row);
    }
    lemma_fundamental_div_mod_converse(t, 64, b, a);
    assert forall|p: int|
        0 <= p < 2048 && #[trigger] col_offset(x0, p) == col && #[trigger] row_offset(y0, p) == row
            implies p == t by {
        lemma_pixel_from_offsets(x0, y0, p);
    }
}

/// A pixel is fixed by its column and row distances from a corner.
proof fn lemma_pixel_from_offsets(x0: int, y0: int, p: int)
    requires
        0 <= x0 < 64,
        0 <= y0 < 32,
        0 <= p < 2048,
    ensures
        p == target_pixel(x0, y0, row_offset(y0, p), col_offset(x0, p)),
{
    let px = p % 64;
    let py = p / 64;
    lemma_fundamental_div_mod_converse(p, 64, py, px);
    assert(0 <= py < 32) by {
        vstd::arithmetic::div_mod::lemma_div_is_ordered(p, 2047, 64);
    }
    let c = col_offset(x0, p);
    let r = row_offset(y0, p);
    if px >= x0 {
        lemma_fundamental_div_mod_converse(px - x0 + 64, 64, 1, px - x0);
        lemma_fundamental_div_mod_converse(x0 + c, 64, 0, px);
    } else {
        lemma_fundamental_div_mod_converse(px - x0 + 64, 64, 0, px - x0 + 64);
        lemma_fundamental_div_mod_converse(x0 + c, 64, 1, px);
    }
    if py >= y0 {
        lemma_fundamental_div_mod_converse(py - y0 + 32, 32, 1, py - y0);
        lemma_fundamental_div_mod_converse(y0 + r, 32, 0, py);
    } else {
        lemma_fundamental_div_mod_converse(py - y0 + 32, 32, 0, py - y0 + 32);
        lemma_fundamental_div_mod_converse(y0 + r, 32, 1, py);
    }
}

/// The address `i` bytes past `base` is the one address at that distance from it.
pub(crate) proof fn lemma_block_offset(base: int, i: int)
    requires
        0 <= base < 4096,
        0 <= i < 16,
    ensures
        0 <= (base + i) % 4096 < 4096,
        addr_offset(base, (base + i) % 4096) == i,
        forall|a: int| 0 <= a < 4096 && #[trigger] addr_offset(base, a) == i ==> a == (base + i) % 4096,
{
    if base + i < 4096 {
        lemma_fundamental_div_mod_converse(base + i, 4096, 0, base + i);
        lemma_fundamental_div_mod_converse(i + 4096, 4096, 1, i);
    } else {
        lemma_fundamental_div_mod_converse(base + i, 4096, 1, base + i - 4096);
        lemma_fundamental_div_mod_converse(i, 4096, 0, i);
    }
    assert forall|a: int| 0 <= a < 4096 && #[trigger] addr_offset(base, a) == i implies a == (base
        + i) % 4096 by {
        if a >= base {
            lemma_fundamental_div_mod_converse(a - base + 4096, 4096, 1, a - base);
        } else {
            lemma_fundamental_div_mod_converse(a - base + 4096, 4096, 0, a - base + 4096);
        }
    }
}

} // verus!
