use vstd::prelude::*;
use super::Chip8;
use crate::model::{
    Chip8State, add_byte, add_index, add_reg, addr_offset, and_reg, call, clear_screen, col_offset,
    draw, is_lowest_down, jump, jump_offset, lemma_block_offset, lemma_fields, lemma_sprite_target,
    load_byte, load_delay, load_glyph, load_index, load_reg, load_regs, lowest_down, op_n, op_nn,
    op_nnn, op_x, op_y, or_reg, random_and, return_from_call, row_offset, set_delay, set_sound,
    shift_left, shift_right, skip_if_eq_byte, skip_if_eq_reg, skip_if_key, skip_if_ne_byte,
    skip_if_ne_reg, skip_if_not_key, sprite_col, sprite_collides, sprite_covers, sprite_row, store,
    store_bcd, store_regs, sub_reg, subn_reg, target_pixel, wait_key, wrap_addr, xor_reg,
};

verus! {

fn reg_x(opcode: u16) -> (r: usize)
    ensures
        r == op_x(opcode),
        r < 16,
{
    proof {
        lemma_fields(opcode);
    }
    ((opcode & 0x0F00) >> 8) as usize
}

fn reg_y(opcode: u16) -> (r: usize)
    ensures
        r == op_y(opcode),
        r < 16,
{
    proof {
        lemma_fields(opcode);
    }
    ((opcode & 0x00F0) >> 4) as usize
}

fn nibble(opcode: u16) -> (r: u8)
    ensures
        r == op_n(opcode),
        r < 16,
{
    proof {
        lemma_fields(opcode);
    }
    (opcode & 0x000F) as u8
}

fn byte(opcode: u16) -> (r: u8)
    ensures
        r == op_nn(opcode),
{
    (opcode & 0x00FF) as u8
}

fn address(opcode: u16) -> (r: u16)
    ensures
        r == op_nnn(opcode),
        r < 4096,
{
    proof {
        lemma_fields(opcode);
    }
    opcode & 0x0FFF
}

/// Pixel `p` has been passed by the drawing loop when it stands at sprite
/// row `row`, column `col`, and the sprite toggles it.
spec fn drawn_before(s: Chip8State, op: u16, p: int, row: int, col: int) -> bool {
    &&& sprite_covers(s, op, p)
    &&& (sprite_row(s, op, p) < row || (sprite_row(s, op, p) == row && sprite_col(s, op, p) < col))
}

impl Chip8 {
    /// Skips the next instruction when `c` holds.
    fn skip_if(&mut self, c: bool)
        requires
            old(self)@.wf(),
        ensures
            final(self)@ == old(self)@.skip_if(c),
            final(self)@.wf(),
    {
        if c {
            self.pc = (self.pc + 2) % 4096;
        }
    }

    /// Steps back over the instruction just fetched.
    fn rewind(&mut self)
        requires
            old(self)@.wf(),
        ensures
            final(self)@ == old(self)@.rewind(),
            final(self)@.wf(),
    {
        self.pc = (self.pc + 4094) % 4096;
    }

    /// Writes `v` at `addr` unless `addr` lies in the font area.
    fn store_byte(&mut self, addr: u16, v: u8)
        requires
            old(self)@.wf(),
            addr < 4096,
        ensures
            final(self)@ == (Chip8State { memory: store(old(self)@.memory, addr as int, v), ..old(self)@ }),
            final(self)@.wf(),
    {
        if addr as usize >= crate::model::FONT_SET_SIZE {
            self.memory[addr as usize] = v;
            assert(self@.memory.subrange(0, 80) =~= old(self)@.memory.subrange(0, 80));
        }
    }

    /// Writes `v` into register `i`.
    fn set_reg(&mut self, i: usize, v: u8)
        requires
            old(self)@.wf(),
            i < 16,
        ensures
            final(self)@ == old(self)@.with_reg(i as int, v),
            final(self)@.wf(),
    {
        self.registers[i] = v;
    }

    /// The lowest-numbered key held down, if any.
    fn lowest_key_down(&self) -> (r: Option<u8>)
        requires
            self@.wf(),
        ensures
            r == lowest_down(self@.keys),
    {
        let mut i: usize = 0;
        while i < 16
            invariant
                self@.wf(),
                i <= 16,
                forall|j: int| 0 <= j < i ==> !self@.keys[j],
            decreases 16 - i,
        {
            if self.keys[i] {
                assert(is_lowest_down(self@.keys, i as int));
                assert(forall|k: int| is_lowest_down(self@.keys, k) ==> k == i);
                return Some(i as u8);
            }
            i = i + 1;
        }
        assert(forall|k: int| !is_lowest_down(self@.keys, k));
        None
    }

    // 00E0: CLS
    pub(crate) fn op_00e0(&mut self)
        requires
            old(self)@.wf(),
        ensures
            final(self)@ == clear_screen(old(self)@),
            final(self)@.wf(),
    {
        self.framebuffer = [false; 2048];
        assert(self@.framebuffer =~= clear_screen(old(self)@).framebuffer);
    }

    // 00EE: RET
    pub(crate) fn op_00ee(&mut self)
        requires
            old(self)@.wf(),
            old(self)@.sp > 0,
        ensures
            final(self)@ == return_from_call(old(self)@),
            final(self)@.wf(),
    {
        self.sp = self.sp - 1;
        self.pc = self.stack[self.sp as usize];
    }

    // 1nnn: JP addr
    pub(crate) fn op_1nnn(&mut self, opcode: u16)
        requires
            old(self)@.wf(),
        ensures
            final(self)@ == jump(old(self)@, opcode),
            final(self)@.wf(),
    {
        self.pc = address(opcode);
    }

    // 2nnn: CALL addr
    pub(crate) fn op_2nnn(&mut self, opcode: u16)
        requires
            old(self)@.wf(),
            old(self)@.sp < 16,
        ensures
            final(self)@ == call(old(self)@, opcode),
            final(self)@.wf(),
    {
        let addr = address(opcode);
        self.stack[self.sp as usize] = self.pc;
        self.sp = self.sp + 1;
        self.pc = addr;
    }

    // 3xkk: SE Vx, byte
    pub(crate) fn op_3xkk(&mut self, opcode: u16)
        requires
            old(self)@.wf(),
        ensures
            final(self)@ == skip_if_eq_byte(old(self)@, opcode),
            final(self)@.wf(),
    {
        let vx = reg_x(opcode);
        let c = self.registers[vx] == byte(opcode);
        self.skip_if(c);
    }

    // 4xkk: SNE Vx, byte
    pub(crate) fn op_4xkk(&mut self, opcode: u16)
        requires
            old(self)@.wf(),
        ensures
            final(self)@ == skip_if_ne_byte(old(self)@, opcode),
            final(self)@.wf(),
    {
        let vx = reg_x(opcode);
        let c = self.registers[vx] != byte(opcode);
        self.skip_if(c);
    }

    // 5xy0: SE Vx, Vy
    pub(crate) fn op_5xy0(&mut self, opcode: u16)
        requires
            old(self)@.wf(),
        ensures
            final(self)@ == skip_if_eq_reg(old(self)@, opcode),
            final(self)@.wf(),
    {
        let vx = reg_x(opcode);
        let vy = reg_y(opcode);
        let c = self.registers[vx] == self.registers[vy];
        self.skip_if(c);
    }

    // 6xkk: LD Vx, byte
    pub(crate) fn op_6xkk(&mut self, opcode: u16)
        requires
            old(self)@.wf(),
        ensures
            final(self)@ == load_byte(old(self)@, opcode),
            final(self)@.wf(),
    {
        let vx = reg_x(opcode);
        self.set_reg(vx, byte(opcode));
    }

    // 7xkk: ADD Vx, byte
    pub(crate) fn op_7xkk(&mut self, opcode: u16)
        requires
            old(self)@.wf(),
        ensures
            final(self)@ == add_byte(old(self)@, opcode),
            final(self)@.wf(),
    {
        let vx = reg_x(opcode);
        let v = self.registers[vx].wrapping_add(byte(opcode));
        self.set_reg(vx, v);
    }

    // 8xy0: LD Vx, Vy
    pub(crate) fn op_8xy0(&mut self, opcode: u16)
        requires
            old(self)@.wf(),
        ensures
            final(self)@ == load_reg(old(self)@, opcode),
            final(self)@.wf(),
    {
        let vx = reg_x(opcode);
        let vy = reg_y(opcode);
        self.set_reg(vx, self.registers[vy]);
    }

    // 8xy1: OR Vx, Vy
    pub(crate) fn op_8xy1(&mut self, opcode: u16)
        requires
            old(self)@.wf(),
        ensures
            final(self)@ == or_reg(old(self)@, opcode),
            final(self)@.wf(),
    {
        let vx = reg_x(opcode);
        let vy = reg_y(opcode);
        if self.quirks.vf_reset {
            self.set_reg(15, 0);
        }
        self.set_reg(vx, self.registers[vx] | self.registers[vy]);
    }

    // 8xy2: AND Vx, Vy
    pub(crate) fn op_8xy2(&mut self, opcode: u16)
        requires
            old(self)@.wf(),
        ensures
            final(self)@ == and_reg(old(self)@, opcode),
            final(self)@.wf(),
    {
        let vx = reg_x(opcode);
        let vy = reg_y(opcode);
        if self.quirks.vf_reset {
            self.set_reg(15, 0);
        }
        self.set_reg(vx, self.registers[vx] & self.registers[vy]);
    }

    // 8xy3: XOR Vx, Vy
    pub(crate) fn op_8xy3(&mut self, opcode: u16)
        requires
            old(self)@.wf(),
        ensures
            final(self)@ == xor_reg(old(self)@, opcode),
            final(self)@.wf(),
    {
        let vx = reg_x(opcode);
        let vy = reg_y(opcode);
        if self.quirks.vf_reset {
            self.set_reg(15, 0);
        }
        self.set_reg(vx, self.registers[vx] ^ self.registers[vy]);
    }

    // 8xy4: ADD Vx, Vy
    pub(crate) fn op_8xy4(&mut self, opcode: u16)
        requires
            old(self)@.wf(),
        ensures
            final(self)@ == add_reg(old(self)@, opcode),
            final(self)@.wf(),
    {
        let vx = reg_x(opcode);
        let vy = reg_y(opcode);
        let a = self.registers[vx];
        let b = self.registers[vy];
        let sum = a.wrapping_add(b);
        let overflowed = a > 255 - b;
        self.set_reg(vx, sum);
        self.set_reg(15, if overflowed { 1 } else { 0 });
    }

    // 8xy5: SUB Vx, Vy
    pub(crate) fn op_8xy5(&mut self, opcode: u16)
        requires
            old(self)@.wf(),
        ensures
            final(self)@ == sub_reg(old(self)@, opcode),
            final(self)@.wf(),
    {
        let vx = reg_x(opcode);
        let vy = reg_y(opcode);
        let a = self.registers[vx];
        let b = self.registers[vy];
        let difference = a.wrapping_sub(b);
        let borrowed = a < b;
        self.set_reg(vx, difference);
        self.set_reg(15, if borrowed { 0 } else { 1 });
    }

    // 8xy6: SHR Vx
    pub(crate) fn op_8xy6(&mut self, opcode: u16)
        requires
            old(self)@.wf(),
        ensures
            final(self)@ == shift_right(old(self)@, opcode),
            final(self)@.wf(),
    {
        let vx = reg_x(opcode);
        let vy = reg_y(opcode);
        let v = if self.quirks.shifting {
            self.registers[vx]
        } else {
            self.registers[vy]
        };
        assert(v >> 1 == v / 2 && v & 1 == v % 2) by (bit_vector);
        self.set_reg(vx, v >> 1);
        self.set_reg(15, v & 1);
    }

    // 8xy7: SUBN Vx, Vy
    pub(crate) fn op_8xy7(&mut self, opcode: u16)
        requires
            old(self)@.wf(),
        ensures
            final(self)@ == subn_reg(old(self)@, opcode),
            final(self)@.wf(),
    {
        let vx = reg_x(opcode);
        let vy = reg_y(opcode);
        let a = self.registers[vx];
        let b = self.registers[vy];
        let difference = b.wrapping_sub(a);
        let borrowed = b < a;
        self.set_reg(vx, difference);
        self.set_reg(15, if borrowed { 0 } else { 1 });
    }

    // 8xyE: SHL Vx {, Vy}
    pub(crate) fn op_8xye(&mut self, opcode: u16)
        requires
            old(self)@.wf(),
        ensures
            final(self)@ == shift_left(old(self)@, opcode),
            final(self)@.wf(),
    {
        let vx = reg_x(opcode);
        let vy = reg_y(opcode);
        let v = if self.quirks.shifting {
            self.registers[vx]
        } else {
            self.registers[vy]
        };
        assert(v << 1 == (v * 2) % 256 && (v >> 7) & 1 == v / 128) by (bit_vector);
        self.set_reg(vx, v << 1);
        self.set_reg(15, (v >> 7) & 1);
    }

    // 9xy0: SNE Vx, Vy
    pub(crate) fn op_9xy0(&mut self, opcode: u16)
        requires
            old(self)@.wf(),
        ensures
            final(self)@ == skip_if_ne_reg(old(self)@, opcode),
            final(self)@.wf(),
    {
        let vx = reg_x(opcode);
        let vy = reg_y(opcode);
        let c = self.registers[vx] != self.registers[vy];
        self.skip_if(c);
    }

    // Annn: LD I, addr
    pub(crate) fn op_annn(&mut self, opcode: u16)
        requires
            old(self)@.wf(),
        ensures
            final(self)@ == load_index(old(self)@, opcode),
            final(self)@.wf(),
    {
        self.index = address(opcode);
    }

    // Bnnn: JP V0, addr
    pub(crate) fn op_bnnn(&mut self, opcode: u16)
        requires
            old(self)@.wf(),
        ensures
            final(self)@ == jump_offset(old(self)@, opcode),
            final(self)@.wf(),
    {
        let addr = address(opcode);
        let r = if self.quirks.jumping {
            reg_x(opcode)
        } else {
            0
        };
        self.pc = (addr + self.registers[r] as u16) % 4096;
    }

    // Cxkk: RND Vx, byte, given the drawn byte
    pub(crate) fn op_cxkk(&mut self, opcode: u16, random: u8)
        requires
            old(self)@.wf(),
        ensures
            final(self)@ == random_and(old(self)@, opcode, random),
            final(self)@.wf(),
    {
        let vx = reg_x(opcode);
        self.set_reg(vx, random & byte(opcode));
    }

    // Ex9E: SKP Vx
    pub(crate) fn op_ex9e(&mut self, opcode: u16)
        requires
            old(self)@.wf(),
        ensures
            final(self)@ == skip_if_key(old(self)@, opcode),
            final(self)@.wf(),
    {
        let vx = reg_x(opcode);
        let key = self.registers[vx] as usize;
        let c = key < 16 && self.keys[key];
        self.skip_if(c);
    }

    // ExA1: SKNP Vx
    pub(crate) fn op_exa1(&mut self, opcode: u16)
        requires
            old(self)@.wf(),
        ensures
            final(self)@ == skip_if_not_key(old(self)@, opcode),
            final(self)@.wf(),
    {
        let vx = reg_x(opcode);
        let key = self.registers[vx] as usize;
        let c = !(key < 16 && self.keys[key]);
        self.skip_if(c);
    }

    // Fx07: LD Vx, DT
    pub(crate) fn op_fx07(&mut self, opcode: u16)
        requires
            old(self)@.wf(),
        ensures
            final(self)@ == load_delay(old(self)@, opcode),
            final(self)@.wf(),
    {
        let vx = reg_x(opcode);
        self.set_reg(vx, self.delay_timer);
    }

    // Fx0A: LD Vx, K
    pub(crate) fn op_fx0a(&mut self, opcode: u16)
        requires
            old(self)@.wf(),
        ensures
            final(self)@ == wait_key(old(self)@, opcode),
            final(self)@.wf(),
    {
        let vx = reg_x(opcode);
        if !self.quirks.release {
            match self.lowest_key_down() {
                Some(k) => self.set_reg(vx, k),
                None => self.rewind(),
            }
        } else {
            match self.pressed_key {
                None => match self.lowest_key_down() {
                    Some(k) => {
                        self.set_reg(vx, k);
                        self.pressed_key = Some(k);
                        self.rewind();
                    },
                    None => self.rewind(),
                },
                Some(k) => {
                    if !self.keys[k as usize] {
                        self.pressed_key = None;
                    } else {
                        self.rewind();
                    }
                },
            }
        }
    }

    // Fx15: LD DT, Vx
    pub(crate) fn op_fx15(&mut self, opcode: u16)
        requires
            old(self)@.wf(),
        ensures
            final(self)@ == set_delay(old(self)@, opcode),
            final(self)@.wf(),
    {
        let vx = reg_x(opcode);
        self.delay_timer = self.registers[vx];
    }

    // Fx18: LD ST, Vx
    pub(crate) fn op_fx18(&mut self, opcode: u16)
        requires
            old(self)@.wf(),
        ensures
            final(self)@ == set_sound(old(self)@, opcode),
            final(self)@.wf(),
    {
        let vx = reg_x(opcode);
        self.sound_timer = self.registers[vx];
    }

    // Fx1E: ADD I, Vx
    pub(crate) fn op_fx1e(&mut self, opcode: u16)
        requires
            old(self)@.wf(),
        ensures
            final(self)@ == add_index(old(self)@, opcode),
            final(self)@.wf(),
    {
        let vx = reg_x(opcode);
        self.index = (self.index + self.registers[vx] as u16) % 4096;
    }

    // Fx29: LD F, Vx
    pub(crate) fn op_fx29(&mut self, opcode: u16)
        requires
            old(self)@.wf(),
        ensures
            final(self)@ == load_glyph(old(self)@, opcode),
            final(self)@.wf(),
    {
        let vx = reg_x(opcode);
        let digit = (self.registers[vx] % 16) as u16;
        self.index = 5 * digit;
    }

    // Fx33: LD B, Vx
    pub(crate) fn op_fx33(&mut self, opcode: u16)
        requires
            old(self)@.wf(),
        ensures
            final(self)@ == store_bcd(old(self)@, opcode),
            final(self)@.wf(),
    {
        let vx = reg_x(opcode);
        let value = self.registers[vx];
        let index = self.index;
        // Hundreds, tens and ones
        self.store_byte(index, value / 100);
        self.store_byte((index + 1) % 4096, (value / 10) % 10);
        self.store_byte((index + 2) % 4096, value % 10);
    }

    // Fx55: LD [I], Vx
    pub(crate) fn op_fx55(&mut self, opcode: u16)
        requires
            old(self)@.wf(),
        ensures
            final(self)@ == store_regs(old(self)@, opcode),
            final(self)@.wf(),
    {
        let vx = reg_x(opcode);
        let ghost s0 = self@;
        let mut i: usize = 0;
        while i <= vx
            invariant
                s0.wf(),
                vx == op_x(opcode),
                vx < 16,
                i <= vx + 1,
                self@.wf(),
                self@ == (Chip8State { memory: self@.memory, ..s0 }),
                forall|a: int|
                    0 <= a < 4096 ==> #[trigger] self@.memory[a] == if a >= 80 && addr_offset(
                        s0.index as int,
                        a,
                    ) < i {
                        s0.reg(addr_offset(s0.index as int, a))
                    } else {
                        s0.memory[a]
                    },
            decreases vx + 1 - i,
        {
            proof {
                lemma_block_offset(s0.index as int, i as int);
            }
            self.store_byte((self.index + i as u16) % 4096, self.registers[i]);
            i = i + 1;
        }
        if self.quirks.memory {
            self.index = (self.index + vx as u16 + 1) % 4096;
        }
        assert(self@.memory =~= store_regs(s0, opcode).memory);
    }

    // Fx65: LD Vx, [I]
    pub(crate) fn op_fx65(&mut self, opcode: u16)
        requires
            old(self)@.wf(),
        ensures
            final(self)@ == load_regs(old(self)@, opcode),
            final(self)@.wf(),
    {
        let vx = reg_x(opcode);
        let ghost s0 = self@;
        let mut i: usize = 0;
        while i <= vx
            invariant
                s0.wf(),
                vx == op_x(opcode),
                vx < 16,
                i <= vx + 1,
                self@.wf(),
                self@ == (Chip8State { registers: self@.registers, ..s0 }),
                forall|j: int|
                    0 <= j < 16 ==> #[trigger] self@.registers[j] == if j < i {
                        s0.memory[wrap_addr(s0.index + j) as int]
                    } else {
                        s0.reg(j)
                    },
            decreases vx + 1 - i,
        {
            let v = self.memory[((self.index + i as u16) % 4096) as usize];
            self.set_reg(i, v);
            i = i + 1;
        }
        if self.quirks.memory {
            self.index = (self.index + vx as u16 + 1) % 4096;
        }
        assert(self@.registers =~= load_regs(s0, opcode).registers);
    }

    // Dxyn: DRW Vx, Vy, nibble
    pub(crate) fn op_dxyn(&mut self, opcode: u16)
        requires
            old(self)@.wf(),
        ensures
            final(self)@ == draw(old(self)@, opcode),
            final(self)@.wf(),
    {
        let vx = reg_x(opcode);
        let vy = reg_y(opcode);
        let height = nibble(opcode);
        let x_pos = self.registers[vx] % 64;
        let y_pos = self.registers[vy] % 32;
        let ghost s0 = self@;
        let ghost x0 = x_pos as int;
        let ghost y0 = y_pos as int;
        let mut flipped = false;
        let mut row: u8 = 0;
        while row < height
            invariant
                s0.wf(),
                row <= height,
                height < 16,
                height == op_n(opcode),
                x0 == s0.reg(op_x(opcode)) % 64,
                y0 == s0.reg(op_y(opcode)) % 32,
                x_pos == x0,
                y_pos == y0,
                self@ == (Chip8State { framebuffer: self@.framebuffer, ..s0 }),
                self@.framebuffer.len() == 2048,
                forall|p: int|
                    0 <= p < 2048 ==> #[trigger] self@.framebuffer[p] == (s0.framebuffer[p]
                        != drawn_before(s0, opcode, p, row as int, 0)),
                flipped == exists|p: int|
                    0 <= p < 2048 && #[trigger] drawn_before(s0, opcode, p, row as int, 0)
                        && s0.framebuffer[p],
            decreases height - row,
        {
            let sprite_byte = self.memory[((self.index + row as u16) % 4096) as usize];
            let mut col: u8 = 0;
            while col < 8
                invariant
                    s0.wf(),
                    row < height,
                    height < 16,
                    col <= 8,
                    height == op_n(opcode),
                    x0 == s0.reg(op_x(opcode)) % 64,
                    y0 == s0.reg(op_y(opcode)) % 32,
                    x_pos == x0,
                    y_pos == y0,
                    sprite_byte == s0.memory[((s0.index + row) % 4096) as int],
                    self@ == (Chip8State { framebuffer: self@.framebuffer, ..s0 }),
                    self@.framebuffer.len() == 2048,
                    forall|p: int|
                        0 <= p < 2048 ==> #[trigger] self@.framebuffer[p] == (s0.framebuffer[p]
                            != drawn_before(s0, opcode, p, row as int, col as int)),
                    flipped == exists|p: int|
                        0 <= p < 2048 && #[trigger] drawn_before(
                            s0,
                            opcode,
                            p,
                            row as int,
                            col as int,
                        ) && s0.framebuffer[p],
                decreases 8 - col,
            {
                let ghost t = target_pixel(x0, y0, row as int, col as int);
                proof {
                    lemma_sprite_target(x0, y0, row as int, col as int);
                }
                let clipped = self.quirks.clipping && (y_pos + row >= 32 || x_pos + col >= 64);
                let on = sprite_byte & (0x80u8 >> col) != 0;
                assert(sprite_covers(s0, opcode, t) == (!clipped && on));
                let ghost before = self@.framebuffer;
                let ghost flipped_before = flipped;
                if !clipped && on {
                    let idx = ((x_pos + col) as usize % 64) + 64 * ((y_pos + row) as usize % 32);
                    assert(idx == t);
                    flipped = flipped || self.framebuffer[idx];
                    self.framebuffer[idx] = !self.framebuffer[idx];
                }
                proof {
                    assert forall|p: int|
                        0 <= p < 2048 && p != t implies drawn_before(
                            s0,
                            opcode,
                            p,
                            row as int,
                            col + 1,
                        ) == drawn_before(s0, opcode, p, row as int, col as int) by {
                        if col_offset(x0, p) == col && row_offset(y0, p) == row {
                            assert(p == t);
                        }
                    }
                    assert(drawn_before(s0, opcode, t, row as int, col + 1) == (!clipped && on));
                    assert(!drawn_before(s0, opcode, t, row as int, col as int));
                    if flipped {
                        if flipped_before {
                            let w = choose|p: int|
                                0 <= p < 2048 && #[trigger] drawn_before(
                                    s0,
                                    opcode,
                                    p,
                                    row as int,
                                    col as int,
                                ) && s0.framebuffer[p];
                            assert(drawn_before(s0, opcode, w, row as int, col + 1));
                        } else {
                            assert(drawn_before(s0, opcode, t, row as int, col + 1));
                            assert(before[t] == s0.framebuffer[t]);
                        }
                    } else {
                        assert forall|p: int|
                            0 <= p < 2048 && #[trigger] drawn_before(
                                s0,
                                opcode,
                                p,
                                row as int,
                                col + 1,
                            ) implies !s0.framebuffer[p] by {
                            if p != t {
                                assert(drawn_before(s0, opcode, p, row as int, col as int));
                            } else {
                                assert(before[t] == s0.framebuffer[t]);
                            }
                        }
                    }
                }
                col = col + 1;
            }
            proof {
                assert forall|p: int| 0 <= p < 2048 implies drawn_before(
                    s0,
                    opcode,
                    p,
                    row as int,
                    8,
                ) == drawn_before(s0, opcode, p, row + 1, 0) by {}
                if flipped {
                    let w = choose|p: int|
                        0 <= p < 2048 && #[trigger] drawn_before(s0, opcode, p, row as int, 8)
                            && s0.framebuffer[p];
                    assert(drawn_before(s0, opcode, w, row + 1, 0));
                } else {
                    assert forall|p: int|
                        0 <= p < 2048 && #[trigger] drawn_before(s0, opcode, p, row + 1, 0)
                            implies !s0.framebuffer[p] by {
                        assert(drawn_before(s0, opcode, p, row as int, 8));
                    }
                }
            }
            row = row + 1;
        }
        proof {
            assert forall|p: int| 0 <= p < 2048 implies drawn_before(
                s0,
                opcode,
                p,
                row as int,
                0,
            ) == sprite_covers(s0, opcode, p) by {
                assert(sprite_row(s0, opcode, p) < 32);
            }
            assert(flipped == sprite_collides(s0, opcode)) by {
                if flipped {
                    let w = choose|p: int|
                        0 <= p < 2048 && #[trigger] drawn_before(s0, opcode, p, row as int, 0)
                            && s0.framebuffer[p];
                    assert(sprite_covers(s0, opcode, w));
                }
                if sprite_collides(s0, opcode) {
                    let w = choose|p: int|
                        0 <= p < 2048 && #[trigger] sprite_covers(s0, opcode, p)
                            && s0.framebuffer[p];
                    assert(drawn_before(s0, opcode, w, row as int, 0));
                }
            }
        }
        self.registers[15] = if flipped {
            1
        } else {
            0
        };
        assert(self@.framebuffer =~= draw(s0, opcode).framebuffer);
        assert(self@.registers =~= draw(s0, opcode).registers);
    }
}

} // verus!
