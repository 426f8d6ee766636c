use vstd::prelude::*;
use crate::model::{
    Chip8State, draw, execute_spec, fetch_opcode, nibbles, op_nn, op_x, op_y, sprite_covers,
    step, wait_key, wrap_addr,
};

verus! {

/// Whether `op` is one of the conditional skips `3xnn`, `4xnn`, `5xy0`, `9xy0`.
pub open spec fn is_skip(op: u16) -> bool {
    let (f, _, _, n) = nibbles(op);
    f == 0x3 || f == 0x4 || (f == 0x5 && n == 0) || (f == 0x9 && n == 0)
}

/// Whether the conditional skip `op` skips in state `s`.
pub open spec fn skip_taken(s: Chip8State, op: u16) -> bool {
    let f = nibbles(op).0;
    let vx = s.reg(op_x(op));
    if f == 0x3 {
        vx == op_nn(op)
    } else if f == 0x4 {
        vx != op_nn(op)
    } else if f == 0x5 {
        vx == s.reg(op_y(op))
    } else {
        vx != s.reg(op_y(op))
    }
}

/// The random byte matters to `Cxnn` alone: for every other opcode a cycle
/// has one outcome, so `emulate` is deterministic there.
pub proof fn lemma_random_only_for_cxnn(s: Chip8State, a: u8, b: u8)
    requires
        s.wf(),
        nibbles(fetch_opcode(s)).0 != 0xC,
    ensures
        step(s, a) == step(s, b),
{
}

/// A conditional skip moves the program counter on by four bytes when its
/// condition holds and by two otherwise, and changes nothing else.
pub proof fn lemma_skip_advances_pc(s: Chip8State, random: u8)
    requires
        s.wf(),
        is_skip(fetch_opcode(s)),
    ensures
        step(s, random).1 is Ok,
        step(s, random).0 == s.with_pc(
            if skip_taken(s, fetch_opcode(s)) {
                wrap_addr(s.pc + 4)
            } else {
                wrap_addr(s.pc + 2)
            },
        ),
{
    let t = s.with_pc(wrap_addr(s.pc + 2));
    assert(wrap_addr(t.pc + 2) == wrap_addr(s.pc + 4));
}

/// `7xnn` adds modulo 256 and leaves the flag register alone.
pub proof fn lemma_add_byte_wraps(s: Chip8State, random: u8)
    requires
        s.wf(),
        nibbles(fetch_opcode(s)).0 == 0x7,
    ensures
        ({
            let op = fetch_opcode(s);
            let (t, r) = step(s, random);
            &&& r is Ok
            &&& t.reg(op_x(op)) == (s.reg(op_x(op)) + op_nn(op)) % 256
            &&& op_x(op) != 15 ==> t.reg(15) == s.reg(15)
        }),
{
    let op = fetch_opcode(s);
    let t = s.with_pc(wrap_addr(s.pc + 2));
    crate::model::lemma_fields(op);
    assert(step(s, random) == (crate::model::add_byte(t, op), Ok::<(), crate::model::ExecuteError>(())));
}

/// `8xy4` adds modulo 256, then sets vF to 1 exactly when the sum exceeded
/// 255, whatever vF held.
pub proof fn lemma_add_reg_carry(s: Chip8State, random: u8)
    requires
        s.wf(),
        nibbles(fetch_opcode(s)).0 == 0x8,
        nibbles(fetch_opcode(s)).3 == 0x4,
    ensures
        ({
            let op = fetch_opcode(s);
            let (t, r) = step(s, random);
            let sum = s.reg(op_x(op)) + s.reg(op_y(op));
            &&& r is Ok
            &&& op_x(op) != 15 ==> t.reg(op_x(op)) == sum % 256
            &&& t.reg(15) == if sum > 255 { 1u8 } else { 0u8 }
        }),
{
    let op = fetch_opcode(s);
    let t = s.with_pc(wrap_addr(s.pc + 2));
    crate::model::lemma_fields(op);
    assert(step(s, random) == (crate::model::add_reg(t, op), Ok::<(), crate::model::ExecuteError>(())));
}

/// `8xy5` subtracts vY from vX modulo 256, then sets vF to 1 exactly when
/// no borrow occurred, whatever vF held.
pub proof fn lemma_sub_reg_borrow(s: Chip8State, random: u8)
    requires
        s.wf(),
        nibbles(fetch_opcode(s)).0 == 0x8,
        nibbles(fetch_opcode(s)).3 == 0x5,
    ensures
        ({
            let op = fetch_opcode(s);
            let (t, r) = step(s, random);
            let a = s.reg(op_x(op));
            let b = s.reg(op_y(op));
            &&& r is Ok
            &&& op_x(op) != 15 ==> t.reg(op_x(op)) == (a - b + 256) % 256
            &&& t.reg(15) == if a >= b { 1u8 } else { 0u8 }
        }),
{
    let op = fetch_opcode(s);
    let t = s.with_pc(wrap_addr(s.pc + 2));
    crate::model::lemma_fields(op);
    assert(step(s, random) == (crate::model::sub_reg(t, op), Ok::<(), crate::model::ExecuteError>(())));
}

/// `8xy7` subtracts vX from vY modulo 256 into vX, then sets vF to 1 exactly
/// when no borrow occurred, whatever vF held.
pub proof fn lemma_subn_reg_borrow(s: Chip8State, random: u8)
    requires
        s.wf(),
        nibbles(fetch_opcode(s)).0 == 0x8,
        nibbles(fetch_opcode(s)).3 == 0x7,
    ensures
        ({
            let op = fetch_opcode(s);
            let (t, r) = step(s, random);
            let a = s.reg(op_x(op));
            let b = s.reg(op_y(op));
            &&& r is Ok
            &&& op_x(op) != 15 ==> t.reg(op_x(op)) == (b - a + 256) % 256
            &&& t.reg(15) == if b >= a { 1u8 } else { 0u8 }
        }),
{
    let op = fetch_opcode(s);
    let t = s.with_pc(wrap_addr(s.pc + 2));
    crate::model::lemma_fields(op);
    assert(step(s, random) == (crate::model::subn_reg(t, op), Ok::<(), crate::model::ExecuteError>(())));
}

/// `00E0` leaves every pixel of the display off, whatever it showed.
pub proof fn lemma_clear_blanks_display(s: Chip8State, random: u8)
    requires
        s.wf(),
        fetch_opcode(s) == 0x00E0,
    ensures
        step(s, random).1 is Ok,
        step(s, random).0.framebuffer.len() == 2048,
        forall|p: int| 0 <= p < 2048 ==> !#[trigger] step(s, random).0.framebuffer[p],
{
    let op: u16 = 0x00E0;
    assert((op & 0xF000) >> 12 == 0 && (op & 0x0F00) >> 8 == 0 && (op & 0x00F0) >> 4 == 0xE && op
        & 0x000F == 0) by (bit_vector)
        requires
            op == 0x00E0,
    ;
}

/// `Fx55` followed by `Fx65` with the same X and the same index register
/// gives v0 to vX back the values they held before the store, as long as
/// the block of memory they go through lies outside the font area.
pub proof fn lemma_store_load_round_trip(s: Chip8State, store_op: u16, load_op: u16, random: u8)
    requires
        s.wf(),
        nibbles(store_op).0 == 0xF,
        nibbles(store_op).2 == 0x5,
        nibbles(store_op).3 == 0x5,
        nibbles(load_op).0 == 0xF,
        nibbles(load_op).2 == 0x6,
        nibbles(load_op).3 == 0x5,
        op_x(store_op) == op_x(load_op),
        forall|i: int| 0 <= i <= op_x(store_op) ==> #[trigger] wrap_addr(s.index + i) >= 80,
    ensures
        execute_spec(s, store_op, random) is Ok,
        ({
            let t = execute_spec(s, store_op, random)->Ok_0;
            let u = execute_spec(Chip8State { index: s.index, ..t }, load_op, random);
            &&& u is Ok
            &&& forall|i: int| 0 <= i <= op_x(store_op) ==> #[trigger] u->Ok_0.reg(i) == s.reg(i)
        }),
{
    let x = op_x(store_op);
    crate::model::lemma_fields(store_op);
    let t = execute_spec(s, store_op, random)->Ok_0;
    let t2 = Chip8State { index: s.index, ..t };
    assert forall|i: int| 0 <= i <= x implies #[trigger] t2.memory[wrap_addr(s.index + i) as int]
        == s.reg(i) by {
        crate::model::lemma_block_offset(s.index as int, i);
    }
}

/// With `shifting`, `8xy6` shifts vX and ignores vY; without it, vX is
/// first overwritten by vY. Either way vF gets the bit shifted out.
pub proof fn lemma_shift_right_source(s: Chip8State, random: u8)
    requires
        s.wf(),
        nibbles(fetch_opcode(s)).0 == 0x8,
        nibbles(fetch_opcode(s)).3 == 0x6,
    ensures
        ({
            let op = fetch_opcode(s);
            let (t, r) = step(s, random);
            let v = if s.quirks.shifting { s.reg(op_x(op)) } else { s.reg(op_y(op)) };
            &&& r is Ok
            &&& op_x(op) != 15 ==> t.reg(op_x(op)) == v / 2
            &&& t.reg(15) == v % 2
        }),
{
    let op = fetch_opcode(s);
    let t = s.with_pc(wrap_addr(s.pc + 2));
    crate::model::lemma_fields(op);
    assert(step(s, random) == (crate::model::shift_right(t, op), Ok::<(), crate::model::ExecuteError>(())));
}

/// Two runs of the same `8xy6`, from states that differ only in vY: with
/// `shifting` they leave the same vX; without it vX follows vY.
pub proof fn lemma_shift_right_two_runs(s: Chip8State, v: u8, random: u8)
    requires
        s.wf(),
        nibbles(fetch_opcode(s)).0 == 0x8,
        nibbles(fetch_opcode(s)).3 == 0x6,
        op_x(fetch_opcode(s)) != op_y(fetch_opcode(s)),
        op_x(fetch_opcode(s)) != 15,
        op_y(fetch_opcode(s)) != 15,
    ensures
        ({
            let op = fetch_opcode(s);
            let s2 = s.with_reg(op_y(op), v);
            let t1 = step(s, random).0;
            let t2 = step(s2, random).0;
            &&& fetch_opcode(s2) == op
            &&& s.quirks.shifting ==> t1.reg(op_x(op)) == t2.reg(op_x(op))
            &&& !s.quirks.shifting ==> t1.reg(op_x(op)) == s.reg(op_y(op)) / 2 && t2.reg(
                op_x(op),
            ) == v / 2
        }),
{
    let op = fetch_opcode(s);
    crate::model::lemma_fields(op);
    let s2 = s.with_reg(op_y(op), v);
    assert(fetch_opcode(s2) == op);
    assert(s2.wf()) by {
        assert(s2.memory == s.memory);
    }
    lemma_shift_right_source(s, random);
    lemma_shift_right_source(s2, random);
}

/// Drawing the same sprite twice at the same place restores the display.
/// From a blank display the first draw reports no collision; when the
/// sprite turns on at least one pixel, the second draw turns every pixel off
/// again and reports a collision.
pub proof fn lemma_draw_twice(s: Chip8State, op: u16)
    requires
        s.wf(),
        nibbles(op).0 == 0xD,
        op_x(op) != 15,
        op_y(op) != 15,
    ensures
        ({
            let t = draw(s, op);
            let u = draw(t, op);
            &&& u.framebuffer == s.framebuffer
            &&& (forall|p: int| 0 <= p < 2048 ==> !#[trigger] s.framebuffer[p]) ==> {
                &&& t.reg(15) == 0
                &&& (forall|p: int| 0 <= p < 2048 ==> !#[trigger] u.framebuffer[p])
                &&& (exists|p: int| 0 <= p < 2048 && #[trigger] sprite_covers(s, op, p)) ==> u.reg(
                    15,
                ) == 1
            }
        }),
{
    let t = draw(s, op);
    let u = draw(t, op);
    crate::model::lemma_fields(op);
    assert forall|p: int| 0 <= p < 2048 implies #[trigger] sprite_covers(t, op, p) == sprite_covers(
        s,
        op,
        p,
    ) by {}
    assert(u.framebuffer =~= s.framebuffer);
    if forall|p: int| 0 <= p < 2048 ==> !#[trigger] s.framebuffer[p] {
        assert(!crate::model::sprite_collides(s, op));
        if exists|p: int| 0 <= p < 2048 && #[trigger] sprite_covers(s, op, p) {
            let w = choose|p: int| 0 <= p < 2048 && #[trigger] sprite_covers(s, op, p);
            assert(t.framebuffer[w]);
            assert(sprite_covers(t, op, w));
            assert(crate::model::sprite_collides(t, op));
        }
    }
}

/// With `release`, a cycle of `Fx0A` completes (does not step back over the
/// instruction) exactly when a key latched by an earlier cycle, which found
/// it down, is now up; a key is latched only when found down.
pub proof fn lemma_wait_key_release(s: Chip8State, op: u16)
    requires
        s.wf(),
        s.quirks.release,
        nibbles(op).0 == 0xF,
        nibbles(op).2 == 0x0,
        nibbles(op).3 == 0xA,
    ensures
        ({
            let t = wait_key(s, op);
            &&& (t.pc == s.pc) <==> (s.pressed_key is Some && !s.keys[s.pressed_key->Some_0 as int])
            &&& !(t.pc == s.pc) ==> t.pc == s.rewind().pc
            &&& t.pressed_key matches Some(k) ==> (s.pressed_key == Some(k) || s.keys[k as int])
        }),
{
    let t = wait_key(s, op);
    assert(wrap_addr(s.pc + 4094) != s.pc);
    if s.pressed_key is None {
        if exists|k: int| crate::model::is_lowest_down(s.keys, k) {
            let k = choose|k: int| crate::model::is_lowest_down(s.keys, k);
            assert(crate::model::is_lowest_down(s.keys, k));
        }
    }
}

} // verus!
