//! Properties that relate several instructions or several steps.
use vstd::prelude::*;
use crate::machine::{defined, lemma_pixel_at, bit_set, first_pressed_from, addr, wrap16, Machine, SCREEN_SIZE};

verus! {

/// A word outside the instruction table changes nothing but the program
/// counter advance of its fetch, and raises no fault.
pub proof fn lemma_undefined_is_no_op(m: Machine, rnd: u8)
    requires
        m.wf(),
        !defined(m.opcode_at_pc()),
    ensures
        m.step(rnd) == (m.fetched(), Ok::<(), crate::machine::Fault>(())),
{
}

/// `6xnn` puts `nn` in Vx and changes no other register, flag or state.
pub proof fn lemma_load_byte_touches_only_target(m: Machine, x: u8, nn: u8, rnd: u8)
    requires
        m.wf(),
        x < 16,
    ensures
        ({
            let r = m.execute((0x6000 + x * 0x100 + nn) as u16, rnd);
            &&& r is Ok
            &&& r->Ok_0.v[x as int] == nn
            &&& forall|k: int| 0 <= k < 16 && k != x ==> #[trigger] r->Ok_0.v[k] == m.v[k]
            &&& r->Ok_0 == (Machine { v: r->Ok_0.v, ..m })
        }),
{
}

/// `7xnn` adds modulo 256 and leaves VF alone (unless VF is the target).
pub proof fn lemma_add_byte_wraps_without_flag(m: Machine, x: u8, nn: u8, rnd: u8)
    requires
        m.wf(),
        x < 15,
    ensures
        ({
            let r = m.execute((0x7000 + x * 0x100 + nn) as u16, rnd);
            &&& r is Ok
            &&& r->Ok_0.v[x as int] == (m.v[x as int] + nn) % 256
            &&& r->Ok_0.v[15] == m.v[15]
            &&& r->Ok_0 == (Machine { v: r->Ok_0.v, ..m })
        }),
{
}

/// A byte with some bit set lights at least one pixel when drawn as a row.
proof fn lemma_nonzero_row_lights_pixel(m: Machine, x0: int, y0: int, n: int, r: int) -> (p: int)
    requires
        m.wf(),
        0 <= x0 < 64,
        0 <= y0 < 32,
        0 <= r < n < 16,
        m.memory[addr(m.i + r)] != 0,
    ensures
        0 <= p < SCREEN_SIZE,
        m.sprite_covers(x0, y0, n, p % 64, p / 64),
{
    let byte = m.memory[addr(m.i + r)];
    assert(bit_set(byte, 0) || bit_set(byte, 1) || bit_set(byte, 2) || bit_set(byte, 3) || bit_set(
        byte,
        4,
    ) || bit_set(byte, 5) || bit_set(byte, 6) || bit_set(byte, 7)) by {
        assert(byte != 0 ==> (byte >> 7u8) & 1u8 == 1u8 || (byte >> 6u8) & 1u8 == 1u8 || (byte >> 5u8)
            & 1u8 == 1u8 || (byte >> 4u8) & 1u8 == 1u8 || (byte >> 3u8) & 1u8 == 1u8 || (byte >> 2u8)
            & 1u8 == 1u8 || (byte >> 1u8) & 1u8 == 1u8 || (byte >> 0u8) & 1u8 == 1u8) by (bit_vector);
    }
    let b = choose|b: int| 0 <= b < 8 && bit_set(byte, b);
    lemma_pixel_at(x0, y0, r, b);
    ((y0 + r) % 32) * 64 + (x0 + b) % 64
}

/// Drawing a sprite with a nonzero row twice at the same place, onto pixels
/// that were clear, clears them again and reports a collision on the second
/// draw.
pub proof fn lemma_draw_twice_clears(m: Machine, x: int, y: int, n: int)
    requires
        m.wf(),
        0 <= x < 16,
        0 <= y < 16,
        0 < n < 16,
        exists|r: int| 0 <= r < n && m.memory[#[trigger] addr(m.i + r)] != 0,
        forall|p: int|
            0 <= p < SCREEN_SIZE && m.sprite_covers((m.v[x] % 64) as int, (m.v[y] % 32) as int, n, p % 64, p / 64)
                ==> #[trigger] m.screen[p] == 0,
        m.draw(x, y, n).v[x] % 64 == m.v[x] % 64,
        m.draw(x, y, n).v[y] % 32 == m.v[y] % 32,
    ensures
        ({
            let m2 = m.draw(x, y, n).draw(x, y, n);
            &&& m2.screen == m.screen
            &&& m2.v[15] == 1
            &&& forall|p: int|
                0 <= p < SCREEN_SIZE && m.sprite_covers((m.v[x] % 64) as int, (m.v[y] % 32) as int, n, p % 64, p / 64)
                    ==> #[trigger] m2.screen[p] == 0
        }),
{
    let (x0, y0) = ((m.v[x] % 64) as int, (m.v[y] % 32) as int);
    let m1 = m.draw(x, y, n);
    let m2 = m1.draw(x, y, n);
    let r = choose|r: int| 0 <= r < n && m.memory[#[trigger] addr(m.i + r)] != 0;
    let p = lemma_nonzero_row_lights_pixel(m, x0, y0, n, r);
    assert(m1.screen[p] == 1);
    assert(m1.collides(x0, y0, n));
    assert(m2.screen =~= m.screen);
}

/// A call, followed later by a return that finds the stack as the call left
/// it, resumes at the instruction right after the call.
pub proof fn lemma_call_then_return(m: Machine, later: Machine, rnd1: u8, rnd2: u8)
    requires
        m.wf(),
        m.opcode_at_pc() / 0x1000 == 2,
        m.sp < 16,
        later.wf(),
        later.sp == m.step(rnd1).0.sp,
        later.stack == m.step(rnd1).0.stack,
        later.opcode_at_pc() == 0x00EE,
    ensures
        m.step(rnd1).1 is Ok,
        later.step(rnd2).1 is Ok,
        later.step(rnd2).0.pc == wrap16(m.pc + 2),
        later.step(rnd2).0.sp == m.sp,
{
}

/// `Fx0A` with no key held changes nothing, so it runs again on the next
/// step, and any number of steps leave the machine as it was; once key `k`
/// alone is held, the next step puts `k` in Vx and moves on to the following
/// instruction.
pub proof fn lemma_wait_key_blocks_until_press(m: Machine, k: int, rnd: u8, rnds: Seq<u8>)
    requires
        m.wf(),
        m.opcode_at_pc() / 0x1000 == 0xF,
        m.opcode_at_pc() % 0x100 == 0x0A,
        forall|j: int| 0 <= j < 16 ==> !#[trigger] m.keys[j],
        0 <= k < 16,
    ensures
        m.step(rnd) == (m, Ok::<(), crate::machine::Fault>(())),
        m.run(rnds) == m,
        ({
            let pressed = Machine { keys: m.keys.update(k, true), ..m };
            let x = (m.opcode_at_pc() / 0x100) % 16;
            &&& pressed.step(rnd).0.v[x as int] == k
            &&& pressed.step(rnd).0.pc == wrap16(m.pc + 2)
        }),
    decreases rnds.len(),
{
    if rnds.len() > 0 {
        lemma_wait_key_blocks_until_press(m, k, rnds[0], rnds.drop_first());
    }
    lemma_none_pressed(m.keys, 0);
    let keys2 = m.keys.update(k, true);
    lemma_first_pressed_single(keys2, k, 0);
}

proof fn lemma_none_pressed(keys: Seq<bool>, j: int)
    requires
        keys.len() == 16,
        0 <= j <= 16,
        forall|i: int| 0 <= i < 16 ==> !#[trigger] keys[i],
    ensures
        first_pressed_from(keys, j) is None,
    decreases 16 - j,
{
    if j < 16 {
        lemma_none_pressed(keys, j + 1);
    }
}

proof fn lemma_first_pressed_single(keys: Seq<bool>, k: int, j: int)
    requires
        keys.len() == 16,
        0 <= j <= k < 16,
        keys[k],
        forall|i: int| 0 <= i < 16 && i != k ==> !#[trigger] keys[i],
    ensures
        first_pressed_from(keys, j) == Some(k as u8),
    decreases k - j,
{
    if j < k {
        lemma_first_pressed_single(keys, k, j + 1);
    }
}

/// Any number of cycles without a tick, none of which writes a timer, leave
/// both timers as they were; a tick lowers each nonzero timer by exactly one
/// and leaves a zero timer at zero.
pub proof fn lemma_timers_move_only_on_tick(m: Machine, rnds: Seq<u8>)
    requires
        !m.run_writes_timer(rnds),
    ensures
        m.run(rnds).delay == m.delay,
        m.run(rnds).sound == m.sound,
        m.tick().delay == (if m.delay > 0 { m.delay - 1 } else { 0 }),
        m.tick().sound == (if m.sound > 0 { m.sound - 1 } else { 0 }),
        m.tick() == (Machine { delay: m.tick().delay, sound: m.tick().sound, ..m }),
    decreases rnds.len(),
{
    if rnds.len() > 0 {
        lemma_step_keeps_timers(m, rnds[0]);
        lemma_timers_move_only_on_tick(m.step(rnds[0]).0, rnds.drop_first());
    }
}

/// One cycle whose instruction writes neither timer leaves both as they were.
proof fn lemma_step_keeps_timers(m: Machine, rnd: u8)
    requires
        !m.writes_timer(),
    ensures
        m.step(rnd).0.delay == m.delay,
        m.step(rnd).0.sound == m.sound,
{
}

} // verus!
