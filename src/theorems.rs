use vstd::prelude::*;
use crate::keyboard::{
    lemma_first_pressed_is, lemma_first_pressed_none, KeyboardState, KEY_COUNT, NO_KEY,
};
use crate::model::{
    collides, draw, execute, fetch_hi, fetch_lo, framebuffer_built, recognized, sprite_hit, step,
    step_error, timer_tick, valid, Chip8State, KeyWait, StepError, FLAG_REGISTER, MEMORY_SIZE,
    SCREEN_HEIGHT, SCREEN_WIDTH,
};

verus! {

/// `6XNN` leaves `NN` in `VX`.
pub proof fn lemma_load_immediate(s: Chip8State, kb: KeyboardState, x: u8, nn: u8, rnd: u8)
    requires
        valid(s),
        x < 16,
        s.pc + 1 < MEMORY_SIZE,
        fetch_hi(s) == 0x60 + x,
        fetch_lo(s) == nn,
    ensures
        step_error(s) is None,
        step(s, kb, rnd).0.registers[x as int] == nn,
{
}

/// The state after executing `8XYN` on `s` with `VX` and `VY` as given.
pub open spec fn after_alu(s: Chip8State, x: u8, y: u8, n: u8, vx: u8, vy: u8) -> Chip8State {
    let t = Chip8State { registers: s.registers.update(x as int, vx).update(y as int, vy), ..s };
    execute(t, KeyboardState { keys: Seq::empty(), halt_key: NO_KEY }, (0x80 + x) as u8, (y * 16 + n) as u8, 0).0
}

/// `8XY4` adds with carry: 250 + 10 leaves 4 with `VF` = 1, and so does 10 + 250.
pub proof fn lemma_add_carry(s: Chip8State, x: u8, y: u8)
    requires
        valid(s),
        x < 16,
        y < 16,
        x != y,
        x != FLAG_REGISTER,
    ensures
        after_alu(s, x, y, 4, 250, 10).registers[x as int] == 4,
        after_alu(s, x, y, 4, 250, 10).registers[FLAG_REGISTER as int] == 1,
        after_alu(s, x, y, 4, 10, 250).registers[x as int] == 4,
        after_alu(s, x, y, 4, 10, 250).registers[FLAG_REGISTER as int] == 1,
{
}

/// `8XY5` subtracts with borrow: 10 - 250 leaves 16 with `VF` = 0, and
/// 250 - 10 leaves 240 with `VF` = 1.
pub proof fn lemma_sub_borrow(s: Chip8State, x: u8, y: u8)
    requires
        valid(s),
        x < 16,
        y < 16,
        x != y,
        x != FLAG_REGISTER,
    ensures
        after_alu(s, x, y, 5, 10, 250).registers[x as int] == 16,
        after_alu(s, x, y, 5, 10, 250).registers[FLAG_REGISTER as int] == 0,
        after_alu(s, x, y, 5, 250, 10).registers[x as int] == 240,
        after_alu(s, x, y, 5, 250, 10).registers[FLAG_REGISTER as int] == 1,
{
}

/// `8XY6` of `0b0000_0011` leaves 1 with `VF` = 1; `8XYE` of `0b1000_0001`
/// leaves 2 with `VF` = 1.
pub proof fn lemma_shifts(s: Chip8State, x: u8, y: u8)
    requires
        valid(s),
        x < 16,
        y < 16,
        x != y,
        x != FLAG_REGISTER,
    ensures
        after_alu(s, x, y, 6, 0b0000_0011, 0).registers[x as int] == 1,
        after_alu(s, x, y, 6, 0b0000_0011, 0).registers[FLAG_REGISTER as int] == 1,
        after_alu(s, x, y, 0xE, 0b1000_0001, 0).registers[x as int] == 2,
        after_alu(s, x, y, 0xE, 0b1000_0001, 0).registers[FLAG_REGISTER as int] == 1,
{
}

/// Drawing a sprite twice at the same place, with neither coordinate in
/// `VF`, gives back the framebuffer as it was; the second draw reports a
/// collision exactly when the sprite has a set bit over a cell that was off
/// before the first draw (on a blank framebuffer: any set bit on screen).
pub proof fn lemma_draw_twice(s: Chip8State, x: int, y: int, n: u8)
    requires
        valid(s),
        0 <= x < 16,
        0 <= y < 16,
        x != FLAG_REGISTER,
        y != FLAG_REGISTER,
        n < 16,
        s.index + n <= MEMORY_SIZE,
    ensures
        draw(draw(s, x, y, n), x, y, n).vram == s.vram,
        framebuffer_built(s) ==> draw(draw(s, x, y, n), x, y, n).registers[FLAG_REGISTER as int]
            == if exists|cx: int, cy: int|
            0 <= cx < SCREEN_WIDTH && 0 <= cy < SCREEN_HEIGHT && #[trigger] sprite_hit(
                s.memory,
                s.index,
                n,
                s.registers[x],
                s.registers[y],
                cx,
                cy,
            ) && !s.vram[cy][cx] {
            1u8
        } else {
            0u8
        },
{
    let s1 = draw(s, x, y, n);
    let vx = s.registers[x];
    let vy = s.registers[y];
    assert(s1.registers[x] == vx && s1.registers[y] == vy);
    assert(draw(s1, x, y, n).vram =~~= s.vram);
    if framebuffer_built(s) {
        if exists|cx: int, cy: int|
            0 <= cx < SCREEN_WIDTH && 0 <= cy < SCREEN_HEIGHT && #[trigger] sprite_hit(
                s.memory,
                s.index,
                n,
                vx,
                vy,
                cx,
                cy,
            ) && !s.vram[cy][cx] {
            let (wx, wy) = choose|cx: int, cy: int|
                0 <= cx < SCREEN_WIDTH && 0 <= cy < SCREEN_HEIGHT && #[trigger] sprite_hit(
                    s.memory,
                    s.index,
                    n,
                    vx,
                    vy,
                    cx,
                    cy,
                ) && !s.vram[cy][cx];
            assert(s1.vram[wy][wx]);
            assert(collides(s1.vram, s1.memory, s1.index, n, vx, vy));
        }
        if collides(s1.vram, s1.memory, s1.index, n, vx, vy) {
            let (wx, wy) = choose|cx: int, cy: int|
                0 <= cx < SCREEN_WIDTH && 0 <= cy < SCREEN_HEIGHT && #[trigger] sprite_hit(
                    s1.memory,
                    s1.index,
                    n,
                    vx,
                    vy,
                    cx,
                    cy,
                ) && s1.vram[cy][cx];
            assert(!s.vram[wy][wx]);
        }
    }
}

/// The latch with only key `k` held (none, for `k` outside the keypad).
pub open spec fn only_key(k: int) -> Seq<bool> {
    Seq::new(KEY_COUNT as nat, |i: int| i == k)
}

/// The machine after `k` steps, each with the latch holding `keys`.
pub open spec fn steps_with(
    s: Chip8State,
    kb: KeyboardState,
    keys: Seq<bool>,
    k: nat,
    rnd: u8,
) -> (Chip8State, KeyboardState)
    decreases k,
{
    if k == 0 {
        (s, kb)
    } else {
        let (s1, kb1) = steps_with(s, kb, keys, (k - 1) as nat, rnd);
        step(s1, KeyboardState { keys, ..kb1 }, rnd)
    }
}

/// `s` stands on `FX0A`, with `VX` holding no key code and the halt key a
/// key code or none.
pub open spec fn waiting_on_key(s: Chip8State, kb: KeyboardState, x: u8) -> bool {
    &&& valid(s)
    &&& x < 16
    &&& s.pc + 1 < MEMORY_SIZE
    &&& fetch_hi(s) == 0xF0 + x
    &&& fetch_lo(s) == 0x0A
    &&& s.registers[x as int] >= KEY_COUNT
    &&& (kb.halt_key < KEY_COUNT || kb.halt_key == NO_KEY)
}

proof fn lemma_steps_no_key(s: Chip8State, kb: KeyboardState, x: u8, k: nat, rnd: u8)
    requires
        waiting_on_key(s, kb, x),
        s.key_wait != KeyWait::AwaitingRelease,
    ensures
        steps_with(s, kb, only_key(-1), k, rnd) == if k == 0 {
            (s, kb)
        } else {
            (
                Chip8State { key_wait: KeyWait::AwaitingPress, ..s },
                KeyboardState { keys: only_key(-1), ..kb },
            )
        },
    decreases k,
{
    lemma_first_pressed_none(only_key(-1), 0);
    if k > 0 {
        lemma_steps_no_key(s, kb, x, (k - 1) as nat, rnd);
        let (s0, kb0) = steps_with(s, kb, only_key(-1), (k - 1) as nat, rnd);
        assert(s0.registers.update(x as int, s0.registers[x as int]) =~= s.registers);
    }
}

proof fn lemma_steps_key_held(s: Chip8State, kb: KeyboardState, x: u8, k: nat, rnd: u8)
    requires
        waiting_on_key(s, kb, x),
        s.key_wait != KeyWait::AwaitingRelease,
        k >= 1,
    ensures
        steps_with(s, kb, only_key(5), k, rnd) == (
            Chip8State { key_wait: KeyWait::AwaitingRelease, ..s },
            KeyboardState { keys: only_key(5), halt_key: 5 },
        ),
    decreases k,
{
    lemma_first_pressed_is(only_key(5), 0, 5);
    if k > 1 {
        lemma_steps_key_held(s, kb, x, (k - 1) as nat, rnd);
    }
    let (s0, kb0) = steps_with(s, kb, only_key(5), (k - 1) as nat, rnd);
    assert(s0.registers.update(x as int, s0.registers[x as int]) =~= s.registers);
}

/// `FX0A` with `VX` holding no key code: any number of steps with no key
/// held, then one or more with key 5 held, keep the program counter on the
/// instruction and the registers as they were; the step after key 5 is let go
/// leaves 5 in `VX` and moves the program counter on by 2.
pub proof fn lemma_key_wait_press_release(
    s: Chip8State,
    kb: KeyboardState,
    x: u8,
    rnd: u8,
    idle_steps: nat,
    held_steps: nat,
)
    requires
        waiting_on_key(s, kb, x),
        s.key_wait != KeyWait::AwaitingRelease,
        held_steps >= 1,
    ensures
        ({
            let (s1, kb1) = steps_with(s, kb, only_key(-1), idle_steps, rnd);
            let (s2, kb2) = steps_with(s1, kb1, only_key(5), held_steps, rnd);
            let (s3, kb3) = step(s2, KeyboardState { keys: only_key(-1), ..kb2 }, rnd);
            &&& s1.pc == s.pc && s1.registers == s.registers
            &&& s2.pc == s.pc && s2.registers == s.registers
            &&& s3.pc == s.pc + 2
            &&& s3.registers[x as int] == 5
            &&& kb3.halt_key == 5
            &&& s3.key_wait == KeyWait::Idle
        }),
{
    lemma_steps_no_key(s, kb, x, idle_steps, rnd);
    let (s1, kb1) = steps_with(s, kb, only_key(-1), idle_steps, rnd);
    lemma_steps_key_held(s1, kb1, x, held_steps, rnd);
    lemma_first_pressed_none(only_key(-1), 0);
}

/// An instruction outside the instruction set only moves the program counter on.
pub proof fn lemma_unrecognized_only_advances(
    s: Chip8State,
    kb: KeyboardState,
    hi: u8,
    lo: u8,
    rnd: u8,
)
    requires
        valid(s),
        !recognized(hi, lo),
    ensures
        execute(s, kb, hi, lo, rnd) == (Chip8State { pc: (s.pc + 2) as u16, ..s }, kb),
{
}

/// `FX55` then `FX65` with the same `X` and index gives back `V0..=VX`, and
/// so every register.
pub proof fn lemma_store_load_round_trip(s: Chip8State, kb: KeyboardState, x: u8, rnd: u8)
    requires
        valid(s),
        x < 16,
    ensures
        ({
            let (s1, kb1) = execute(s, kb, (0xF0 + x) as u8, 0x55, rnd);
            execute(s1, kb1, (0xF0 + x) as u8, 0x65, rnd).0.registers == s.registers
        }),
{
    let (s1, kb1) = execute(s, kb, (0xF0 + x) as u8, 0x55, rnd);
    assert(execute(s1, kb1, (0xF0 + x) as u8, 0x65, rnd).0.registers =~= s.registers);
}

/// `00EE` with an empty stack is refused, with nothing changed, rather than
/// returning anywhere.
pub proof fn lemma_return_needs_stack(s: Chip8State)
    requires
        s.pc + 1 < MEMORY_SIZE,
        fetch_hi(s) == 0x00,
        fetch_lo(s) == 0xEE,
        s.stack.len() == 0,
    ensures
        step_error(s) == Some(StepError::StackUnderflow),
{
}

/// A timer after `k` ticks.
pub open spec fn timer_after(t: u8, k: nat) -> u8
    decreases k,
{
    if k == 0 {
        t
    } else {
        timer_tick(timer_after(t, (k - 1) as nat))
    }
}

/// However many ticks, a timer stops at zero: after `k` ticks it holds
/// `t - k`, or zero once `k` reaches `t`.
pub proof fn lemma_timer_floor(t: u8, k: nat)
    ensures
        timer_after(t, k) == if k >= t {
            0
        } else {
            t - k
        },
    decreases k,
{
    if k > 0 {
        lemma_timer_floor(t, (k - 1) as nat);
    }
}

} // verus!
