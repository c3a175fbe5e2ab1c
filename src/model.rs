use vstd::prelude::*;
use crate::keyboard::{KeyboardState, key_down, lowest_pressed, KEY_COUNT};

verus! {

/// Bytes of addressable memory.
pub const MEMORY_SIZE: usize = 4096;

/// General-purpose registers `V0..=VF`.
pub const REGISTER_COUNT: usize = 16;

/// Index of `VF`, which doubles as the carry, borrow and collision flag.
pub const FLAG_REGISTER: usize = 15;

/// Address at which programs are loaded and execution starts.
pub const PROGRAM_START: u16 = 0x200;

/// Logical framebuffer width, in cells.
pub const SCREEN_WIDTH: u32 = 64;

/// Logical framebuffer height, in cells.
pub const SCREEN_HEIGHT: u32 = 32;

/// Bytes of the built-in font: five for each hex digit.
pub const FONT_SIZE: usize = 80;

/// Where the blocking key read (`FX0A`) stands.
#[derive(Clone, Copy, Debug, PartialEq, Eq, Structural)]
pub enum KeyWait {
    Idle,
    AwaitingPress,
    AwaitingRelease,
}

/// Why an instruction could not be executed; the machine is left unchanged.
#[derive(Clone, Copy, Debug, PartialEq, Eq, Structural)]
pub enum StepError {
    /// The two bytes at the program counter are not both inside memory.
    ProgramCounterOutOfRange,
    /// `00EE` with no return address on the stack.
    StackUnderflow,
}

/// The interpreter as a mathematical value.
pub struct Chip8State {
    pub memory: Seq<u8>,
    pub registers: Seq<u8>,
    pub index: u16,
    pub stack: Seq<u16>,
    pub pc: u16,
    pub delay_timer: u8,
    pub sound_timer: u8,
    /// Rows of cells, `vram[y][x]`, `true` when the cell is on.
    pub vram: Seq<Seq<bool>>,
    pub vram_changed: bool,
    pub vram_scale: usize,
    pub key_wait: KeyWait,
}

/// The built-in hex font, glyph `d` at bytes `5 * d .. 5 * d + 5`.
pub open spec fn font() -> Seq<u8> {
    seq![
        0xF0u8, 0x90, 0x90, 0x90, 0xF0, 0x20, 0x60, 0x20, 0x20, 0x70,
        0xF0, 0x10, 0xF0, 0x80, 0xF0, 0xF0, 0x10, 0xF0, 0x10, 0xF0,
        0x90, 0x90, 0xF0, 0x10, 0x10, 0xF0, 0x80, 0xF0, 0x10, 0xF0,
        0xF0, 0x80, 0xF0, 0x90, 0xF0, 0xF0, 0x10, 0x20, 0x40, 0x40,
        0xF0, 0x90, 0xF0, 0x90, 0xF0, 0xF0, 0x90, 0xF0, 0x10, 0xF0,
        0xF0, 0x90, 0xF0, 0x90, 0x90, 0xE0, 0x90, 0xE0, 0x90, 0xE0,
        0xF0, 0x80, 0x80, 0x80, 0xF0, 0xE0, 0x90, 0x90, 0x90, 0xE0,
        0xF0, 0x80, 0xF0, 0x80, 0xF0, 0xF0, 0x80, 0xF0, 0x80, 0x80,
    ]
}

/// A framebuffer with every cell off.
pub open spec fn blank_vram() -> Seq<Seq<bool>> {
    Seq::new(SCREEN_HEIGHT as nat, |y: int| Seq::new(SCREEN_WIDTH as nat, |x: int| false))
}

/// Whether the framebuffer has been built (it is empty until the host
/// window's size is known).
pub open spec fn framebuffer_built(s: Chip8State) -> bool {
    s.vram.len() == SCREEN_HEIGHT
}

/// The shape every reachable state has: 16 registers, 4096 bytes of memory,
/// and a framebuffer that is either not built yet or 32 rows of 64 cells.
pub open spec fn valid(s: Chip8State) -> bool {
    &&& s.memory.len() == MEMORY_SIZE
    &&& s.registers.len() == REGISTER_COUNT
    &&& s.vram.len() == 0 || s.vram.len() == SCREEN_HEIGHT
    &&& forall|y: int| 0 <= y < s.vram.len() ==> #[trigger] s.vram[y].len() == SCREEN_WIDTH
}

/// The instruction word made of a high and a low byte.
pub open spec fn word(hi: u8, lo: u8) -> u16 {
    (hi as int * 256 + lo as int) as u16
}

/// High byte of the instruction at the program counter.
pub open spec fn fetch_hi(s: Chip8State) -> u8 {
    s.memory[s.pc as int]
}

/// Low byte of the instruction at the program counter.
pub open spec fn fetch_lo(s: Chip8State) -> u8 {
    s.memory[s.pc as int + 1]
}

/// Whether the instruction could not be executed, and why.
pub open spec fn step_error(s: Chip8State) -> Option<StepError> {
    if s.pc as int + 1 >= MEMORY_SIZE {
        Some(StepError::ProgramCounterOutOfRange)
    } else if fetch_hi(s) == 0 && fetch_lo(s) == 0xEE && s.stack.len() == 0 {
        Some(StepError::StackUnderflow)
    } else {
        None
    }
}

/// `s` with the program counter at `pc`.
pub open spec fn with_pc(s: Chip8State, pc: int) -> Chip8State {
    Chip8State { pc: pc as u16, ..s }
}

/// `s` with register `r` set to `v`.
pub open spec fn with_reg(s: Chip8State, r: int, v: u8) -> Chip8State {
    Chip8State { registers: s.registers.update(r, v), ..s }
}

/// Result of the register-to-register instruction `8XYN` on `VX` and `VY`:
/// the new `VX` and, where the instruction sets it, the new `VF`. `None`
/// for an `N` that names no instruction.
pub open spec fn alu(vx: u8, vy: u8, n: u8) -> Option<(u8, Option<u8>)> {
    if n == 0x0 {
        Some((vy, None))
    } else if n == 0x1 {
        Some((vx | vy, None))
    } else if n == 0x2 {
        Some((vx & vy, None))
    } else if n == 0x3 {
        Some((vx ^ vy, None))
    } else if n == 0x4 {
        if vx as int + vy as int > 255 {
            Some(((vx as int + vy as int - 256) as u8, Some(1u8)))
        } else {
            Some(((vx as int + vy as int) as u8, Some(0u8)))
        }
    } else if n == 0x5 {
        if vx >= vy {
            Some(((vx - vy) as u8, Some(1u8)))
        } else {
            Some(((vx as int - vy as int + 256) as u8, Some(0u8)))
        }
    } else if n == 0x6 {
        Some(((vx / 2) as u8, Some((vx % 2) as u8)))
    } else if n == 0x7 {
        if vy >= vx {
            Some(((vy - vx) as u8, Some(1u8)))
        } else {
            Some(((vy as int - vx as int + 256) as u8, Some(0u8)))
        }
    } else if n == 0xE {
        Some((((vx as int * 2) % 256) as u8, Some((vx / 128) as u8)))
    } else {
        None
    }
}

/// Whether pixel `col` (0 leftmost) of a sprite row byte is set.
pub open spec fn sprite_bit(byte: u8, col: int) -> bool {
    byte & (0x80u8 >> (col as u8)) != 0
}

/// Sprite row that lands on screen row `cy` when the sprite's top is at `vy`.
pub open spec fn sprite_row(cy: int, vy: u8) -> int {
    (cy + SCREEN_HEIGHT - vy as int % SCREEN_HEIGHT as int) % SCREEN_HEIGHT as int
}

/// Sprite column that lands on screen column `cx` when its left is at `vx`.
pub open spec fn sprite_col(cx: int, vx: u8) -> int {
    (cx + SCREEN_WIDTH - vx as int % SCREEN_WIDTH as int) % SCREEN_WIDTH as int
}

/// Whether a set sprite bit lands on cell `(cx, cy)` when the `n`-row sprite
/// at `index` is drawn with its top-left at `(vx, vy)`, wrapping on both axes.
pub open spec fn sprite_hit(
    memory: Seq<u8>,
    index: u16,
    n: u8,
    vx: u8,
    vy: u8,
    cx: int,
    cy: int,
) -> bool {
    let r = sprite_row(cy, vy);
    let c = sprite_col(cx, vx);
    &&& r < n
    &&& c < 8
    &&& sprite_bit(memory[index as int + r], c)
}

/// The framebuffer after the sprite is drawn: each hit cell flips.
pub open spec fn drawn(
    vram: Seq<Seq<bool>>,
    memory: Seq<u8>,
    index: u16,
    n: u8,
    vx: u8,
    vy: u8,
) -> Seq<Seq<bool>> {
    Seq::new(
        SCREEN_HEIGHT as nat,
        |cy: int|
            Seq::new(
                SCREEN_WIDTH as nat,
                |cx: int| vram[cy][cx] != sprite_hit(memory, index, n, vx, vy, cx, cy),
            ),
    )
}

/// Whether the sprite hits a cell that was on.
pub open spec fn collides(
    vram: Seq<Seq<bool>>,
    memory: Seq<u8>,
    index: u16,
    n: u8,
    vx: u8,
    vy: u8,
) -> bool {
    exists|cx: int, cy: int|
        0 <= cx < SCREEN_WIDTH && 0 <= cy < SCREEN_HEIGHT && #[trigger] sprite_hit(
            memory,
            index,
            n,
            vx,
            vy,
            cx,
            cy,
        ) && vram[cy][cx]
}

/// `DXYN`. `VF` is cleared first, so the position is read after that; when
/// the `n` sprite bytes at the index do not all lie in memory, or there is no
/// framebuffer yet, nothing is drawn and only the program counter moves.
pub open spec fn draw(s: Chip8State, x: int, y: int, n: u8) -> Chip8State {
    if s.index as int + n as int > MEMORY_SIZE || !framebuffer_built(s) {
        with_pc(s, s.pc + 2)
    } else {
        let regs = s.registers.update(FLAG_REGISTER as int, 0);
        let vx = regs[x];
        let vy = regs[y];
        let hit = collides(s.vram, s.memory, s.index, n, vx, vy);
        Chip8State {
            registers: regs.update(FLAG_REGISTER as int, if hit { 1u8 } else { 0u8 }),
            vram: drawn(s.vram, s.memory, s.index, n, vx, vy),
            vram_changed: true,
            pc: (s.pc + 2) as u16,
            ..s
        }
    }
}

/// The code a halt key stands for when compared with, or stored in, a register.
pub open spec fn halt_code(halt: usize) -> u8 {
    (halt % 256) as u8
}

/// `FX0A`, one step of the blocking key read. Unless a key is already being
/// waited on for release, a held key (the lowest) becomes the halt key; once
/// the halt key is up its code goes to `VX`. The read is over when `VX` holds
/// the halt key's code, which may be at once when `VX` already held it. Until
/// then the program counter stays on the instruction.
pub open spec fn wait_for_key(s: Chip8State, kb: KeyboardState, x: int) -> (
    Chip8State,
    KeyboardState,
) {
    let found = if s.key_wait == KeyWait::AwaitingRelease {
        None
    } else {
        lowest_pressed(kb.keys)
    };
    let halt = if found is Some {
        found->0 as usize
    } else {
        kb.halt_key
    };
    let lifting = found is Some || s.key_wait == KeyWait::AwaitingRelease;
    let released = lifting && !key_down(kb.keys, halt as int);
    let still_lifting = lifting && !released;
    let vx = if released {
        halt_code(halt)
    } else {
        s.registers[x]
    };
    let pressing = vx != halt_code(halt);
    let wait = if still_lifting {
        KeyWait::AwaitingRelease
    } else if pressing {
        KeyWait::AwaitingPress
    } else {
        KeyWait::Idle
    };
    let pc = if still_lifting || pressing {
        s.pc as int
    } else {
        s.pc + 2
    };
    (
        Chip8State { registers: s.registers.update(x, vx), key_wait: wait, pc: pc as u16, ..s },
        KeyboardState { halt_key: halt, ..kb },
    )
}

/// `FX55`: `V0..=VX` stored from `index` on.
pub open spec fn stored(memory: Seq<u8>, registers: Seq<u8>, index: int, x: int) -> Seq<u8> {
    Seq::new(
        memory.len(),
        |a: int|
            if index <= a <= index + x {
                registers[a - index]
            } else {
                memory[a]
            },
    )
}

/// `FX65`: `V0..=VX` loaded from `index` on.
pub open spec fn loaded(registers: Seq<u8>, memory: Seq<u8>, index: int, x: int) -> Seq<u8> {
    Seq::new(
        registers.len(),
        |r: int|
            if r <= x {
                memory[index + r]
            } else {
                registers[r]
            },
    )
}

/// The `FXNN` instructions, by their low byte.
pub open spec fn misc(s: Chip8State, kb: KeyboardState, x: int, nn: u8) -> (
    Chip8State,
    KeyboardState,
) {
    let vx = s.registers[x];
    let next = s.pc + 2;
    if nn == 0x0A {
        wait_for_key(s, kb, x)
    } else {
        let t = if nn == 0x07 {
            with_reg(s, x, s.delay_timer)
        } else if nn == 0x15 {
            Chip8State { delay_timer: vx, ..s }
        } else if nn == 0x18 {
            Chip8State { sound_timer: vx, ..s }
        } else if nn == 0x1E {
            Chip8State { index: ((s.index as int + vx as int) % 0x10000) as u16, ..s }
        } else if nn == 0x29 {
            if vx as int * 5 <= 255 {
                Chip8State { index: (vx as int * 5) as u16, ..s }
            } else {
                s
            }
        } else if nn == 0x33 {
            if s.index as int + 2 < MEMORY_SIZE {
                Chip8State {
                    memory: s.memory.update(s.index as int, vx / 100).update(
                        s.index as int + 1,
                        (vx / 10) % 10,
                    ).update(s.index as int + 2, vx % 10),
                    ..s
                }
            } else {
                s
            }
        } else if nn == 0x55 {
            if s.index as int + x < MEMORY_SIZE {
                Chip8State { memory: stored(s.memory, s.registers, s.index as int, x), ..s }
            } else {
                s
            }
        } else if nn == 0x65 {
            if s.index as int + x < MEMORY_SIZE {
                Chip8State { registers: loaded(s.registers, s.memory, s.index as int, x), ..s }
            } else {
                s
            }
        } else {
            s
        };
        (with_pc(t, next), kb)
    }
}

/// One instruction, made of bytes `hi` and `lo`, executed on `s` with input
/// `kb`; `rnd` is the random byte that `CXNN` uses. Unless the instruction
/// moves it otherwise, the program counter then stands on the next one.
pub open spec fn execute(s: Chip8State, kb: KeyboardState, hi: u8, lo: u8, rnd: u8) -> (
    Chip8State,
    KeyboardState,
) {
    let op = hi / 16;
    let x = (hi % 16) as int;
    let y = (lo / 16) as int;
    let n = lo % 16;
    let nnn = (hi % 16) as int * 256 + lo as int;
    let vx = s.registers[x];
    let vy = s.registers[y];
    let next = s.pc + 2;
    let skip = s.pc + 4;
    if op == 0x0 {
        if hi == 0 && lo == 0xE0 && framebuffer_built(s) {
            (Chip8State { vram: blank_vram(), vram_changed: true, pc: next as u16, ..s }, kb)
        } else if hi == 0 && lo == 0xEE {
            (
                Chip8State {
                    stack: s.stack.drop_last(),
                    pc: (s.stack.last() + 2) as u16,
                    ..s
                },
                kb,
            )
        } else {
            (with_pc(s, next), kb)
        }
    } else if op == 0x1 {
        (with_pc(s, nnn), kb)
    } else if op == 0x2 {
        (Chip8State { stack: s.stack.push(s.pc), pc: nnn as u16, ..s }, kb)
    } else if op == 0x3 {
        (with_pc(s, if vx == lo { skip } else { next }), kb)
    } else if op == 0x4 {
        (with_pc(s, if vx != lo { skip } else { next }), kb)
    } else if op == 0x5 && n == 0 {
        (with_pc(s, if vx == vy { skip } else { next }), kb)
    } else if op == 0x6 {
        (with_pc(with_reg(s, x, lo), next), kb)
    } else if op == 0x7 {
        (with_pc(with_reg(s, x, ((vx as int + lo as int) % 256) as u8), next), kb)
    } else if op == 0x8 {
        match alu(vx, vy, n) {
            Some((v, None)) => (with_pc(with_reg(s, x, v), next), kb),
            Some((v, Some(f))) => (
                with_pc(with_reg(with_reg(s, x, v), FLAG_REGISTER as int, f), next),
                kb,
            ),
            None => (with_pc(s, next), kb),
        }
    } else if op == 0x9 && n == 0 {
        (with_pc(s, if vx != vy { skip } else { next }), kb)
    } else if op == 0xA {
        (Chip8State { index: nnn as u16, pc: next as u16, ..s }, kb)
    } else if op == 0xB {
        (with_pc(s, s.registers[0] as int + nnn + 2), kb)
    } else if op == 0xC {
        (with_pc(with_reg(s, x, rnd & lo), next), kb)
    } else if op == 0xD {
        (draw(s, x, y, n), kb)
    } else if op == 0xE && lo == 0x9E {
        (with_pc(s, if key_down(kb.keys, vx as int) { skip } else { next }), kb)
    } else if op == 0xE && lo == 0xA1 {
        (with_pc(s, if vx < KEY_COUNT && !kb.keys[vx as int] { skip } else { next }), kb)
    } else if op == 0xF {
        misc(s, kb, x, lo)
    } else {
        (with_pc(s, next), kb)
    }
}

/// Whether the instruction made of bytes `hi` and `lo` is one of the
/// instruction set; any other only moves the program counter on.
pub open spec fn recognized(hi: u8, lo: u8) -> bool {
    let op = hi / 16;
    let n = lo % 16;
    if op == 0x0 {
        hi == 0 && (lo == 0xE0 || lo == 0xEE)
    } else if op == 0x5 || op == 0x9 {
        n == 0
    } else if op == 0x8 {
        n <= 0x7 || n == 0xE
    } else if op == 0xE {
        lo == 0x9E || lo == 0xA1
    } else if op == 0xF {
        lo == 0x07 || lo == 0x0A || lo == 0x15 || lo == 0x18 || lo == 0x1E || lo == 0x29 || lo
            == 0x33 || lo == 0x55 || lo == 0x65
    } else {
        true
    }
}

/// The machine after one fetch-decode-execute step, when `step_error` is `None`.
pub open spec fn step(s: Chip8State, kb: KeyboardState, rnd: u8) -> (Chip8State, KeyboardState) {
    execute(s, kb, fetch_hi(s), fetch_lo(s), rnd)
}

/// A countdown timer after one tick: down by one, never below zero.
pub open spec fn timer_tick(t: u8) -> u8 {
    if t == 0 {
        0
    } else {
        (t - 1) as u8
    }
}

} // verus!
