use vstd::prelude::*;
use crate::keyboard::Keyboard;
use crate::model::{
    alu, blank_vram, collides, draw, drawn, execute, fetch_hi, fetch_lo, font, framebuffer_built,
    loaded, misc, recognized, sprite_col, sprite_hit,
    sprite_row, step, step_error, stored, timer_tick, valid, wait_for_key, with_reg, word,
    Chip8State,
    KeyWait, StepError, FLAG_REGISTER, FONT_SIZE, MEMORY_SIZE, PROGRAM_START, REGISTER_COUNT,
    SCREEN_HEIGHT, SCREEN_WIDTH,
};
use crate::pixel::Pixel;

verus! {

/// Why the framebuffer could not be set up for a window, or a ROM not loaded.
#[derive(Clone, Copy, Debug, PartialEq, Eq, Structural)]
pub enum SetupError {
    /// The window height is not a multiple of the logical height.
    HeightNotMultiple { height: u32 },
    /// The window width is not a multiple of the logical width.
    WidthNotMultiple { width: u32 },
    /// Width and height give different scale factors.
    ScaleMismatch { width_scale: u32, height_scale: u32 },
    /// The ROM does not fit between the program start and the end of memory.
    RomTooLarge { size: usize },
}

/// Memory with the font written at its start.
pub open spec fn with_font(memory: Seq<u8>) -> Seq<u8> {
    Seq::new(
        memory.len(),
        |a: int|
            if a < FONT_SIZE {
                font()[a]
            } else {
                memory[a]
            },
    )
}

/// Memory with `rom` written from the program start on.
pub open spec fn with_rom(memory: Seq<u8>, rom: Seq<u8>) -> Seq<u8> {
    Seq::new(
        memory.len(),
        |a: int|
            if PROGRAM_START <= a < PROGRAM_START + rom.len() {
                rom[a - PROGRAM_START]
            } else {
                memory[a]
            },
    )
}

/// The machine as constructed: font loaded, everything else zero, the
/// program counter at the program start, no framebuffer yet, scale 1.
pub open spec fn initial_state() -> Chip8State {
    Chip8State {
        memory: with_font(Seq::new(MEMORY_SIZE as nat, |a: int| 0u8)),
        registers: Seq::new(REGISTER_COUNT as nat, |r: int| 0u8),
        index: 0,
        stack: Seq::empty(),
        pc: PROGRAM_START,
        delay_timer: 0,
        sound_timer: 0,
        vram: Seq::empty(),
        vram_changed: false,
        vram_scale: 1,
        key_wait: KeyWait::Idle,
    }
}

/// The on/off view of rows of pixels.
pub open spec fn cells(rows: Seq<Vec<Pixel>>) -> Seq<Seq<bool>> {
    Seq::new(rows.len(), |y: int| Seq::new(rows[y]@.len(), |x: int| rows[y]@[x].on))
}

/// Rows of pixels that form a framebuffer, each pixel at its own position.
pub open spec fn grid_wf(rows: Seq<Vec<Pixel>>) -> bool {
    &&& rows.len() == SCREEN_HEIGHT
    &&& forall|y: int| 0 <= y < SCREEN_HEIGHT ==> #[trigger] rows[y]@.len() == SCREEN_WIDTH
    &&& forall|y: int, x: int|
        0 <= y < SCREEN_HEIGHT && 0 <= x < SCREEN_WIDTH ==> (#[trigger] rows[y]@[x]).x == x
            && rows[y]@[x].y == y
}

/// The CHIP-8 interpreter: memory, registers, stack, timers and framebuffer.
pub struct Chip8 {
    memory: [u8; 4096],
    registers: [u8; 16],
    index_register: u16,
    stack: Vec<u16>,
    program_counter: u16,
    delay_timer: u8,
    sound_timer: u8,
    vram: Vec<Vec<Pixel>>,
    vram_changed: bool,
    vram_scale: usize,
    key_wait: KeyWait,
}

impl View for Chip8 {
    type V = Chip8State;

    closed spec fn view(&self) -> Chip8State {
        Chip8State {
            memory: self.memory@,
            registers: self.registers@,
            index: self.index_register,
            stack: self.stack@,
            pc: self.program_counter,
            delay_timer: self.delay_timer,
            sound_timer: self.sound_timer,
            vram: cells(self.vram@),
            vram_changed: self.vram_changed,
            vram_scale: self.vram_scale,
            key_wait: self.key_wait,
        }
    }
}

/// A blank framebuffer.
fn blank_rows() -> (r: Vec<Vec<Pixel>>)
    ensures
        grid_wf(r@),
        cells(r@) == blank_vram(),
{
    let mut rows: Vec<Vec<Pixel>> = Vec::new();
    let mut y: u32 = 0;
    while y < SCREEN_HEIGHT
        invariant
            y <= SCREEN_HEIGHT,
            rows@.len() == y,
            forall|j: int| 0 <= j < y ==> #[trigger] rows@[j]@.len() == SCREEN_WIDTH,
            forall|j: int, i: int|
                0 <= j < y && 0 <= i < SCREEN_WIDTH ==> (#[trigger] rows@[j]@[i]).x == i
                    && rows@[j]@[i].y == j && !rows@[j]@[i].on,
        decreases SCREEN_HEIGHT - y,
    {
        let mut row: Vec<Pixel> = Vec::new();
        let mut x: u32 = 0;
        while x < SCREEN_WIDTH
            invariant
                x <= SCREEN_WIDTH,
                row@.len() == x,
                forall|i: int|
                    0 <= i < x ==> (#[trigger] row@[i]).x == i && row@[i].y == y && !row@[i].on,
            decreases SCREEN_WIDTH - x,
        {
            row.push(Pixel::new(x, y, false));
            x = x + 1;
        }
        rows.push(row);
        y = y + 1;
    }
    assert(cells(rows@) =~~= blank_vram());
    rows
}

impl Chip8 {
    /// Internal consistency: the framebuffer is not built yet or has its
    /// fixed shape, and every return address is one that an instruction was
    /// fetched from.
    pub closed spec fn wf(&self) -> bool {
        &&& (grid_wf(self.vram@) || self.vram@.len() == 0)
        &&& forall|i: int| 0 <= i < self.stack@.len() ==> #[trigger] self.stack@[i] < MEMORY_SIZE
    }

    /// A well-formed machine has the shape of the model: 16 registers, 4096
    /// bytes of memory, and a framebuffer that is empty or 32 rows of 64 cells.
    pub proof fn lemma_wf_valid(&self)
        requires
            self.wf(),
        ensures
            valid(self@),
    {
        assert forall|y: int| 0 <= y < self@.vram.len() implies #[trigger] self@.vram[y].len()
            == SCREEN_WIDTH by {
            assert(self.vram@[y]@.len() == SCREEN_WIDTH);
        }
    }

    pub fn new() -> (r: Chip8)
        ensures
            r.wf(),
            r@ == initial_state(),
    {
        let mut chip8 = Chip8 {
            memory: [0; 4096],
            registers: [0; 16],
            index_register: 0,
            stack: Vec::new(),
            program_counter: PROGRAM_START,
            delay_timer: 0,
            sound_timer: 0,
            vram: Vec::new(),
            vram_changed: false,
            vram_scale: 1,
            key_wait: KeyWait::Idle,
        };
        assert(cells(chip8.vram@) =~= Seq::<Seq<bool>>::empty());
        chip8.load_sprites_into_memory();
        proof {
            assert(chip8.registers@ =~= Seq::new(REGISTER_COUNT as nat, |r: int| 0u8));
            assert(chip8.memory@ =~= initial_state().memory);
            assert(chip8@.vram =~= Seq::<Seq<bool>>::empty());
        }
        chip8
    }

    /// Writes the built-in font to the start of memory.
    pub fn load_sprites_into_memory(&mut self)
        ensures
            final(self)@ == (Chip8State { memory: with_font(old(self)@.memory), ..old(self)@ }),
            final(self).wf() == old(self).wf(),
    {
        let built_in_sprites: [u8; 80] = [
            0xF0, 0x90, 0x90, 0x90, 0xF0,  // 0
            0x20, 0x60, 0x20, 0x20, 0x70,  // 1
            0xF0, 0x10, 0xF0, 0x80, 0xF0,  // 2
            0xF0, 0x10, 0xF0, 0x10, 0xF0,  // 3
            0x90, 0x90, 0xF0, 0x10, 0x10,  // 4
            0xF0, 0x80, 0xF0, 0x10, 0xF0,  // 5
            0xF0, 0x80, 0xF0, 0x90, 0xF0,  // 6
            0xF0, 0x10, 0x20, 0x40, 0x40,  // 7
            0xF0, 0x90, 0xF0, 0x90, 0xF0,  // 8
            0xF0, 0x90, 0xF0, 0x10, 0xF0,  // 9
            0xF0, 0x90, 0xF0, 0x90, 0x90,  // A
            0xE0, 0x90, 0xE0, 0x90, 0xE0,  // B
            0xF0, 0x80, 0x80, 0x80, 0xF0,  // C
            0xE0, 0x90, 0x90, 0x90, 0xE0,  // D
            0xF0, 0x80, 0xF0, 0x80, 0xF0,  // E
            0xF0, 0x80, 0xF0, 0x80, 0x80,  // F
        ];
        assert(built_in_sprites@ =~= font());
        let mut i: usize = 0;
        while i < FONT_SIZE
            invariant
                i <= FONT_SIZE,
                built_in_sprites@ == font(),
                self.memory@.len() == MEMORY_SIZE,
                forall|a: int|
                    0 <= a < MEMORY_SIZE ==> #[trigger] self.memory@[a] == if a < i {
                        font()[a]
                    } else {
                        old(self).memory@[a]
                    },
                self.vram == old(self).vram,
                self.registers == old(self).registers,
                self.stack == old(self).stack,
                self.index_register == old(self).index_register,
                self.program_counter == old(self).program_counter,
                self.delay_timer == old(self).delay_timer,
                self.sound_timer == old(self).sound_timer,
                self.vram_changed == old(self).vram_changed,
                self.vram_scale == old(self).vram_scale,
                self.key_wait == old(self).key_wait,
            decreases FONT_SIZE - i,
        {
            self.memory[i] = built_in_sprites[i];
            i = i + 1;
        }
        assert(self.memory@ =~= with_font(old(self)@.memory));
    }

    /// Copies `rom` into memory from the program start on; a ROM longer than
    /// the space from there to the end of memory is refused.
    pub fn load_rom(&mut self, rom: &Vec<u8>) -> (r: Result<(), SetupError>)
        ensures
            final(self).wf() == old(self).wf(),
            r == if rom@.len() + PROGRAM_START <= MEMORY_SIZE {
                Ok::<(), SetupError>(())
            } else {
                Err(SetupError::RomTooLarge { size: rom@.len() as usize })
            },
            r is Ok ==> final(self)@ == (Chip8State {
                memory: with_rom(old(self)@.memory, rom@),
                ..old(self)@
            }),
            r is Err ==> final(self)@ == old(self)@,
    {
        if rom.len() > MEMORY_SIZE - PROGRAM_START as usize {
            return Err(SetupError::RomTooLarge { size: rom.len() });
        }
        let start = PROGRAM_START as usize;
        let mut i: usize = 0;
        while i < rom.len()
            invariant
                i <= rom@.len(),
                rom@.len() + PROGRAM_START <= MEMORY_SIZE,
                start == PROGRAM_START,
                self.memory@.len() == MEMORY_SIZE,
                forall|a: int|
                    0 <= a < MEMORY_SIZE ==> #[trigger] self.memory@[a] == if PROGRAM_START <= a
                        < PROGRAM_START + i {
                        rom@[a - PROGRAM_START]
                    } else {
                        old(self).memory@[a]
                    },
                self.vram == old(self).vram,
                self.registers == old(self).registers,
                self.stack == old(self).stack,
                self.index_register == old(self).index_register,
                self.program_counter == old(self).program_counter,
                self.delay_timer == old(self).delay_timer,
                self.sound_timer == old(self).sound_timer,
                self.vram_changed == old(self).vram_changed,
                self.vram_scale == old(self).vram_scale,
                self.key_wait == old(self).key_wait,
            decreases rom@.len() - i,
        {
            self.memory[start + i] = rom[i];
            i = i + 1;
        }
        assert(self.memory@ =~= with_rom(old(self)@.memory, rom@));
        Ok(())
    }

    /// Sets the scale from the host window's size, in physical pixels, and
    /// builds a blank framebuffer. Both sides must be multiples of the logical
    /// size, with the same factor.
    pub fn initialize_pixels(&mut self, height: u32, width: u32) -> (r: Result<(), SetupError>)
        requires
            old(self).wf(),
        ensures
            final(self).wf(),
            r == if height % SCREEN_HEIGHT != 0 {
                Err(SetupError::HeightNotMultiple { height })
            } else if width % SCREEN_WIDTH != 0 {
                Err(SetupError::WidthNotMultiple { width })
            } else if height / SCREEN_HEIGHT != width / SCREEN_WIDTH {
                Err(
                    SetupError::ScaleMismatch {
                        width_scale: width / SCREEN_WIDTH,
                        height_scale: height / SCREEN_HEIGHT,
                    },
                )
            } else {
                Ok::<(), SetupError>(())
            },
            r is Ok ==> final(self)@ == (Chip8State {
                vram: blank_vram(),
                vram_scale: (height / SCREEN_HEIGHT) as usize,
                ..old(self)@
            }),
            r is Err ==> final(self)@ == old(self)@,
    {
        if height % SCREEN_HEIGHT != 0 {
            return Err(SetupError::HeightNotMultiple { height });
        }
        if width % SCREEN_WIDTH != 0 {
            return Err(SetupError::WidthNotMultiple { width });
        }
        let height_scale = height / SCREEN_HEIGHT;
        let width_scale = width / SCREEN_WIDTH;
        if height_scale != width_scale {
            return Err(SetupError::ScaleMismatch { width_scale, height_scale });
        }
        self.vram_scale = height_scale as usize;
        self.vram = blank_rows();
        Ok(())
    }

    /// Sets register `V[register]`.
    pub fn set_register_value(&mut self, register: u8, value: u8)
        requires
            register < REGISTER_COUNT,
        ensures
            final(self)@ == with_reg(old(self)@, register as int, value),
            final(self).wf() == old(self).wf(),
    {
        self.registers[register as usize] = value;
    }

    /// Register `V[register]`.
    pub fn get_register_value(&self, register: u8) -> (r: u8)
        requires
            register < REGISTER_COUNT,
        ensures
            r == self@.registers[register as int],
    {
        self.registers[register as usize]
    }

    /// One tick of the sound timer: down by one, not below zero.
    pub fn decrement_sound_timer(&mut self)
        ensures
            final(self)@ == (Chip8State {
                sound_timer: timer_tick(old(self)@.sound_timer),
                ..old(self)@
            }),
            final(self).wf() == old(self).wf(),
    {
        if self.sound_timer != 0 {
            self.sound_timer = self.sound_timer - 1;
        }
    }

    pub fn get_sound_timer(&self) -> (r: u8)
        ensures
            r == self@.sound_timer,
    {
        self.sound_timer
    }

    /// Whether a tone should be playing: the sound timer is non-zero.
    pub fn play_sound(&self) -> (r: bool)
        ensures
            r == (self@.sound_timer != 0),
    {
        self.sound_timer != 0
    }

    /// One tick of the delay timer: down by one, not below zero.
    pub fn decrement_delay_timer(&mut self)
        ensures
            final(self)@ == (Chip8State {
                delay_timer: timer_tick(old(self)@.delay_timer),
                ..old(self)@
            }),
            final(self).wf() == old(self).wf(),
    {
        if self.delay_timer != 0 {
            self.delay_timer = self.delay_timer - 1;
        }
    }

    pub fn get_delay_timer(&self) -> (r: u8)
        ensures
            r == self@.delay_timer,
    {
        self.delay_timer
    }

    pub fn get_program_counter(&self) -> (r: u16)
        ensures
            r == self@.pc,
    {
        self.program_counter
    }

    pub fn get_index_register(&self) -> (r: u16)
        ensures
            r == self@.index,
    {
        self.index_register
    }

    /// The byte at `address`.
    pub fn get_memory_value(&self, address: usize) -> (r: u8)
        requires
            address < MEMORY_SIZE,
        ensures
            r == self@.memory[address as int],
    {
        self.memory[address]
    }

    /// Depth of the call stack.
    pub fn stack_depth(&self) -> (r: usize)
        ensures
            r == self@.stack.len(),
    {
        self.stack.len()
    }

    pub fn get_key_wait(&self) -> (r: KeyWait)
        ensures
            r == self@.key_wait,
    {
        self.key_wait
    }

    /// Whether cell `(x, y)` is on.
    pub fn is_pixel_on(&self, x: usize, y: usize) -> (r: bool)
        requires
            self.wf(),
            framebuffer_built(self@),
            x < SCREEN_WIDTH,
            y < SCREEN_HEIGHT,
        ensures
            r == self@.vram[y as int][x as int],
    {
        self.vram[y][x].on
    }

    /// The framebuffer's rows of pixels, for a renderer; none before it is built.
    pub fn vram(&self) -> (r: &Vec<Vec<Pixel>>)
        requires
            self.wf(),
        ensures
            grid_wf(r@) || r@.len() == 0,
            cells(r@) == self@.vram,
    {
        &self.vram
    }

    /// How many physical pixels each logical cell spans on each axis.
    pub fn vram_scale(&self) -> (r: usize)
        ensures
            r == self@.vram_scale,
    {
        self.vram_scale
    }

    /// Whether the framebuffer changed since it was last rendered.
    pub fn vram_changed(&self) -> (r: bool)
        ensures
            r == self@.vram_changed,
    {
        self.vram_changed
    }

    /// Records that the framebuffer has been rendered.
    pub fn mark_vram_rendered(&mut self)
        ensures
            final(self)@ == (Chip8State { vram_changed: false, ..old(self)@ }),
            final(self).wf() == old(self).wf(),
    {
        self.vram_changed = false;
    }

    /// The instruction word at the program counter, when both its bytes lie
    /// in memory.
    pub fn next_instruction(&self) -> (r: Option<u16>)
        ensures
            r == if self@.pc + 1 < MEMORY_SIZE {
                Some(word(fetch_hi(self@), fetch_lo(self@)))
            } else {
                None::<u16>
            },
    {
        let pc = self.program_counter as usize;
        if pc + 1 < MEMORY_SIZE {
            Some(Chip8::decode(self.memory[pc], self.memory[pc + 1]))
        } else {
            None
        }
    }

    /// Whether `instruction` is one of the instruction set; any other is
    /// executed by only moving the program counter on.
    pub fn is_recognized_instruction(instruction: u16) -> (r: bool)
        ensures
            r == recognized((instruction / 256) as u8, (instruction % 256) as u8),
    {
        let hi = (instruction / 256) as u8;
        let lo = (instruction % 256) as u8;
        let op = hi / 16;
        let n = lo % 16;
        if op == 0x0 {
            hi == 0 && (lo == 0xE0 || lo == 0xEE)
        } else if op == 0x5 || op == 0x9 {
            n == 0
        } else if op == 0x8 {
            n <= 0x7 || n == 0xE
        } else if op == 0xE {
            lo == 0x9E || lo == 0xA1
        } else if op == 0xF {
            lo == 0x07 || lo == 0x0A || lo == 0x15 || lo == 0x18 || lo == 0x1E || lo == 0x29 || lo
                == 0x33 || lo == 0x55 || lo == 0x65
        } else {
            true
        }
    }

    /// The instruction word made of two bytes, the first one high.
    pub fn decode(left_byte: u8, right_byte: u8) -> (r: u16)
        ensures
            r == word(left_byte, right_byte),
    {
        let left_byte = left_byte as u16;
        let right_byte = right_byte as u16;
        assert((left_byte << 8u16) | right_byte == left_byte * 256 + right_byte) by (bit_vector)
            requires
                left_byte < 256,
                right_byte < 256,
        ;
        (left_byte << 8) | right_byte
    }
}


/// The position arithmetic of wrapped drawing on one axis of length `m`:
/// offset `k` from `v` lands on `(v + k) % m`, and only offset `k` does.
proof fn lemma_wrap(v: int, k: int, c: int, m: int)
    requires
        m == 32 || m == 64,
        0 <= v,
        0 <= k < m,
        0 <= c < m,
    ensures
        ((v + k) % m + m - v % m) % m == k,
        (c + m - v % m) % m == k ==> c == (v + k) % m,
{
    let q = v / m;
    let r = v % m;
    assert(v == m * q + r && 0 <= r < m) by (nonlinear_arith)
        requires
            m > 0,
            q == v / m,
            r == v % m,
    ;
    assert((v + k) % m == if r + k < m { r + k } else { r + k - m }) by (nonlinear_arith)
        requires
            v == m * q + r,
            0 <= r < m,
            0 <= k < m,
            m > 0,
    ;
    assert((c + m - r) % m == if c >= r { c - r } else { c + m - r }) by (nonlinear_arith)
        requires
            0 <= r < m,
            0 <= c < m,
            m > 0,
    ;
    assert(((v + k) % m + m - r) % m == k) by (nonlinear_arith)
        requires
            (v + k) % m == if r + k < m { r + k } else { r + k - m },
            0 <= r < m,
            0 <= k < m,
            m > 0,
    ;
}

/// Offset `k` from `v` lands on row `(v + k) % 32`, and only offset `k` does.
proof fn lemma_wrap_rows(v: u8, k: int, c: int)
    requires
        0 <= k < 32,
        0 <= c < 32,
    ensures
        sprite_row((v + k) % 32, v) == k,
        sprite_row(c, v) == k ==> c == (v + k) % 32,
{
    lemma_wrap(v as int, k, c, 32);
}

/// Offset `k` from `v` lands on column `(v + k) % 64`, and only offset `k` does.
proof fn lemma_wrap_cols(v: u8, k: int, c: int)
    requires
        0 <= k < 64,
        0 <= c < 64,
    ensures
        sprite_col((v + k) % 64, v) == k,
        sprite_col(c, v) == k ==> c == (v + k) % 64,
{
    lemma_wrap(v as int, k, c, 64);
}

impl Chip8 {
    /// `8XYN` on the registers; the program counter is left alone.
    fn exec_alu(&mut self, x: usize, y: usize, n: u8)
        requires
            x < REGISTER_COUNT,
            y < REGISTER_COUNT,
        ensures
            final(self).wf() == old(self).wf(),
            final(self)@ == match alu(old(self)@.registers[x as int], old(self)@.registers[y as int], n) {
                Some((v, None)) => with_reg(old(self)@, x as int, v),
                Some((v, Some(f))) => with_reg(with_reg(old(self)@, x as int, v), FLAG_REGISTER as int, f),
                None => old(self)@,
            },
    {
        let vx = self.registers[x];
        let vy = self.registers[y];
        if n == 0x0 {
            self.registers[x] = vy;
        } else if n == 0x1 {
            self.registers[x] = vx | vy;
        } else if n == 0x2 {
            self.registers[x] = vx & vy;
        } else if n == 0x3 {
            self.registers[x] = vx ^ vy;
        } else if n == 0x4 {
            match vx.checked_add(vy) {
                Some(sum) => {
                    self.registers[x] = sum;
                    self.registers[FLAG_REGISTER] = 0;
                },
                None => {
                    self.registers[x] = vx.wrapping_add(vy);
                    self.registers[FLAG_REGISTER] = 1;
                },
            }
        } else if n == 0x5 {
            match vx.checked_sub(vy) {
                Some(difference) => {
                    self.registers[x] = difference;
                    self.registers[FLAG_REGISTER] = 1;
                },
                None => {
                    self.registers[x] = vx.wrapping_sub(vy);
                    self.registers[FLAG_REGISTER] = 0;
                },
            }
        } else if n == 0x6 {
            let least_sig_bit = vx & 0x01;
            assert(least_sig_bit == vx % 2 && vx >> 1u8 == vx / 2) by (bit_vector)
                requires
                    least_sig_bit == vx & 0x01,
            ;
            self.registers[x] = vx >> 1;
            self.registers[FLAG_REGISTER] = least_sig_bit;
        } else if n == 0x7 {
            match vy.checked_sub(vx) {
                Some(difference) => {
                    self.registers[x] = difference;
                    self.registers[FLAG_REGISTER] = 1;
                },
                None => {
                    self.registers[x] = vy.wrapping_sub(vx);
                    self.registers[FLAG_REGISTER] = 0;
                },
            }
        } else if n == 0xE {
            let most_sig_bit = (vx & 0x80) >> 7;
            assert(most_sig_bit == vx / 128 && (vx << 1u8) as u16 == (vx as u16 * 2) % 256)
                by (bit_vector)
                requires
                    most_sig_bit == (vx & 0x80) >> 7u8,
            ;
            self.registers[x] = vx << 1;
            self.registers[FLAG_REGISTER] = most_sig_bit;
        }
    }

    /// One step of `FX0A`.
    fn exec_key_wait(&mut self, keyboard: &mut Keyboard, x: usize)
        requires
            x < REGISTER_COUNT,
            old(self)@.pc + 1 < MEMORY_SIZE,
        ensures
            final(self).wf() == old(self).wf(),
            (final(self)@, final(keyboard)@) == wait_for_key(old(self)@, old(keyboard)@, x as int),
    {
        let mut lifting = self.key_wait == KeyWait::AwaitingRelease;
        let found = if lifting {
            None
        } else {
            keyboard.lowest_pressed_key()
        };
        if let Some(key) = found {
            keyboard.set_halt_key(key as u8);
            lifting = true;
        }
        let halt = keyboard.get_halt_key();
        let released = lifting && !keyboard.is_pressed(halt);
        let code = (halt % 256) as u8;
        if released {
            self.registers[x] = code;
        }
        let still_lifting = lifting && !released;
        let pressing = self.registers[x] != code;
        self.key_wait = if still_lifting {
            KeyWait::AwaitingRelease
        } else if pressing {
            KeyWait::AwaitingPress
        } else {
            KeyWait::Idle
        };
        if !(still_lifting || pressing) {
            self.program_counter = self.program_counter + 2;
        }
        proof {
            let (s2, k2) = wait_for_key(old(self)@, old(keyboard)@, x as int);
            assert(self.registers@ =~= s2.registers);
            assert(keyboard@.keys =~= k2.keys);
        }
    }

    /// `FX55`: `V0..=VX` to memory from the index on, when that fits.
    fn exec_store(&mut self, x: usize)
        requires
            x < REGISTER_COUNT,
            old(self)@.index as int + x < MEMORY_SIZE,
        ensures
            final(self).wf() == old(self).wf(),
            final(self)@ == (Chip8State {
                memory: stored(old(self)@.memory, old(self)@.registers, old(self)@.index as int, x as int),
                ..old(self)@
            }),
    {
        let i = self.index_register as usize;
        let mut r: usize = 0;
        while r <= x
            invariant
                r <= x + 1,
                x < REGISTER_COUNT,
                i == old(self).index_register,
                i + x < MEMORY_SIZE,
                self.memory@.len() == MEMORY_SIZE,
                forall|a: int|
                    0 <= a < MEMORY_SIZE ==> #[trigger] self.memory@[a] == if i <= a < i + r {
                        self.registers@[a - i]
                    } else {
                        old(self).memory@[a]
                    },
                self.vram == old(self).vram,
                self.registers == old(self).registers,
                self.stack == old(self).stack,
                self.index_register == old(self).index_register,
                self.program_counter == old(self).program_counter,
                self.delay_timer == old(self).delay_timer,
                self.sound_timer == old(self).sound_timer,
                self.vram_changed == old(self).vram_changed,
                self.vram_scale == old(self).vram_scale,
                self.key_wait == old(self).key_wait,
            decreases x + 1 - r,
        {
            self.memory[i + r] = self.registers[r];
            r = r + 1;
        }
        assert(self.memory@ =~= stored(old(self)@.memory, old(self)@.registers, i as int, x as int));
    }

    /// `FX65`: `V0..=VX` from memory from the index on, when that fits.
    fn exec_load(&mut self, x: usize)
        requires
            x < REGISTER_COUNT,
            old(self)@.index as int + x < MEMORY_SIZE,
        ensures
            final(self).wf() == old(self).wf(),
            final(self)@ == (Chip8State {
                registers: loaded(old(self)@.registers, old(self)@.memory, old(self)@.index as int, x as int),
                ..old(self)@
            }),
    {
        let i = self.index_register as usize;
        let mut r: usize = 0;
        while r <= x
            invariant
                r <= x + 1,
                x < REGISTER_COUNT,
                i == old(self).index_register,
                i + x < MEMORY_SIZE,
                self.registers@.len() == REGISTER_COUNT,
                forall|k: int|
                    0 <= k < REGISTER_COUNT ==> #[trigger] self.registers@[k] == if k < r {
                        self.memory@[i + k]
                    } else {
                        old(self).registers@[k]
                    },
                self.vram == old(self).vram,
                self.memory == old(self).memory,
                self.stack == old(self).stack,
                self.index_register == old(self).index_register,
                self.program_counter == old(self).program_counter,
                self.delay_timer == old(self).delay_timer,
                self.sound_timer == old(self).sound_timer,
                self.vram_changed == old(self).vram_changed,
                self.vram_scale == old(self).vram_scale,
                self.key_wait == old(self).key_wait,
            decreases x + 1 - r,
        {
            self.registers[r] = self.memory[i + r];
            r = r + 1;
        }
        assert(self.registers@ =~= loaded(old(self)@.registers, old(self)@.memory, i as int, x as int));
    }

    /// The `FXNN` instructions.
    fn exec_misc(&mut self, keyboard: &mut Keyboard, x: usize, nn: u8)
        requires
            x < REGISTER_COUNT,
            old(self)@.pc + 1 < MEMORY_SIZE,
            old(self).wf(),
        ensures
            final(self).wf(),
            (final(self)@, final(keyboard)@) == misc(old(self)@, old(keyboard)@, x as int, nn),
    {
        let vx = self.registers[x];
        if nn == 0x0A {
            self.exec_key_wait(keyboard, x);
        } else {
            if nn == 0x07 {
                self.registers[x] = self.delay_timer;
            } else if nn == 0x15 {
                self.delay_timer = vx;
            } else if nn == 0x18 {
                self.sound_timer = vx;
            } else if nn == 0x1E {
                self.index_register = self.index_register.wrapping_add(vx as u16);
            } else if nn == 0x29 {
                if let Some(sprite_addr) = vx.checked_mul(5) {
                    self.index_register = sprite_addr as u16;
                }
            } else if nn == 0x33 {
                let hundreds = (vx / 100) % 10;
                let tens = (vx / 10) % 10;
                let ones = vx % 10;
                let index = self.index_register as usize;
                if index + 2 < MEMORY_SIZE {
                    self.memory[index] = hundreds;
                    self.memory[index + 1] = tens;
                    self.memory[index + 2] = ones;
                }
            } else if nn == 0x55 {
                if (self.index_register as usize) + x < MEMORY_SIZE {
                    self.exec_store(x);
                }
            } else if nn == 0x65 {
                if (self.index_register as usize) + x < MEMORY_SIZE {
                    self.exec_load(x);
                }
            }
            self.program_counter = self.program_counter + 2;
        }
    }
}


/// Whether sprite cell `(r, c)` comes before `(row, col)` in drawing order.
pub open spec fn drawn_before(r: int, c: int, row: int, col: int) -> bool {
    r < row || (r == row && c < col)
}

/// A sprite being drawn: its bytes start at `index` in `memory`, it is `n`
/// rows high and its top-left corner is at `(vx, vy)`.
pub struct SpriteAt {
    pub memory: Seq<u8>,
    pub index: u16,
    pub n: u8,
    pub vx: u8,
    pub vy: u8,
}

/// Whether a sprite bit drawn before `(row, col)` hit cell `(cx, cy)`.
pub open spec fn hit_before(sp: SpriteAt, cx: int, cy: int, row: int, col: int) -> bool {
    &&& sprite_hit(sp.memory, sp.index, sp.n, sp.vx, sp.vy, cx, cy)
    &&& drawn_before(sprite_row(cy, sp.vy), sprite_col(cx, sp.vx), row, col)
}

/// Whether a sprite bit drawn before `(row, col)` hit a cell that was on.
pub open spec fn collided_before(vram: Seq<Seq<bool>>, sp: SpriteAt, row: int, col: int) -> bool {
    exists|cy: int, cx: int|
        0 <= cy < SCREEN_HEIGHT && 0 <= cx < SCREEN_WIDTH && #[trigger] hit_before(sp, cx, cy, row, col)
            && vram[cy][cx]
}

/// The framebuffer part way through drawing: the cells hit before `(row, col)` flipped.
pub open spec fn drawn_so_far(
    rows: Seq<Vec<Pixel>>,
    vram: Seq<Seq<bool>>,
    sp: SpriteAt,
    row: int,
    col: int,
) -> bool {
    forall|cy: int, cx: int|
        0 <= cy < SCREEN_HEIGHT && 0 <= cx < SCREEN_WIDTH ==> (#[trigger] rows[cy]@[cx]).on == (
        vram[cy][cx] != hit_before(sp, cx, cy, row, col))
}

impl Chip8 {
    /// `DXYN`.
    #[verifier::rlimit(60)]
    fn exec_draw(&mut self, x: usize, y: usize, n: u8)
        requires
            old(self).wf(),
            x < REGISTER_COUNT,
            y < REGISTER_COUNT,
            n < 16,
            old(self)@.pc + 1 < MEMORY_SIZE,
        ensures
            final(self).wf(),
            final(self)@ == draw(old(self)@, x as int, y as int, n),
    {
        let index = self.index_register as usize;
        if index + n as usize > MEMORY_SIZE || self.vram.len() == 0 {
            self.program_counter = self.program_counter + 2;
            return;
        }
        self.registers[FLAG_REGISTER] = 0;
        let x_location = self.registers[x];
        let y_location = self.registers[y];
        let ghost regs0 = self.registers@;
        let ghost old_vram = cells(self.vram@);
        let ghost sp = SpriteAt {
            memory: self.memory@,
            index: index as u16,
            n,
            vx: x_location,
            vy: y_location,
        };
        let mut collided = false;
        let mut row: u32 = 0;
        while row < n as u32
            invariant
                row <= n,
                n < 16,
                index + n <= MEMORY_SIZE,
                index == old(self).index_register,
                regs0.len() == REGISTER_COUNT,
                sp.memory == self.memory@,
                sp == (SpriteAt { memory: sp.memory, index: index as u16, n, vx: x_location, vy: y_location }),
                old_vram == cells(old(self).vram@),
                grid_wf(self.vram@),
                grid_wf(old(self).vram@),
                drawn_so_far(self.vram@, old_vram, sp, row as int, 0),
                collided == collided_before(old_vram, sp, row as int, 0),
                self.registers@ == regs0.update(FLAG_REGISTER as int, if collided { 1u8 } else { 0u8 }),
                self.stack == old(self).stack,
                self.index_register == old(self).index_register,
                self.program_counter == old(self).program_counter,
                self.delay_timer == old(self).delay_timer,
                self.sound_timer == old(self).sound_timer,
                self.vram_changed == old(self).vram_changed,
                self.vram_scale == old(self).vram_scale,
                self.key_wait == old(self).key_wait,
            decreases n - row,
        {
            let row_byte = self.memory[index + row as usize];
            let mut col: u32 = 0;
            while col < 8
                invariant
                    row < n,
                    col <= 8,
                    n < 16,
                    index + n <= MEMORY_SIZE,
                    index == old(self).index_register,
                    regs0.len() == REGISTER_COUNT,
                    sp.memory == self.memory@,
                    sp == (SpriteAt { memory: sp.memory, index: index as u16, n, vx: x_location, vy: y_location }),
                    row_byte == sp.memory[index + row],
                    old_vram == cells(old(self).vram@),
                    grid_wf(self.vram@),
                    grid_wf(old(self).vram@),
                    drawn_so_far(self.vram@, old_vram, sp, row as int, col as int),
                    collided == collided_before(old_vram, sp, row as int, col as int),
                    self.registers@ == regs0.update(FLAG_REGISTER as int, if collided { 1u8 } else { 0u8 }),
                    self.stack == old(self).stack,
                    self.index_register == old(self).index_register,
                    self.program_counter == old(self).program_counter,
                    self.delay_timer == old(self).delay_timer,
                    self.sound_timer == old(self).sound_timer,
                    self.vram_changed == old(self).vram_changed,
                    self.vram_scale == old(self).vram_scale,
                    self.key_wait == old(self).key_wait,
                decreases 8 - col,
            {
                let pixel_val = row_byte & (0x80u8 >> (col as u8)) != 0;
                let y_wrapped = ((y_location as u32 + row) % SCREEN_HEIGHT) as usize;
                let x_wrapped = ((x_location as u32 + col) % SCREEN_WIDTH) as usize;
                let ghost before = self.vram@;
                let ghost collided_earlier = collided;
                proof {
                    lemma_wrap_rows(y_location, row as int, 0);
                    lemma_wrap_cols(x_location, col as int, 0);
                    assert(sprite_hit(sp.memory, sp.index, n, x_location, y_location, x_wrapped as int, y_wrapped as int) == pixel_val);
                }
                if pixel_val && self.vram[y_wrapped][x_wrapped].on {
                    self.registers[FLAG_REGISTER] = 1;
                    self.vram[y_wrapped][x_wrapped].turn_off();
                    collided = true;
                } else if pixel_val && !self.vram[y_wrapped][x_wrapped].on {
                    self.vram[y_wrapped][x_wrapped].set(pixel_val);
                }
                proof {
                    // Only the target cell changed, and it is the one sprite cell (row, col) lands on.
                    assert forall|cy: int, cx: int|
                        0 <= cy < SCREEN_HEIGHT && 0 <= cx < SCREEN_WIDTH implies (
                        #[trigger] self.vram@[cy]@[cx]).on == (old_vram[cy][cx] != hit_before(sp, cx, cy, row as int, col + 1))
                        && self.vram@[cy]@[cx].x == cx && self.vram@[cy]@[cx].y == cy by {
                        lemma_wrap_rows(y_location, row as int, cy);
                        lemma_wrap_cols(x_location, col as int, cx);
                        assert(before[cy]@[cx].on == (old_vram[cy][cx] != hit_before(sp, cx, cy, row as int, col as int)));
                    }
                    assert forall|cy: int, cx: int|
                        (0 <= cy < SCREEN_HEIGHT && 0 <= cx < SCREEN_WIDTH && #[trigger] hit_before(sp, cx, cy, row as int, col + 1)
                            && old_vram[cy][cx]) implies (collided_earlier && !(cy == y_wrapped && cx == x_wrapped))
                        || (cy == y_wrapped && cx == x_wrapped) by {
                        lemma_wrap_rows(y_location, row as int, cy);
                        lemma_wrap_cols(x_location, col as int, cx);
                        if !(cy == y_wrapped && cx == x_wrapped) {
                            assert(hit_before(sp, cx, cy, row as int, col as int));
                        }
                    }
                    assert(self.registers@ =~= regs0.update(FLAG_REGISTER as int, if collided { 1u8 } else { 0u8 }));
                    if pixel_val && before[y_wrapped as int]@[x_wrapped as int].on {
                        assert(hit_before(sp, x_wrapped as int, y_wrapped as int, row as int, col + 1));
                    }
                    if collided_earlier {
                        let (wy, wx) = choose|cy: int, cx: int|
                            0 <= cy < SCREEN_HEIGHT && 0 <= cx < SCREEN_WIDTH && #[trigger] hit_before(sp, cx, cy, row as int, col as int)
                                && old_vram[cy][cx];
                        assert(hit_before(sp, wx, wy, row as int, col + 1));
                    }
                }
                col = col + 1;
            }
            proof {
                // Finishing a row is starting the next one.
                assert forall|cy: int, cx: int|
                    0 <= cy < SCREEN_HEIGHT && 0 <= cx < SCREEN_WIDTH implies #[trigger] hit_before(sp, cx, cy, row as int, 8)
                        == hit_before(sp, cx, cy, row + 1, 0) by {
                }
                if collided {
                    let (wy, wx) = choose|cy: int, cx: int|
                        0 <= cy < SCREEN_HEIGHT && 0 <= cx < SCREEN_WIDTH && #[trigger] hit_before(sp, cx, cy, row as int, 8)
                            && old_vram[cy][cx];
                    assert(hit_before(sp, wx, wy, row + 1, 0));
                }
                if collided_before(old_vram, sp, row + 1, 0) {
                    let (wy, wx) = choose|cy: int, cx: int|
                        0 <= cy < SCREEN_HEIGHT && 0 <= cx < SCREEN_WIDTH && #[trigger] hit_before(sp, cx, cy, row + 1, 0)
                            && old_vram[cy][cx];
                    assert(hit_before(sp, wx, wy, row as int, 8));
                }
            }
            row = row + 1;
        }
        proof {
            assert forall|cy: int, cx: int|
                0 <= cy < SCREEN_HEIGHT && 0 <= cx < SCREEN_WIDTH implies #[trigger] hit_before(sp, cx, cy, n as int, 0)
                    == sprite_hit(sp.memory, sp.index, n, x_location, y_location, cx, cy) by {
            }
            assert(cells(self.vram@) =~~= drawn(old_vram, sp.memory, sp.index, n, x_location, y_location));
            assert(collided == collides(old_vram, sp.memory, sp.index, n, x_location, y_location)) by {
                if collided {
                    let (wy, wx) = choose|cy: int, cx: int|
                        0 <= cy < SCREEN_HEIGHT && 0 <= cx < SCREEN_WIDTH && #[trigger] hit_before(sp, cx, cy, n as int, 0)
                            && old_vram[cy][cx];
                    assert(sprite_hit(sp.memory, sp.index, n, x_location, y_location, wx, wy));
                }
                if collides(old_vram, sp.memory, sp.index, n, x_location, y_location) {
                    let (wx, wy) = choose|cx: int, cy: int|
                        0 <= cx < SCREEN_WIDTH && 0 <= cy < SCREEN_HEIGHT && #[trigger] sprite_hit(
                            sp.memory,
                            sp.index,
                            n,
                            x_location,
                            y_location,
                            cx,
                            cy,
                        ) && old_vram[cy][cx];
                    assert(hit_before(sp, wx, wy, n as int, 0));
                }
            }
        }
        self.vram_changed = true;
        self.program_counter = self.program_counter + 2;
    }
}

/// Relies on `rand::thread_rng` and `rand::Rng::gen`: a byte from the
/// thread-local generator. Any value may come back.
#[verifier::external_body]
fn random_byte() -> (r: u8) {
    rand::Rng::gen::<u8>(&mut rand::thread_rng())
}

impl Chip8 {
    /// Executes the instruction made of `hi` and `lo`; `random_byte` is what
    /// `CXNN` masks.
    #[verifier::rlimit(40)]
    fn execute(&mut self, keyboard: &mut Keyboard, hi: u8, lo: u8, random_byte: u8)
        requires
            old(self).wf(),
            old(self)@.pc + 1 < MEMORY_SIZE,
            hi == 0 && lo == 0xEE ==> old(self)@.stack.len() > 0,
        ensures
            final(self).wf(),
            (final(self)@, final(keyboard)@) == execute(old(self)@, old(keyboard)@, hi, lo, random_byte),
    {
        let instruction = Chip8::decode(hi, lo);
        let op = instruction / 4096;
        let x = ((instruction / 256) % 16) as usize;
        let y = ((instruction / 16) % 16) as usize;
        let n = (instruction % 16) as u8;
        let nn = (instruction % 256) as u8;
        let nnn = instruction % 4096;
        assert(op == hi / 16 && x == hi % 16 && y == lo / 16 && n == lo % 16 && nn == lo && nnn
            == (hi % 16) as int * 256 + lo as int);
        let pc = self.program_counter;
        let ghost s = self@;
        let ghost kb = keyboard@;
        if op == 0x0 {
            if instruction == 0x00E0 {
                if self.vram.len() != 0 {
                    self.vram = blank_rows();
                    self.vram_changed = true;
                }
                self.program_counter = pc + 2;
            } else if instruction == 0x00EE {
                if let Some(address) = self.stack.pop() {
                    assert(s.stack[s.stack.len() - 1] < MEMORY_SIZE);
                    self.program_counter = address + 2;
                }
            } else {
                self.program_counter = pc + 2;
            }
        } else if op == 0x1 {
            self.program_counter = nnn;
        } else if op == 0x2 {
            self.stack.push(pc);
            self.program_counter = nnn;
        } else if op == 0x3 {
            self.program_counter = if self.registers[x] == nn {
                pc + 4
            } else {
                pc + 2
            };
        } else if op == 0x4 {
            self.program_counter = if self.registers[x] != nn {
                pc + 4
            } else {
                pc + 2
            };
        } else if op == 0x5 && n == 0 {
            self.program_counter = if self.registers[x] == self.registers[y] {
                pc + 4
            } else {
                pc + 2
            };
        } else if op == 0x6 {
            self.registers[x] = nn;
            self.program_counter = pc + 2;
        } else if op == 0x7 {
            self.registers[x] = self.registers[x].wrapping_add(nn);
            self.program_counter = pc + 2;
        } else if op == 0x8 {
            self.exec_alu(x, y, n);
            self.program_counter = pc + 2;
        } else if op == 0x9 && n == 0 {
            self.program_counter = if self.registers[x] != self.registers[y] {
                pc + 4
            } else {
                pc + 2
            };
        } else if op == 0xA {
            self.index_register = nnn;
            self.program_counter = pc + 2;
        } else if op == 0xB {
            self.program_counter = self.registers[0] as u16 + nnn + 2;
        } else if op == 0xC {
            self.registers[x] = random_byte & nn;
            self.program_counter = pc + 2;
        } else if op == 0xD {
            self.exec_draw(x, y, n);
        } else if op == 0xE && nn == 0x9E {
            let key = self.registers[x];
            self.program_counter = if keyboard.is_pressed(key as usize) {
                pc + 4
            } else {
                pc + 2
            };
        } else if op == 0xE && nn == 0xA1 {
            let key = self.registers[x];
            self.program_counter = if key < 16 && !keyboard.get_state()[key as usize] {
                pc + 4
            } else {
                pc + 2
            };
        } else if op == 0xF {
            self.exec_misc(keyboard, x, nn);
        } else {
            self.program_counter = pc + 2;
        }
        proof {
            assert(self.registers@ =~= execute(s, kb, hi, lo, random_byte).0.registers);
            assert(self.stack@ =~= execute(s, kb, hi, lo, random_byte).0.stack);
        }
    }

    /// One fetch-decode-execute step, with `random_byte` as the random value
    /// that `CXNN` uses. When the instruction cannot be executed the error
    /// says why and nothing changes.
    pub fn step(&mut self, keyboard: &mut Keyboard, random_byte: u8) -> (r: Result<(), StepError>)
        requires
            old(self).wf(),
        ensures
            final(self).wf(),
            r == match step_error(old(self)@) {
                Some(e) => Err(e),
                None => Ok::<(), StepError>(()),
            },
            r is Ok ==> (final(self)@, final(keyboard)@) == step(old(self)@, old(keyboard)@, random_byte),
            r is Err ==> final(self)@ == old(self)@ && final(keyboard)@ == old(keyboard)@,
    {
        let pc = self.program_counter as usize;
        if pc + 1 >= MEMORY_SIZE {
            return Err(StepError::ProgramCounterOutOfRange);
        }
        let hi = self.memory[pc];
        let lo = self.memory[pc + 1];
        if hi == 0 && lo == 0xEE && self.stack.len() == 0 {
            return Err(StepError::StackUnderflow);
        }
        self.execute(keyboard, hi, lo, random_byte);
        Ok(())
    }

    /// One fetch-decode-execute step, `CXNN` drawing its random byte from the
    /// thread-local generator (no other instruction draws one).
    pub fn handle_next_instruction(&mut self, keyboard: &mut Keyboard) -> (r: Result<(), StepError>)
        requires
            old(self).wf(),
        ensures
            final(self).wf(),
            r == match step_error(old(self)@) {
                Some(e) => Err(e),
                None => Ok::<(), StepError>(()),
            },
            r is Ok ==> exists|b: u8|
                (final(self)@, final(keyboard)@) == #[trigger] step(old(self)@, old(keyboard)@, b),
            r is Err ==> final(self)@ == old(self)@ && final(keyboard)@ == old(keyboard)@,
    {
        let pc = self.program_counter as usize;
        let b = if pc + 1 < MEMORY_SIZE && self.memory[pc] / 16 == 0xC {
            random_byte()
        } else {
            0
        };
        self.step(keyboard, b)
    }
}

} // verus!
