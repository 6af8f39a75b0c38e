//! The mathematical model of the interpreter: its state as plain sequences
//! and integers, and the effect of every instruction on that state.
use vstd::prelude::*;

verus! {

pub const MEMORY_SIZE: usize = 4096;

pub const NUM_REGS: usize = 16;

pub const STACK_SIZE: usize = 16;

pub const NUM_KEYS: usize = 16;

pub const DISPLAY_WIDTH: usize = 64;

pub const DISPLAY_HEIGHT: usize = 32;

pub const SCREEN_SIZE: usize = 2048;

pub const FONT_START: usize = 0x50;

pub const PROGRAM_START: usize = 0x200;

/// The largest ROM that fits between the program start and the end of memory.
pub const MAX_ROM_SIZE: usize = 3584;

/// A call-stack discipline violation. The instruction that caused it has no
/// effect beyond the program counter advance of its fetch.
#[derive(Debug, Clone, Copy, PartialEq, Eq, Structural)]
pub enum Fault {
    /// `2nnn` with all sixteen return slots in use.
    StackOverflow,
    /// `00EE` with an empty stack.
    StackUnderflow,
}

/// The whole state of the interpreter.
pub struct Machine {
    pub memory: Seq<u8>,
    pub v: Seq<u8>,
    pub i: u16,
    pub pc: u16,
    pub sp: u8,
    pub stack: Seq<u16>,
    pub delay: u8,
    pub sound: u8,
    /// Row-major pixels: pixel (px, py) is `screen[py * 64 + px]`.
    pub screen: Seq<u8>,
    pub keys: Seq<bool>,
}

/// The sixteen built-in 4x5 hexadecimal glyphs, five bytes each.
pub open spec fn font_glyphs() -> Seq<u8> {
    seq![
        0xF0u8, 0x90, 0x90, 0x90, 0xF0, 0x20, 0x60, 0x20, 0x20, 0x70,
        0xF0, 0x10, 0xF0, 0x80, 0xF0, 0xF0, 0x10, 0xF0, 0x10, 0xF0,
        0x90, 0x90, 0xF0, 0x10, 0x10, 0xF0, 0x80, 0xF0, 0x10, 0xF0,
        0xF0, 0x80, 0xF0, 0x90, 0xF0, 0xF0, 0x10, 0x20, 0x40, 0x40,
        0xF0, 0x90, 0xF0, 0x90, 0xF0, 0xF0, 0x90, 0xF0, 0x10, 0xF0,
        0xF0, 0x90, 0xF0, 0x90, 0x90, 0xE0, 0x90, 0xE0, 0x90, 0xE0,
        0xF0, 0x80, 0x80, 0x80, 0xF0, 0xE0, 0x90, 0x90, 0x90, 0xE0,
        0xF0, 0x80, 0xF0, 0x80, 0xF0, 0xF0, 0x80, 0xF0, 0x80, 0x80
    ]
}

/// A memory address taken modulo the memory size.
pub open spec fn addr(n: int) -> int {
    n % (MEMORY_SIZE as int)
}

/// A 16-bit value taken modulo 2^16.
pub open spec fn wrap16(n: int) -> u16 {
    (n % 0x10000) as u16
}

/// The index of the lowest pressed key at or above `k`, if any.
pub open spec fn first_pressed_from(keys: Seq<bool>, k: int) -> Option<u8>
    decreases 16 - k,
{
    if k < 0 || k >= 16 {
        None
    } else if keys[k] {
        Some(k as u8)
    } else {
        first_pressed_from(keys, k + 1)
    }
}

/// The index of the lowest pressed key, if any.
pub open spec fn first_pressed(keys: Seq<bool>) -> Option<u8> {
    first_pressed_from(keys, 0)
}

/// Whether the key a register names is held; values above 15 name no key.
pub open spec fn key_down(keys: Seq<bool>, k: u8) -> bool {
    k < 16 && keys[k as int]
}

/// The pixel colour a framebuffer snapshot shows for a stored pixel value.
pub open spec fn colour(p: u8) -> u32 {
    if p != 0 {
        0xFFFF_FFFFu32
    } else {
        0u32
    }
}

/// Whether `row`/`col` of a sprite have been drawn once rows before `r`, and
/// columns before `b` of row `r`, are done.
pub open spec fn drawn_before(row: int, col: int, r: int, b: int) -> bool {
    row < r || (row == r && col < b)
}

/// The sprite row (0-based) that covers screen row `py` when drawn from `y0`.
pub open spec fn sprite_row(y0: int, py: int) -> int {
    (py - y0) % (DISPLAY_HEIGHT as int)
}

/// The sprite column (0-based) that covers screen column `px` when drawn from `x0`.
pub open spec fn sprite_col(x0: int, px: int) -> int {
    (px - x0) % (DISPLAY_WIDTH as int)
}

/// Bit `col` (0 = most significant) of a sprite byte is set.
pub open spec fn bit_set(byte: u8, col: int) -> bool {
    (byte >> ((7 - col) as u8)) & 1u8 == 1u8
}

/// Toggling a one-bit pixel.
pub open spec fn toggle(p: u8) -> u8 {
    if p == 1 {
        0
    } else {
        1
    }
}

/// Whether an instruction word is one of the defined instructions; every
/// other word executes as a no-op.
pub open spec fn defined(op: u16) -> bool {
    let n0 = op / 0x1000;
    let n = op % 16;
    let nn = op % 0x100;
    ||| op == 0x00E0
    ||| op == 0x00EE
    ||| n0 == 0x1 || n0 == 0x2 || n0 == 0x3 || n0 == 0x4 || n0 == 0x6 || n0 == 0x7
    ||| n0 == 0xA || n0 == 0xB || n0 == 0xC || n0 == 0xD
    ||| (n0 == 0x5 || n0 == 0x9) && n == 0
    ||| n0 == 0x8 && (n <= 0x7 || n == 0xE)
    ||| n0 == 0xE && (nn == 0x9E || nn == 0xA1)
    ||| n0 == 0xF && (nn == 0x07 || nn == 0x15 || nn == 0x18 || nn == 0x1E || nn == 0x0A
        || nn == 0x29 || nn == 0x33 || nn == 0x55 || nn == 0x65)
}

impl Machine {
    /// The shape of a valid state: fixed sizes, a stack pointer within the
    /// stack, and one-bit pixels.
    pub open spec fn wf(self) -> bool {
        &&& self.memory.len() == MEMORY_SIZE
        &&& self.v.len() == NUM_REGS
        &&& self.stack.len() == STACK_SIZE
        &&& self.screen.len() == SCREEN_SIZE
        &&& self.keys.len() == NUM_KEYS
        &&& self.sp <= 16
        &&& forall|p: int| 0 <= p < SCREEN_SIZE ==> #[trigger] self.screen[p] <= 1
    }

    /// The state at power-on: font loaded, program counter at the program
    /// start, everything else zero.
    pub open spec fn power_on() -> Machine {
        Machine {
            memory: Seq::new(
                MEMORY_SIZE as nat,
                |a: int|
                    if FONT_START <= a < FONT_START + 80 {
                        font_glyphs()[a - FONT_START]
                    } else {
                        0u8
                    },
            ),
            v: Seq::new(16, |k: int| 0u8),
            i: 0,
            pc: PROGRAM_START as u16,
            sp: 0,
            stack: Seq::new(16, |k: int| 0u16),
            delay: 0,
            sound: 0,
            screen: Seq::new(SCREEN_SIZE as nat, |p: int| 0u8),
            keys: Seq::new(16, |k: int| false),
        }
    }

    /// The big-endian word at the program counter.
    pub open spec fn opcode_at_pc(self) -> u16 {
        (self.memory[addr(self.pc as int)] * 256 + self.memory[addr(self.pc + 1)]) as u16
    }

    /// The state after fetching: the program counter moved past the word.
    pub open spec fn fetched(self) -> Machine {
        Machine { pc: wrap16(self.pc + 2), ..self }
    }

    pub open spec fn with_reg(self, x: int, val: u8) -> Machine {
        Machine { v: self.v.update(x, val), ..self }
    }

    /// Register `x` set to `val`, then the flag register to `flag`.
    pub open spec fn with_reg_flag(self, x: int, val: u8, flag: u8) -> Machine {
        Machine { v: self.v.update(x, val).update(15, flag), ..self }
    }

    pub open spec fn skip_if(self, c: bool) -> Machine {
        if c {
            Machine { pc: wrap16(self.pc + 2), ..self }
        } else {
            self
        }
    }

    pub open spec fn call(self, nnn: u16) -> Result<Machine, Fault> {
        if self.sp >= 16 {
            Err(Fault::StackOverflow)
        } else {
            Ok(
                Machine {
                    stack: self.stack.update(self.sp as int, self.pc),
                    sp: (self.sp + 1) as u8,
                    pc: nnn,
                    ..self
                },
            )
        }
    }

    pub open spec fn ret(self) -> Result<Machine, Fault> {
        if self.sp == 0 {
            Err(Fault::StackUnderflow)
        } else {
            Ok(Machine { sp: (self.sp - 1) as u8, pc: self.stack[self.sp - 1], ..self })
        }
    }

    /// Whether a sprite of `n` rows read at `I` and drawn at (`x0`, `y0`) has a
    /// set bit over pixel (`px`, `py`).
    pub open spec fn sprite_covers(self, x0: int, y0: int, n: int, px: int, py: int) -> bool {
        let row = sprite_row(y0, py);
        let col = sprite_col(x0, px);
        &&& col < 8
        &&& row < n
        &&& bit_set(self.memory[addr(self.i + row)], col)
    }

    /// Whether pixel `p` is covered by the sprite and its sprite coordinates
    /// come before row `r`, column `b` in drawing order.
    pub open spec fn drawn_by(self, x0: int, y0: int, n: int, r: int, b: int, p: int) -> bool {
        &&& self.sprite_covers(x0, y0, n, p % 64, p / 64)
        &&& drawn_before(sprite_row(y0, p / 64), sprite_col(x0, p % 64), r, b)
    }

    /// The screen after an XOR blit of the sprite.
    pub open spec fn drawn_screen(self, x0: int, y0: int, n: int) -> Seq<u8> {
        Seq::new(
            SCREEN_SIZE as nat,
            |p: int|
                if self.sprite_covers(x0, y0, n, p % 64, p / 64) {
                    toggle(self.screen[p])
                } else {
                    self.screen[p]
                },
        )
    }

    /// Whether the blit turns some set pixel off.
    pub open spec fn collides(self, x0: int, y0: int, n: int) -> bool {
        exists|p: int|
            0 <= p < SCREEN_SIZE && self.sprite_covers(x0, y0, n, p % 64, p / 64)
                && #[trigger] self.screen[p] == 1
    }

    /// `Dxyn`: draw at (Vx mod 64, Vy mod 32); VF reports a collision.
    pub open spec fn draw(self, x: int, y: int, n: int) -> Machine {
        let x0 = self.v[x] % 64;
        let y0 = self.v[y] % 32;
        Machine {
            screen: self.drawn_screen(x0 as int, y0 as int, n),
            v: self.v.update(15, if self.collides(x0 as int, y0 as int, n) { 1u8 } else { 0u8 }),
            ..self
        }
    }

    /// `Fx0A`: take the lowest pressed key, or rewind to repeat the instruction.
    pub open spec fn wait_key(self, x: int) -> Machine {
        match first_pressed(self.keys) {
            Some(k) => self.with_reg(x, k),
            None => Machine { pc: wrap16(self.pc - 2 + 0x10000), ..self },
        }
    }

    /// `Fx33`: the decimal digits of Vx at I, I+1, I+2.
    pub open spec fn bcd(self, x: int) -> Machine {
        let val = self.v[x];
        Machine {
            memory: self.memory.update(addr(self.i as int), val / 100).update(
                addr(self.i + 1),
                (val % 100) / 10,
            ).update(addr(self.i + 2), val % 10),
            ..self
        }
    }

    /// `Fx55`: V0..=Vx stored from I upwards.
    pub open spec fn store_regs(self, x: int) -> Machine {
        Machine {
            memory: Seq::new(
                MEMORY_SIZE as nat,
                |a: int|
                    if addr(a - self.i) <= x {
                        self.v[addr(a - self.i)]
                    } else {
                        self.memory[a]
                    },
            ),
            ..self
        }
    }

    /// `Fx65`: V0..=Vx loaded from I upwards.
    pub open spec fn load_regs(self, x: int) -> Machine {
        Machine {
            v: Seq::new(
                NUM_REGS as nat,
                |e: int|
                    if e <= x {
                        self.memory[addr(self.i + e)]
                    } else {
                        self.v[e]
                    },
            ),
            ..self
        }
    }

    /// The effect of one instruction word on a state whose program counter
    /// has already moved past it; `rnd` is the random byte `Cxnn` uses.
    pub open spec fn execute(self, op: u16, rnd: u8) -> Result<Machine, Fault> {
        let n0 = op / 0x1000;
        let x = ((op / 0x100) % 16) as int;
        let y = ((op / 0x10) % 16) as int;
        let n = (op % 16) as int;
        let nn = (op % 0x100) as u8;
        let nnn = (op % 0x1000) as u16;
        let vx = self.v[x];
        let vy = self.v[y];
        if op == 0x00E0 {
            Ok(Machine { screen: Seq::new(SCREEN_SIZE as nat, |p: int| 0u8), ..self })
        } else if op == 0x00EE {
            self.ret()
        } else if n0 == 0x1 {
            Ok(Machine { pc: nnn, ..self })
        } else if n0 == 0x2 {
            self.call(nnn)
        } else if n0 == 0x3 {
            Ok(self.skip_if(vx == nn))
        } else if n0 == 0x4 {
            Ok(self.skip_if(vx != nn))
        } else if n0 == 0x5 && n == 0 {
            Ok(self.skip_if(vx == vy))
        } else if n0 == 0x6 {
            Ok(self.with_reg(x, nn))
        } else if n0 == 0x7 {
            Ok(self.with_reg(x, ((vx + nn) % 256) as u8))
        } else if n0 == 0x8 && n == 0x0 {
            Ok(self.with_reg(x, vy))
        } else if n0 == 0x8 && n == 0x1 {
            Ok(self.with_reg(x, vx | vy))
        } else if n0 == 0x8 && n == 0x2 {
            Ok(self.with_reg(x, vx & vy))
        } else if n0 == 0x8 && n == 0x3 {
            Ok(self.with_reg(x, vx ^ vy))
        } else if n0 == 0x8 && n == 0x4 {
            Ok(self.with_reg_flag(x, ((vx + vy) % 256) as u8, if vx + vy > 255 { 1 } else { 0 }))
        } else if n0 == 0x8 && n == 0x5 {
            Ok(self.with_reg_flag(x, ((vx - vy + 256) % 256) as u8, if vx >= vy { 1 } else { 0 }))
        } else if n0 == 0x8 && n == 0x6 {
            Ok(self.with_reg_flag(x, vy / 2, vy % 2))
        } else if n0 == 0x8 && n == 0x7 {
            Ok(self.with_reg_flag(x, ((vy - vx + 256) % 256) as u8, if vy >= vx { 1 } else { 0 }))
        } else if n0 == 0x8 && n == 0xE {
            Ok(self.with_reg_flag(x, ((vy * 2) % 256) as u8, vy / 128))
        } else if n0 == 0x9 && n == 0 {
            Ok(self.skip_if(vx != vy))
        } else if n0 == 0xA {
            Ok(Machine { i: nnn, ..self })
        } else if n0 == 0xB {
            Ok(Machine { pc: (nnn + self.v[0]) as u16, ..self })
        } else if n0 == 0xC {
            Ok(self.with_reg(x, rnd & nn))
        } else if n0 == 0xD {
            Ok(self.draw(x, y, n))
        } else if n0 == 0xE && nn == 0x9E {
            Ok(self.skip_if(key_down(self.keys, vx)))
        } else if n0 == 0xE && nn == 0xA1 {
            Ok(self.skip_if(!key_down(self.keys, vx)))
        } else if n0 == 0xF && nn == 0x07 {
            Ok(self.with_reg(x, self.delay))
        } else if n0 == 0xF && nn == 0x15 {
            Ok(Machine { delay: vx, ..self })
        } else if n0 == 0xF && nn == 0x18 {
            Ok(Machine { sound: vx, ..self })
        } else if n0 == 0xF && nn == 0x1E {
            Ok(Machine { i: wrap16(self.i + vx), ..self })
        } else if n0 == 0xF && nn == 0x0A {
            Ok(self.wait_key(x))
        } else if n0 == 0xF && nn == 0x29 {
            Ok(Machine { i: (FONT_START + vx) as u16, ..self })
        } else if n0 == 0xF && nn == 0x33 {
            Ok(self.bcd(x))
        } else if n0 == 0xF && nn == 0x55 {
            Ok(self.store_regs(x))
        } else if n0 == 0xF && nn == 0x65 {
            Ok(self.load_regs(x))
        } else {
            Ok(self)
        }
    }

    /// One full cycle: fetch, then execute. On a fault the state is the one
    /// right after the fetch.
    pub open spec fn step(self, rnd: u8) -> (Machine, Result<(), Fault>) {
        let f = self.fetched();
        match f.execute(self.opcode_at_pc(), rnd) {
            Ok(m) => (m, Ok(())),
            Err(e) => (f, Err(e)),
        }
    }

    /// Whether the instruction at the program counter is `Cxnn`, the only one
    /// that reads a random byte.
    pub open spec fn wants_random(self) -> bool {
        self.opcode_at_pc() / 0x1000 == 0xC
    }

    /// The ROM bytes copied to memory from the program start on.
    pub open spec fn with_rom(self, rom: Seq<u8>) -> Machine {
        Machine {
            memory: Seq::new(
                MEMORY_SIZE as nat,
                |a: int|
                    if PROGRAM_START <= a < PROGRAM_START + rom.len() {
                        rom[a - PROGRAM_START]
                    } else {
                        self.memory[a]
                    },
            ),
            ..self
        }
    }

    /// Whether the instruction at the program counter is `Fx15` or `Fx18`.
    pub open spec fn writes_timer(self) -> bool {
        self.opcode_at_pc() / 0x1000 == 0xF && (self.opcode_at_pc() % 0x100 == 0x15
            || self.opcode_at_pc() % 0x100 == 0x18)
    }

    /// The state after one cycle per byte of `rnds`, each byte serving as
    /// that cycle's random byte.
    pub open spec fn run(self, rnds: Seq<u8>) -> Machine
        decreases rnds.len(),
    {
        if rnds.len() == 0 {
            self
        } else {
            self.step(rnds[0]).0.run(rnds.drop_first())
        }
    }

    /// Whether some cycle of that run executes `Fx15` or `Fx18`.
    pub open spec fn run_writes_timer(self, rnds: Seq<u8>) -> bool
        decreases rnds.len(),
    {
        rnds.len() > 0 && (self.writes_timer() || self.step(rnds[0]).0.run_writes_timer(
            rnds.drop_first(),
        ))
    }

    /// A timer tick: each nonzero timer goes down by one.
    pub open spec fn tick(self) -> Machine {
        Machine {
            delay: if self.delay > 0 { (self.delay - 1) as u8 } else { 0 },
            sound: if self.sound > 0 { (self.sound - 1) as u8 } else { 0 },
            ..self
        }
    }
}

/// The pixel that bit `b` of sprite row `r` lands on, drawn from (`x0`, `y0`),
/// is the only one whose sprite coordinates are (`r`, `b`).
pub(crate) proof fn lemma_pixel_at(x0: int, y0: int, r: int, b: int)
    requires
        0 <= x0 < 64,
        0 <= y0 < 32,
        0 <= r < 16,
        0 <= b < 8,
    ensures
        ({
            let idx = ((y0 + r) % 32) * 64 + (x0 + b) % 64;
            &&& 0 <= idx < SCREEN_SIZE
            &&& idx % 64 == (x0 + b) % 64
            &&& idx / 64 == (y0 + r) % 32
            &&& sprite_row(y0, idx / 64) == r
            &&& sprite_col(x0, idx % 64) == b
            &&& forall|p: int|
                0 <= p < SCREEN_SIZE && #[trigger] sprite_row(y0, p / 64) == r && sprite_col(x0, p % 64) == b
                    ==> p == idx
        }),
{
}


} // verus!
