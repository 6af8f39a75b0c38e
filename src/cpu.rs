//! The interpreter: one owned value holding the whole machine, stepped one
//! instruction at a time by its host.
use vstd::prelude::*;
use crate::machine::{
    addr, bit_set, colour, defined, first_pressed, first_pressed_from, font_glyphs, key_down,
    lemma_pixel_at, toggle, wrap16, Fault, Machine, DISPLAY_HEIGHT, DISPLAY_WIDTH, FONT_START,
    MAX_ROM_SIZE, MEMORY_SIZE, NUM_KEYS, NUM_REGS, PROGRAM_START, SCREEN_SIZE, STACK_SIZE,
};

verus! {

/// The machine state: 4 KiB of memory, sixteen 8-bit registers, the index
/// register I, the program counter, a sixteen-slot return stack, two timers,
/// a 64x32 one-bit framebuffer (row-major) and sixteen keys.
pub struct Cpu {
    memory: [u8; MEMORY_SIZE],
    v: [u8; NUM_REGS],
    i: u16,
    pc: u16,
    sp: u8,
    stack: [u16; STACK_SIZE],
    delay_timer: u8,
    sound_timer: u8,
    display: [u8; SCREEN_SIZE],
    keypad: [bool; NUM_KEYS],
}

/// Relies on rand::random, which draws a value from the thread-local
/// generator; `Cxnn` takes its byte from it. Nothing is promised of the value.
pub assume_specification<T>[ rand::random::<T> ]() -> (r: T)
    where
        rand::distributions::Standard: rand::distributions::Distribution<T>,
;

/// Whether `opcode` is one of the defined instructions. A host can use it to
/// report words that will run as no-ops.
pub fn is_defined(opcode: u16) -> (r: bool)
    ensures
        r == defined(opcode),
{
    let n0 = opcode / 0x1000;
    let n = opcode % 16;
    let nn = opcode % 0x100;
    if opcode == 0x00E0 || opcode == 0x00EE {
        true
    } else if n0 == 0x0 {
        false
    } else if n0 == 0x5 || n0 == 0x9 {
        n == 0
    } else if n0 == 0x8 {
        n <= 0x7 || n == 0xE
    } else if n0 == 0xE {
        nn == 0x9E || nn == 0xA1
    } else if n0 == 0xF {
        nn == 0x07 || nn == 0x15 || nn == 0x18 || nn == 0x1E || nn == 0x0A || nn == 0x29 || nn
            == 0x33 || nn == 0x55 || nn == 0x65
    } else {
        true
    }
}

/// The ROM handed to `load_rom` does not fit between the program start and
/// the end of memory.
#[derive(Debug, Clone, Copy, PartialEq, Eq, Structural)]
pub struct RomTooLarge {
    pub len: usize,
}

impl View for Cpu {
    type V = Machine;

    closed spec fn view(&self) -> Machine {
        Machine {
            memory: self.memory@,
            v: self.v@,
            i: self.i,
            pc: self.pc,
            sp: self.sp,
            stack: self.stack@,
            delay: self.delay_timer,
            sound: self.sound_timer,
            screen: self.display@,
            keys: self.keypad@,
        }
    }
}

impl Cpu {
    /// A machine in its power-on state.
    pub fn new() -> (cpu: Self)
        ensures
            cpu@ == Machine::power_on(),
            cpu@.wf(),
    {
        let mut cpu = Cpu {
            memory: [0u8; MEMORY_SIZE],
            v: [0u8; NUM_REGS],
            i: 0,
            pc: PROGRAM_START as u16,
            sp: 0,
            stack: [0u16; STACK_SIZE],
            delay_timer: 0,
            sound_timer: 0,
            display: [0u8; SCREEN_SIZE],
            keypad: [false; NUM_KEYS],
        };
        cpu.load_default_font();
        proof {
            assert(cpu.memory@ =~= Machine::power_on().memory);
            assert(cpu.v@ =~= Machine::power_on().v);
            assert(cpu.stack@ =~= Machine::power_on().stack);
            assert(cpu.display@ =~= Machine::power_on().screen);
            assert(cpu.keypad@ =~= Machine::power_on().keys);
        }
        cpu
    }

    /// Returns the machine to its power-on state.
    pub fn reset(&mut self)
        ensures
            final(self)@ == Machine::power_on(),
            final(self)@.wf(),
    {
        *self = Cpu::new();
    }

    /// Writes the built-in glyphs at the font base; nothing else changes.
    fn load_default_font(&mut self)
        ensures
            forall|a: int|
                0 <= a < MEMORY_SIZE ==> #[trigger] final(self).memory@[a] == (if FONT_START <= a
                    < FONT_START + 80 {
                    font_glyphs()[a - FONT_START]
                } else {
                    old(self).memory@[a]
                }),
            final(self).v == old(self).v,
            final(self).i == old(self).i,
            final(self).pc == old(self).pc,
            final(self).sp == old(self).sp,
            final(self).stack == old(self).stack,
            final(self).delay_timer == old(self).delay_timer,
            final(self).sound_timer == old(self).sound_timer,
            final(self).display == old(self).display,
            final(self).keypad == old(self).keypad,
    {
        let font: [u8; 80] = [
            0xF0, 0x90, 0x90, 0x90, 0xF0, // 0
            0x20, 0x60, 0x20, 0x20, 0x70, // 1
            0xF0, 0x10, 0xF0, 0x80, 0xF0, // 2
            0xF0, 0x10, 0xF0, 0x10, 0xF0, // 3
            0x90, 0x90, 0xF0, 0x10, 0x10, // 4
            0xF0, 0x80, 0xF0, 0x10, 0xF0, // 5
            0xF0, 0x80, 0xF0, 0x90, 0xF0, // 6
            0xF0, 0x10, 0x20, 0x40, 0x40, // 7
            0xF0, 0x90, 0xF0, 0x90, 0xF0, // 8
            0xF0, 0x90, 0xF0, 0x10, 0xF0, // 9
            0xF0, 0x90, 0xF0, 0x90, 0x90, // A
            0xE0, 0x90, 0xE0, 0x90, 0xE0, // B
            0xF0, 0x80, 0x80, 0x80, 0xF0, // C
            0xE0, 0x90, 0x90, 0x90, 0xE0, // D
            0xF0, 0x80, 0xF0, 0x80, 0xF0, // E
            0xF0, 0x80, 0xF0, 0x80, 0x80, // F
        ];
        assert(font@ =~= font_glyphs());
        let mut k: usize = 0;
        while k < 80
            invariant
                k <= 80,
                font@ == font_glyphs(),
                forall|a: int|
                    0 <= a < MEMORY_SIZE ==> #[trigger] self.memory@[a] == (if FONT_START <= a
                        < FONT_START + k {
                        font_glyphs()[a - FONT_START]
                    } else {
                        old(self).memory@[a]
                    }),
                self.v == old(self).v,
                self.i == old(self).i,
                self.pc == old(self).pc,
                self.sp == old(self).sp,
                self.stack == old(self).stack,
                self.delay_timer == old(self).delay_timer,
                self.sound_timer == old(self).sound_timer,
                self.display == old(self).display,
                self.keypad == old(self).keypad,
            decreases 80 - k,
        {
            self.memory[FONT_START + k] = font[k];
            k = k + 1;
        }
    }

    /// Reads the word at the program counter and moves past it.
    pub fn fetch(&mut self) -> (opcode: u16)
        requires
            old(self)@.wf(),
        ensures
            opcode == old(self)@.opcode_at_pc(),
            final(self)@ == old(self)@.fetched(),
    {
        let first_half = self.memory[self.pc as usize % MEMORY_SIZE];
        let second_half = self.memory[(self.pc as usize + 1) % MEMORY_SIZE];
        self.pc = self.pc.wrapping_add(2);
        (first_half as u16) * 256 + second_half as u16
    }

    pub fn op_clear_screen(&mut self)
        requires
            old(self)@.wf(),
        ensures
            final(self)@ == (Machine { screen: Seq::new(SCREEN_SIZE as nat, |p: int| 0u8), ..old(self)@ }),
    {
        self.display = [0u8; SCREEN_SIZE];
        assert(self.display@ =~= Seq::new(SCREEN_SIZE as nat, |p: int| 0u8));
    }

    pub fn op_return(&mut self) -> (r: Result<(), Fault>)
        requires
            old(self)@.wf(),
        ensures
            match old(self)@.ret() {
                Ok(m) => r == Ok::<(), Fault>(()) && final(self)@ == m,
                Err(e) => r == Err::<(), Fault>(e) && final(self)@ == old(self)@,
            },
    {
        if self.sp == 0 {
            return Err(Fault::StackUnderflow);
        }
        self.sp -= 1;
        self.pc = self.stack[self.sp as usize];
        Ok(())
    }

    pub fn op_jmp(&mut self, addr: u16)
        ensures
            final(self)@ == (Machine { pc: addr, ..old(self)@ }),
    {
        self.pc = addr;
    }

    pub fn op_call(&mut self, addr: u16) -> (r: Result<(), Fault>)
        requires
            old(self)@.wf(),
        ensures
            match old(self)@.call(addr) {
                Ok(m) => r == Ok::<(), Fault>(()) && final(self)@ == m,
                Err(e) => r == Err::<(), Fault>(e) && final(self)@ == old(self)@,
            },
    {
        if self.sp as usize >= STACK_SIZE {
            return Err(Fault::StackOverflow);
        }
        self.stack[self.sp as usize] = self.pc;
        self.pc = addr;
        self.sp += 1;
        Ok(())
    }

    fn skip_if(&mut self, c: bool)
        ensures
            final(self)@ == old(self)@.skip_if(c),
    {
        if c {
            self.pc = self.pc.wrapping_add(2);
        }
    }

    pub fn op_skip_eq_byte(&mut self, x: usize, byte: u8)
        requires
            x < 16,
        ensures
            final(self)@ == old(self)@.skip_if(old(self)@.v[x as int] == byte),
    {
        let c = byte == self.v[x];
        self.skip_if(c);
    }

    pub fn op_skip_neq_byte(&mut self, x: usize, byte: u8)
        requires
            x < 16,
        ensures
            final(self)@ == old(self)@.skip_if(old(self)@.v[x as int] != byte),
    {
        let c = byte != self.v[x];
        self.skip_if(c);
    }

    pub fn op_skip_eq_reg(&mut self, x: usize, y: usize)
        requires
            x < 16,
            y < 16,
        ensures
            final(self)@ == old(self)@.skip_if(old(self)@.v[x as int] == old(self)@.v[y as int]),
    {
        let c = self.v[y] == self.v[x];
        self.skip_if(c);
    }

    pub fn op_skip_neq_reg(&mut self, x: usize, y: usize)
        requires
            x < 16,
            y < 16,
        ensures
            final(self)@ == old(self)@.skip_if(old(self)@.v[x as int] != old(self)@.v[y as int]),
    {
        let c = self.v[y] != self.v[x];
        self.skip_if(c);
    }

    pub fn op_load_byte(&mut self, x: usize, byte: u8)
        requires
            x < 16,
        ensures
            final(self)@ == old(self)@.with_reg(x as int, byte),
    {
        self.v[x] = byte;
    }

    pub fn op_add_byte(&mut self, x: usize, byte: u8)
        requires
            x < 16,
        ensures
            final(self)@ == old(self)@.with_reg(x as int, ((old(self)@.v[x as int] + byte) % 256) as u8),
    {
        self.v[x] = self.v[x].wrapping_add(byte);
    }

    pub fn op_load_reg(&mut self, x: usize, y: usize)
        requires
            x < 16,
            y < 16,
        ensures
            final(self)@ == old(self)@.with_reg(x as int, old(self)@.v[y as int]),
    {
        self.v[x] = self.v[y];
    }

    pub fn op_or(&mut self, x: usize, y: usize)
        requires
            x < 16,
            y < 16,
        ensures
            final(self)@ == old(self)@.with_reg(x as int, old(self)@.v[x as int] | old(self)@.v[y as int]),
    {
        self.v[x] = self.v[x] | self.v[y];
    }

    pub fn op_and(&mut self, x: usize, y: usize)
        requires
            x < 16,
            y < 16,
        ensures
            final(self)@ == old(self)@.with_reg(x as int, old(self)@.v[x as int] & old(self)@.v[y as int]),
    {
        self.v[x] = self.v[x] & self.v[y];
    }

    pub fn op_xor(&mut self, x: usize, y: usize)
        requires
            x < 16,
            y < 16,
        ensures
            final(self)@ == old(self)@.with_reg(x as int, old(self)@.v[x as int] ^ old(self)@.v[y as int]),
    {
        self.v[x] = self.v[x] ^ self.v[y];
    }

    /// `8xy4`: VF is the carry out of the 8-bit sum.
    pub fn op_add_reg(&mut self, x: usize, y: usize)
        requires
            x < 16,
            y < 16,
        ensures
            ({
                let (vx, vy) = (old(self)@.v[x as int], old(self)@.v[y as int]);
                final(self)@ == old(self)@.with_reg_flag(
                    x as int,
                    ((vx + vy) % 256) as u8,
                    if vx + vy > 255 { 1 } else { 0 },
                )
            }),
    {
        let (vx, vy) = (self.v[x], self.v[y]);
        let overflow = vx as u16 + vy as u16 > 0xFF;
        self.v[x] = vx.wrapping_add(vy);
        self.v[0xF] = if overflow { 1 } else { 0 };
    }

    /// `8xy5`: VF is 1 when no borrow occurs.
    pub fn op_sub_xy(&mut self, x: usize, y: usize)
        requires
            x < 16,
            y < 16,
        ensures
            ({
                let (vx, vy) = (old(self)@.v[x as int], old(self)@.v[y as int]);
                final(self)@ == old(self)@.with_reg_flag(
                    x as int,
                    ((vx - vy + 256) % 256) as u8,
                    if vx >= vy { 1 } else { 0 },
                )
            }),
    {
        let (vx, vy) = (self.v[x], self.v[y]);
        let overflow = vx < vy;
        self.v[x] = vx.wrapping_sub(vy);
        self.v[0xF] = if overflow { 0 } else { 1 };
    }

    /// `8xy7`: Vx = Vy - Vx; VF is 1 when no borrow occurs.
    pub fn op_sub_yx(&mut self, x: usize, y: usize)
        requires
            x < 16,
            y < 16,
        ensures
            ({
                let (vx, vy) = (old(self)@.v[x as int], old(self)@.v[y as int]);
                final(self)@ == old(self)@.with_reg_flag(
                    x as int,
                    ((vy - vx + 256) % 256) as u8,
                    if vy >= vx { 1 } else { 0 },
                )
            }),
    {
        let (vx, vy) = (self.v[x], self.v[y]);
        let overflow = vy < vx;
        self.v[x] = vy.wrapping_sub(vx);
        self.v[0xF] = if overflow { 0 } else { 1 };
    }

    /// `8xy6`: shifts Vy (not Vx) right; VF is the bit shifted out.
    pub fn op_shift_right(&mut self, x: usize, y: usize)
        requires
            x < 16,
            y < 16,
        ensures
            ({
                let vy = old(self)@.v[y as int];
                final(self)@ == old(self)@.with_reg_flag(x as int, vy / 2, vy % 2)
            }),
    {
        let vy = self.v[y];
        let flag = vy & 0x1;
        let shifted = vy >> 1;
        assert(flag == vy % 2 && shifted == vy / 2) by (bit_vector)
            requires
                flag == vy & 0x1,
                shifted == vy >> 1,
        ;
        self.v[x] = shifted;
        self.v[0xF] = flag;
    }

    /// `8xyE`: shifts Vy (not Vx) left; VF is the bit shifted out.
    pub fn op_shift_left(&mut self, x: usize, y: usize)
        requires
            x < 16,
            y < 16,
        ensures
            ({
                let vy = old(self)@.v[y as int];
                final(self)@ == old(self)@.with_reg_flag(x as int, ((vy * 2) % 256) as u8, vy / 128)
            }),
    {
        let vy = self.v[y];
        let flag = (vy & 0x80) >> 7;
        let shifted = vy << 1;
        assert(flag == vy / 128 && shifted == ((vy as u16 * 2) % 256) as u8) by (bit_vector)
            requires
                flag == (vy & 0x80) >> 7,
                shifted == vy << 1,
        ;
        self.v[x] = shifted;
        self.v[0xF] = flag;
    }

    pub fn op_load_i(&mut self, val: u16)
        ensures
            final(self)@ == (Machine { i: val, ..old(self)@ }),
    {
        self.i = val;
    }

    pub fn op_jmp_off(&mut self, addr: u16)
        requires
            old(self)@.wf(),
            addr < 0x1000,
        ensures
            final(self)@ == (Machine { pc: (addr + old(self)@.v[0]) as u16, ..old(self)@ }),
    {
        self.pc = addr + self.v[0] as u16;
    }

    /// `Cxnn` once the random byte is known.
    pub fn op_rand(&mut self, x: usize, byte: u8, rnd: u8)
        requires
            x < 16,
        ensures
            final(self)@ == old(self)@.with_reg(x as int, rnd & byte),
    {
        self.v[x] = rnd & byte;
    }

    fn key_pressed(&self, key: u8) -> (r: bool)
        requires
            self@.wf(),
        ensures
            r == key_down(self@.keys, key),
    {
        (key as usize) < NUM_KEYS && self.keypad[key as usize]
    }

    pub fn op_skip_key_press(&mut self, x: usize)
        requires
            old(self)@.wf(),
            x < 16,
        ensures
            final(self)@ == old(self)@.skip_if(key_down(old(self)@.keys, old(self)@.v[x as int])),
    {
        let c = self.key_pressed(self.v[x]);
        self.skip_if(c);
    }

    pub fn op_skip_key_npress(&mut self, x: usize)
        requires
            old(self)@.wf(),
            x < 16,
        ensures
            final(self)@ == old(self)@.skip_if(!key_down(old(self)@.keys, old(self)@.v[x as int])),
    {
        let c = !self.key_pressed(self.v[x]);
        self.skip_if(c);
    }

    pub fn op_load_del(&mut self, x: usize)
        requires
            x < 16,
        ensures
            final(self)@ == old(self)@.with_reg(x as int, old(self)@.delay),
    {
        self.v[x] = self.delay_timer;
    }

    pub fn op_set_del(&mut self, x: usize)
        requires
            x < 16,
        ensures
            final(self)@ == (Machine { delay: old(self)@.v[x as int], ..old(self)@ }),
    {
        self.delay_timer = self.v[x];
    }

    pub fn op_set_snd(&mut self, x: usize)
        requires
            x < 16,
        ensures
            final(self)@ == (Machine { sound: old(self)@.v[x as int], ..old(self)@ }),
    {
        self.sound_timer = self.v[x];
    }

    /// `Fx1E`: I grows by Vx, modulo 2^16; no flag is set.
    pub fn op_add_i_reg(&mut self, x: usize)
        requires
            x < 16,
        ensures
            final(self)@ == (Machine { i: wrap16(old(self)@.i + old(self)@.v[x as int]), ..old(self)@ }),
    {
        self.i = self.i.wrapping_add(self.v[x] as u16);
    }

    /// `Fx29`: I = font base + Vx (the glyph index is not scaled by five).
    pub fn op_font(&mut self, x: usize)
        requires
            x < 16,
        ensures
            final(self)@ == (Machine { i: (FONT_START + old(self)@.v[x as int]) as u16, ..old(self)@ }),
    {
        self.i = FONT_START as u16 + self.v[x] as u16;
    }

    /// `Fx0A`: Vx takes the lowest pressed key; with none pressed the
    /// program counter moves back so that the instruction runs again.
    pub fn op_wait_key(&mut self, x: usize)
        requires
            old(self)@.wf(),
            x < 16,
        ensures
            final(self)@ == old(self)@.wait_key(x as int),
    {
        let mut key: usize = 0;
        while key < NUM_KEYS
            invariant
                key <= NUM_KEYS,
                self@ == old(self)@,
                x < 16,
                self@.wf(),
                first_pressed(self@.keys) == first_pressed_from(self@.keys, key as int),
            decreases NUM_KEYS - key,
        {
            if self.keypad[key] {
                self.v[x] = key as u8;
                return;
            }
            key = key + 1;
        }
        self.pc = self.pc.wrapping_sub(2);
    }

    /// `Fx33`: the hundreds, tens and ones digits of Vx at I, I+1 and I+2.
    pub fn op_conv(&mut self, x: usize)
        requires
            old(self)@.wf(),
            x < 16,
        ensures
            final(self)@ == old(self)@.bcd(x as int),
    {
        let val = self.v[x];
        let base = self.i as usize;
        self.memory[base % MEMORY_SIZE] = val / 100;
        self.memory[(base + 1) % MEMORY_SIZE] = (val % 100) / 10;
        self.memory[(base + 2) % MEMORY_SIZE] = val % 10;
    }

    /// `Fx55`: V0..=Vx written to memory from I upwards.
    pub fn op_store_regs(&mut self, x: usize)
        requires
            old(self)@.wf(),
            x < 16,
        ensures
            final(self)@ == old(self)@.store_regs(x as int),
    {
        let base = self.i as usize;
        let mut e: usize = 0;
        while e <= x
            invariant
                e <= x + 1,
                x < 16,
                base == old(self).i,
                self@.wf(),
                self@ == (Machine { memory: self@.memory, ..old(self)@ }),
                forall|a: int|
                    0 <= a < MEMORY_SIZE ==> #[trigger] self@.memory[a] == (if addr(a - base) < e {
                        old(self)@.v[addr(a - base)]
                    } else {
                        old(self)@.memory[a]
                    }),
            decreases x + 1 - e,
        {
            let target = (base + e) % MEMORY_SIZE;
            assert(addr(target - base) == e);
            assert(forall|a: int| 0 <= a < MEMORY_SIZE && #[trigger] addr(a - base) == e ==> a == target);
            self.memory[target] = self.v[e];
            e = e + 1;
        }
        assert(self@.memory =~= old(self)@.store_regs(x as int).memory);
    }

    /// `Fx65`: V0..=Vx read from memory from I upwards.
    pub fn op_load_regs(&mut self, x: usize)
        requires
            old(self)@.wf(),
            x < 16,
        ensures
            final(self)@ == old(self)@.load_regs(x as int),
    {
        let base = self.i as usize;
        let mut e: usize = 0;
        while e <= x
            invariant
                e <= x + 1,
                x < 16,
                base == old(self).i,
                self@.wf(),
                self@ == (Machine { v: self@.v, ..old(self)@ }),
                forall|k: int|
                    0 <= k < NUM_REGS ==> #[trigger] self@.v[k] == (if k < e {
                        old(self)@.memory[addr(base + k)]
                    } else {
                        old(self)@.v[k]
                    }),
            decreases x + 1 - e,
        {
            self.v[e] = self.memory[(base + e) % MEMORY_SIZE];
            e = e + 1;
        }
        assert(self@.v =~= old(self)@.load_regs(x as int).v);
    }

    /// `Dxyn`: XOR-blits the `n`-row sprite at I onto the screen at
    /// (Vx mod 64, Vy mod 32), wrapping each pixel around the edges; VF is 1
    /// exactly when some set pixel was turned off.
    pub fn op_disp(&mut self, x: usize, y: usize, n: u8)
        requires
            old(self)@.wf(),
            x < 16,
            y < 16,
            n < 16,
        ensures
            final(self)@ == old(self)@.draw(x as int, y as int, n as int),
            final(self)@.wf(),
    {
        let x_val = self.v[x] % (DISPLAY_WIDTH as u8);
        let y_val = self.v[y] % (DISPLAY_HEIGHT as u8);
        let ghost m0 = self@;
        let ghost (x0, y0, ni) = (x_val as int, y_val as int, n as int);
        let mut collided = false;
        let mut row: u8 = 0;
        while row < n
            invariant
                row <= n,
                n < 16,
                x < 16,
                y < 16,
                x0 == x_val as int,
                y0 == y_val as int,
                ni == n as int,
                x_val == m0.v[x as int] % 64,
                y_val == m0.v[y as int] % 32,
                x_val < 64,
                y_val < 32,
                m0.wf(),
                self@.wf(),
                self@ == (Machine { screen: self@.screen, ..m0 }),
                forall|p: int|
                    0 <= p < SCREEN_SIZE ==> #[trigger] self@.screen[p] == (if m0.drawn_by(x0, y0, ni, row as int, 0, p) {
                        toggle(m0.screen[p])
                    } else {
                        m0.screen[p]
                    }),
                collided == exists|p: int|
                    0 <= p < SCREEN_SIZE && #[trigger] m0.drawn_by(x0, y0, ni, row as int, 0, p)
                        && m0.screen[p] == 1,
            decreases n - row,
        {
            let sprite = self.memory[(self.i as usize + row as usize) % MEMORY_SIZE];
            let mut bit: u8 = 0;
            while bit < 8
                invariant
                    bit <= 8,
                    row < n,
                    n < 16,
                    x0 == x_val as int,
                    y0 == y_val as int,
                    ni == n as int,
                    x_val < 64,
                    y_val < 32,
                    m0.wf(),
                    self@.wf(),
                    sprite == m0.memory[addr(m0.i + row)],
                    self@ == (Machine { screen: self@.screen, ..m0 }),
                    forall|p: int|
                        0 <= p < SCREEN_SIZE ==> #[trigger] self@.screen[p] == (if m0.drawn_by(x0, y0, ni, row as int, bit as int, p) {
                            toggle(m0.screen[p])
                        } else {
                            m0.screen[p]
                        }),
                    collided == exists|p: int|
                        0 <= p < SCREEN_SIZE && #[trigger] m0.drawn_by(x0, y0, ni, row as int, bit as int, p)
                            && m0.screen[p] == 1,
                decreases 8 - bit,
            {
                let px = (x_val + bit) % (DISPLAY_WIDTH as u8);
                let py = (y_val + row) % (DISPLAY_HEIGHT as u8);
                let idx = py as usize * DISPLAY_WIDTH + px as usize;
                let ghost collided_before = collided;
                let ghost screen_before = self@.screen;
                proof {
                    lemma_pixel_at(x0, y0, row as int, bit as int);
                    lemma_drawn_step(m0, x0, y0, ni, row as int, bit as int);
                }
                let shift = 7 - bit;
                let on = (sprite >> shift) & 1 == 1;
                assert(on == bit_set(sprite, bit as int));
                if on {
                    if self.display[idx] == 1 {
                        collided = true;
                        self.display[idx] = 0;
                    } else {
                        self.display[idx] = 1;
                    }
                }
                proof {
                    let b1 = bit + 1;
                    if on && m0.screen[idx as int] == 1 {
                        assert(m0.drawn_by(x0, y0, ni, row as int, b1, idx as int));
                    } else {
                        if collided {
                            let w = choose|p: int|
                                0 <= p < SCREEN_SIZE && #[trigger] m0.drawn_by(x0, y0, ni, row as int, bit as int, p)
                                    && m0.screen[p] == 1;
                            assert(m0.drawn_by(x0, y0, ni, row as int, b1, w));
                        }
                        if exists|p: int|
                            0 <= p < SCREEN_SIZE && #[trigger] m0.drawn_by(x0, y0, ni, row as int, b1, p)
                                && m0.screen[p] == 1 {
                            let w = choose|p: int|
                                0 <= p < SCREEN_SIZE && #[trigger] m0.drawn_by(x0, y0, ni, row as int, b1, p)
                                    && m0.screen[p] == 1;
                            assert(m0.drawn_by(x0, y0, ni, row as int, bit as int, w));
                        }
                    }
                }
                bit = bit + 1;
            }
            proof {
                assert forall|p: int| 0 <= p < SCREEN_SIZE implies #[trigger] m0.drawn_by(x0, y0, ni, row as int, 8, p)
                    == m0.drawn_by(x0, y0, ni, row + 1, 0, p) by {}
                if collided {
                    let w = choose|p: int|
                        0 <= p < SCREEN_SIZE && #[trigger] m0.drawn_by(x0, y0, ni, row as int, 8, p)
                            && m0.screen[p] == 1;
                    assert(m0.drawn_by(x0, y0, ni, row + 1, 0, w));
                }
                if exists|p: int|
                    0 <= p < SCREEN_SIZE && #[trigger] m0.drawn_by(x0, y0, ni, row + 1, 0, p)
                        && m0.screen[p] == 1 {
                    let w = choose|p: int|
                        0 <= p < SCREEN_SIZE && #[trigger] m0.drawn_by(x0, y0, ni, row + 1, 0, p)
                            && m0.screen[p] == 1;
                    assert(m0.drawn_by(x0, y0, ni, row as int, 8, w));
                }
            }
            row = row + 1;
        }
        self.v[0xF] = if collided { 1 } else { 0 };
        proof {
            assert forall|p: int| 0 <= p < SCREEN_SIZE implies m0.drawn_by(x0, y0, ni, ni, 0, p)
                == m0.sprite_covers(x0, y0, ni, p % 64, p / 64) by {}
            assert(self@.screen =~= m0.drawn_screen(x0, y0, ni));
            if collided {
                let w = choose|p: int|
                    0 <= p < SCREEN_SIZE && #[trigger] m0.drawn_by(x0, y0, ni, ni, 0, p) && m0.screen[p] == 1;
                assert(m0.sprite_covers(x0, y0, ni, w % 64, w / 64));
            }
            if m0.collides(x0, y0, ni) {
                let w = choose|p: int|
                    0 <= p < SCREEN_SIZE && m0.sprite_covers(x0, y0, ni, p % 64, p / 64) && #[trigger] m0.screen[p] == 1;
                assert(m0.drawn_by(x0, y0, ni, ni, 0, w));
            }
            assert(self@.v =~= m0.draw(x as int, y as int, n as int).v);
        }
    }

    /// Runs one instruction word whose fetch has already happened. `rnd` is
    /// the byte that `Cxnn` masks; no other instruction reads it.
    pub fn decode_and_execute(&mut self, opcode: u16, rnd: u8) -> (r: Result<(), Fault>)
        requires
            old(self)@.wf(),
        ensures
            final(self)@.wf(),
            match old(self)@.execute(opcode, rnd) {
                Ok(m) => r == Ok::<(), Fault>(()) && final(self)@ == m,
                Err(e) => r == Err::<(), Fault>(e) && final(self)@ == old(self)@,
            },
    {
        let n0 = opcode / 0x1000;
        let x = ((opcode / 0x100) % 16) as usize;
        let y = ((opcode / 0x10) % 16) as usize;
        let n = (opcode % 16) as u8;
        let nn = (opcode % 0x100) as u8;
        let nnn = opcode % 0x1000;
        if opcode == 0x00E0 {
            self.op_clear_screen();
        } else if opcode == 0x00EE {
            return self.op_return();
        } else if n0 == 0x1 {
            self.op_jmp(nnn);
        } else if n0 == 0x2 {
            return self.op_call(nnn);
        } else if n0 == 0x3 {
            self.op_skip_eq_byte(x, nn);
        } else if n0 == 0x4 {
            self.op_skip_neq_byte(x, nn);
        } else if n0 == 0x5 && n == 0 {
            self.op_skip_eq_reg(x, y);
        } else if n0 == 0x6 {
            self.op_load_byte(x, nn);
        } else if n0 == 0x7 {
            self.op_add_byte(x, nn);
        } else if n0 == 0x8 && n == 0x0 {
            self.op_load_reg(x, y);
        } else if n0 == 0x8 && n == 0x1 {
            self.op_or(x, y);
        } else if n0 == 0x8 && n == 0x2 {
            self.op_and(x, y);
        } else if n0 == 0x8 && n == 0x3 {
            self.op_xor(x, y);
        } else if n0 == 0x8 && n == 0x4 {
            self.op_add_reg(x, y);
        } else if n0 == 0x8 && n == 0x5 {
            self.op_sub_xy(x, y);
        } else if n0 == 0x8 && n == 0x6 {
            self.op_shift_right(x, y);
        } else if n0 == 0x8 && n == 0x7 {
            self.op_sub_yx(x, y);
        } else if n0 == 0x8 && n == 0xE {
            self.op_shift_left(x, y);
        } else if n0 == 0x9 && n == 0 {
            self.op_skip_neq_reg(x, y);
        } else if n0 == 0xA {
            self.op_load_i(nnn);
        } else if n0 == 0xB {
            self.op_jmp_off(nnn);
        } else if n0 == 0xC {
            self.op_rand(x, nn, rnd);
        } else if n0 == 0xD {
            self.op_disp(x, y, n);
        } else if n0 == 0xE && nn == 0x9E {
            self.op_skip_key_press(x);
        } else if n0 == 0xE && nn == 0xA1 {
            self.op_skip_key_npress(x);
        } else if n0 == 0xF && nn == 0x07 {
            self.op_load_del(x);
        } else if n0 == 0xF && nn == 0x15 {
            self.op_set_del(x);
        } else if n0 == 0xF && nn == 0x18 {
            self.op_set_snd(x);
        } else if n0 == 0xF && nn == 0x1E {
            self.op_add_i_reg(x);
        } else if n0 == 0xF && nn == 0x0A {
            self.op_wait_key(x);
        } else if n0 == 0xF && nn == 0x29 {
            self.op_font(x);
        } else if n0 == 0xF && nn == 0x33 {
            self.op_conv(x);
        } else if n0 == 0xF && nn == 0x55 {
            self.op_store_regs(x);
        } else if n0 == 0xF && nn == 0x65 {
            self.op_load_regs(x);
        }
        Ok(())
    }

    /// One fetch-decode-execute cycle with `rnd` as the random byte.
    pub fn cycle_with(&mut self, rnd: u8) -> (r: Result<(), Fault>)
        requires
            old(self)@.wf(),
        ensures
            final(self)@.wf(),
            old(self)@.step(rnd) == (final(self)@, r),
    {
        let opcode = self.fetch();
        self.decode_and_execute(opcode, rnd)
    }

    /// One fetch-decode-execute cycle. A `Cxnn` draws its byte from the
    /// thread-local generator; every other instruction behaves as with any
    /// random byte. A stack fault is reported and leaves the state as it was
    /// right after the fetch.
    pub fn cycle(&mut self) -> (r: Result<(), Fault>)
        requires
            old(self)@.wf(),
        ensures
            final(self)@.wf(),
            exists|rnd: u8| old(self)@.step(rnd) == (final(self)@, r),
            !old(self)@.wants_random() ==> old(self)@.step(0) == (final(self)@, r),
    {
        let rnd: u8 = if self.opcode_at_pc() / 0x1000 == 0xC {
            rand::random::<u8>()
        } else {
            0
        };
        self.cycle_with(rnd)
    }

    /// The word at the program counter, without moving past it.
    pub fn opcode_at_pc(&self) -> (opcode: u16)
        requires
            self@.wf(),
        ensures
            opcode == self@.opcode_at_pc(),
    {
        let first_half = self.memory[self.pc as usize % MEMORY_SIZE];
        let second_half = self.memory[(self.pc as usize + 1) % MEMORY_SIZE];
        (first_half as u16) * 256 + second_half as u16
    }

    /// Copies `rom` into memory from the program start. A ROM longer than the
    /// space left is refused and memory is left untouched.
    pub fn load_rom(&mut self, rom: &[u8]) -> (r: Result<(), RomTooLarge>)
        requires
            old(self)@.wf(),
        ensures
            final(self)@.wf(),
            rom@.len() > MAX_ROM_SIZE ==> r == Err::<(), RomTooLarge>(RomTooLarge { len: rom@.len() as usize })
                && final(self)@ == old(self)@,
            rom@.len() <= MAX_ROM_SIZE ==> r is Ok && final(self)@ == old(self)@.with_rom(rom@),
    {
        if rom.len() > MAX_ROM_SIZE {
            return Err(RomTooLarge { len: rom.len() });
        }
        let mut k: usize = 0;
        while k < rom.len()
            invariant
                k <= rom@.len() <= MAX_ROM_SIZE,
                self@.wf(),
                self@ == (Machine { memory: self@.memory, ..old(self)@ }),
                forall|a: int|
                    0 <= a < MEMORY_SIZE ==> #[trigger] self@.memory[a] == (if PROGRAM_START <= a
                        < PROGRAM_START + k {
                        rom@[a - PROGRAM_START]
                    } else {
                        old(self)@.memory[a]
                    }),
            decreases rom@.len() - k,
        {
            self.memory[PROGRAM_START + k] = rom[k];
            k = k + 1;
        }
        assert(self@.memory =~= old(self)@.with_rom(rom@).memory);
        Ok(())
    }

    /// Releases every key.
    pub fn clear_keys(&mut self)
        requires
            old(self)@.wf(),
        ensures
            final(self)@.wf(),
            final(self)@ == (Machine { keys: Seq::new(16, |k: int| false), ..old(self)@ }),
    {
        self.keypad = [false; NUM_KEYS];
        assert(self.keypad@ =~= Seq::new(16, |k: int| false));
    }

    /// Marks key `key` as held.
    pub fn set_key(&mut self, key: isize)
        requires
            old(self)@.wf(),
            0 <= key < 16,
        ensures
            final(self)@.wf(),
            final(self)@ == (Machine { keys: old(self)@.keys.update(key as int, true), ..old(self)@ }),
    {
        self.keypad[key as usize] = true;
    }

    /// The 60 Hz tick: each nonzero timer goes down by one.
    pub fn update_timers(&mut self)
        requires
            old(self)@.wf(),
        ensures
            final(self)@.wf(),
            final(self)@ == old(self)@.tick(),
    {
        if self.delay_timer > 0 {
            self.delay_timer -= 1;
        }
        if self.sound_timer > 0 {
            self.sound_timer -= 1;
        }
    }

    /// The framebuffer as row-major colours: white for a set pixel, black
    /// otherwise.
    pub fn get_display(&self) -> (frame: Vec<u32>)
        requires
            self@.wf(),
        ensures
            frame@.len() == SCREEN_SIZE,
            forall|p: int| 0 <= p < SCREEN_SIZE ==> #[trigger] frame@[p] == colour(self@.screen[p]),
    {
        let mut frame: Vec<u32> = Vec::with_capacity(SCREEN_SIZE);
        let mut p: usize = 0;
        while p < SCREEN_SIZE
            invariant
                p <= SCREEN_SIZE,
                self@.wf(),
                frame@.len() == p,
                forall|q: int| 0 <= q < p ==> #[trigger] frame@[q] == colour(self@.screen[q]),
            decreases SCREEN_SIZE - p,
        {
            frame.push(if self.display[p] != 0 { 0xFFFF_FFFFu32 } else { 0 });
            p = p + 1;
        }
        frame
    }

    pub fn pc(&self) -> (r: u16)
        ensures
            r == self@.pc,
    {
        self.pc
    }

    /// The index register I.
    pub fn index(&self) -> (r: u16)
        ensures
            r == self@.i,
    {
        self.i
    }

    /// General register V`x`.
    pub fn register(&self, x: usize) -> (r: u8)
        requires
            x < 16,
        ensures
            r == self@.v[x as int],
    {
        self.v[x]
    }

    pub fn stack_pointer(&self) -> (r: u8)
        ensures
            r == self@.sp,
    {
        self.sp
    }

    pub fn delay_timer(&self) -> (r: u8)
        ensures
            r == self@.delay,
    {
        self.delay_timer
    }

    pub fn sound_timer(&self) -> (r: u8)
        ensures
            r == self@.sound,
    {
        self.sound_timer
    }

    /// The byte at memory address `a`.
    pub fn memory_at(&self, a: usize) -> (r: u8)
        requires
            a < MEMORY_SIZE,
        ensures
            r == self@.memory[a as int],
    {
        self.memory[a]
    }
}


/// Drawing bit `b` of row `r` adds exactly the pixel it lands on, when that
/// bit is set, to the pixels drawn so far.
proof fn lemma_drawn_step(m: Machine, x0: int, y0: int, n: int, r: int, b: int)
    requires
        0 <= x0 < 64,
        0 <= y0 < 32,
        0 <= r < n < 16,
        0 <= b < 8,
    ensures
        ({
            let idx = ((y0 + r) % 32) * 64 + (x0 + b) % 64;
            &&& !m.drawn_by(x0, y0, n, r, b, idx)
            &&& m.drawn_by(x0, y0, n, r, b + 1, idx) == bit_set(m.memory[addr(m.i + r)], b)
            &&& forall|p: int|
                0 <= p < SCREEN_SIZE && p != idx ==> #[trigger] m.drawn_by(x0, y0, n, r, b + 1, p)
                    == m.drawn_by(x0, y0, n, r, b, p)
        }),
{
    lemma_pixel_at(x0, y0, r, b);
}

} // verus!
