//! The executable machine: the state container and the operations a host
//! drives it with, each proved against the spec-level step of [`crate::step`].
use crate::model::dec;
use crate::model::font;
use crate::model::fresh;
use crate::model::fresh_ram;
use crate::model::loaded_ram;
use crate::model::Chip;
use crate::model::Fault;
use crate::model::DISPLAY_HEIGHT;
use crate::model::DISPLAY_WIDTH;
use crate::model::FONT_SIZE;
use crate::model::NUM_KEYS;
use crate::model::NUM_REGISTERS;
use crate::model::RAM_SIZE;
use crate::model::STACK_SIZE;
use crate::model::START_ADDRESS;
use crate::step::draw_row;
use crate::step::draw_sprite;
use crate::step::fetched;
use crate::step::first_pressed;
use crate::step::loaded_regs;
use crate::step::spec_alu;
use crate::step::spec_draw;
use crate::step::spec_execute;
use crate::step::spec_fx;
use crate::step::spec_tick;
use crate::step::stored_regs;
use vstd::prelude::*;

verus! {

/// Relies on `rand::random::<u8>`: draws one byte from the crate's
/// thread-local generator. Nothing is assumed of its value.
#[verifier::external_body]
fn random_byte() -> (r: u8) {
    rand::random()
}

/// A vector of `n` zero bytes.
fn zero_bytes(n: usize) -> (v: Vec<u8>)
    ensures
        v@ == Seq::new(n as nat, |i: int| 0u8),
{
    let mut v: Vec<u8> = Vec::new();
    let mut k: usize = 0;
    while k < n
        invariant
            k <= n,
            v@.len() == k,
            forall|j: int| 0 <= j < k ==> v@[j] == 0u8,
        decreases n - k,
    {
        v.push(0);
        k += 1;
    }
    proof {
        assert(v@ =~= Seq::new(n as nat, |i: int| 0u8));
    }
    v
}

/// A vector of `n` zero words.
fn zero_words(n: usize) -> (v: Vec<u16>)
    ensures
        v@ == Seq::new(n as nat, |i: int| 0u16),
{
    let mut v: Vec<u16> = Vec::new();
    let mut k: usize = 0;
    while k < n
        invariant
            k <= n,
            v@.len() == k,
            forall|j: int| 0 <= j < k ==> v@[j] == 0u16,
        decreases n - k,
    {
        v.push(0);
        k += 1;
    }
    proof {
        assert(v@ =~= Seq::new(n as nat, |i: int| 0u16));
    }
    v
}

/// A vector of `n` unlit cells.
fn unlit_cells(n: usize) -> (v: Vec<bool>)
    ensures
        v@ == Seq::new(n as nat, |i: int| false),
{
    let mut v: Vec<bool> = Vec::new();
    let mut k: usize = 0;
    while k < n
        invariant
            k <= n,
            v@.len() == k,
            forall|j: int| 0 <= j < k ==> v@[j] == false,
        decreases n - k,
    {
        v.push(false);
        k += 1;
    }
    proof {
        assert(v@ =~= Seq::new(n as nat, |i: int| false));
    }
    v
}

/// The glyph table as bytes.
#[verifier::rlimit(100)]
fn font_bytes() -> (v: Vec<u8>)
    ensures
        v@ == font(),
{
    let mut v: Vec<u8> = Vec::new();
    v.push(0xF0);
    v.push(0x90);
    v.push(0x90);
    v.push(0x90);
    v.push(0xF0);
    v.push(0x20);
    v.push(0x60);
    v.push(0x20);
    v.push(0x20);
    v.push(0x70);
    v.push(0xF0);
    v.push(0x10);
    v.push(0xF0);
    v.push(0x80);
    v.push(0xF0);
    v.push(0xF0);
    v.push(0x10);
    v.push(0xF0);
    v.push(0x10);
    v.push(0xF0);
    v.push(0x90);
    v.push(0x90);
    v.push(0xF0);
    v.push(0x10);
    v.push(0x10);
    v.push(0xF0);
    v.push(0x80);
    v.push(0xF0);
    v.push(0x10);
    v.push(0xF0);
    v.push(0xF0);
    v.push(0x80);
    v.push(0xF0);
    v.push(0x90);
    v.push(0xF0);
    v.push(0xF0);
    v.push(0x10);
    v.push(0x20);
    v.push(0x40);
    v.push(0x40);
    v.push(0xF0);
    v.push(0x90);
    v.push(0xF0);
    v.push(0x90);
    v.push(0xF0);
    v.push(0xF0);
    v.push(0x90);
    v.push(0xF0);
    v.push(0x10);
    v.push(0xF0);
    v.push(0xF0);
    v.push(0x90);
    v.push(0xF0);
    v.push(0x90);
    v.push(0x90);
    v.push(0xE0);
    v.push(0x90);
    v.push(0xE0);
    v.push(0x90);
    v.push(0xE0);
    v.push(0xF0);
    v.push(0x80);
    v.push(0x80);
    v.push(0x80);
    v.push(0xF0);
    v.push(0xE0);
    v.push(0x90);
    v.push(0x90);
    v.push(0x90);
    v.push(0xE0);
    v.push(0xF0);
    v.push(0x80);
    v.push(0xF0);
    v.push(0x80);
    v.push(0xF0);
    v.push(0xF0);
    v.push(0x80);
    v.push(0xF0);
    v.push(0x80);
    v.push(0x80);
    proof {
        assert(v@ == font());
    }
    v
}

/// Set every framebuffer cell to unlit.
fn clear_cells(display: &mut Vec<bool>)
    requires
        old(display)@.len() == DISPLAY_WIDTH * DISPLAY_HEIGHT,
    ensures
        final(display)@ == Seq::new((DISPLAY_WIDTH * DISPLAY_HEIGHT) as nat, |i: int| false),
{
    let mut k: usize = 0;
    while k < DISPLAY_WIDTH * DISPLAY_HEIGHT
        invariant
            k <= DISPLAY_WIDTH * DISPLAY_HEIGHT,
            display@.len() == DISPLAY_WIDTH * DISPLAY_HEIGHT,
            forall|j: int| 0 <= j < k ==> display@[j] == false,
        decreases DISPLAY_WIDTH * DISPLAY_HEIGHT - k,
    {
        display[k] = false;
        k += 1;
    }
    proof {
        assert(display@ =~= Seq::new((DISPLAY_WIDTH * DISPLAY_HEIGHT) as nat, |i: int| false));
    }
}

/// Index of the lowest pressed key, if any.
fn scan_keys(keys: &Vec<bool>) -> (r: Option<u8>)
    requires
        keys@.len() == NUM_KEYS,
    ensures
        match r {
            Some(k) => first_pressed(keys@, 0) == Some(k as int),
            None => first_pressed(keys@, 0) is None,
        },
{
    let mut k: usize = 0;
    while k < NUM_KEYS
        invariant
            k <= NUM_KEYS,
            keys@.len() == NUM_KEYS,
            first_pressed(keys@, 0) == first_pressed(keys@, k as int),
        decreases NUM_KEYS - k,
    {
        if keys[k] {
            return Some(k as u8);
        }
        k += 1;
    }
    None
}

/// Blit an `n`-row sprite from memory at `ireg` onto the framebuffer at
/// origin `(x0, y0)`, toggling cells and reporting whether any toggled cell
/// was lit.
fn draw_cells(display: &mut Vec<bool>, ram: &Vec<u8>, ireg: u16, x0: u8, y0: u8, n: u16) -> (hit:
    bool)
    requires
        old(display)@.len() == DISPLAY_WIDTH * DISPLAY_HEIGHT,
        ram@.len() == RAM_SIZE,
        ireg + n <= RAM_SIZE,
    ensures
        final(display)@.len() == DISPLAY_WIDTH * DISPLAY_HEIGHT,
        final(display)@ == draw_sprite(
            old(display)@,
            false,
            ram@,
            ireg as int,
            x0 as int,
            y0 as int,
            n as int,
        ).0,
        hit == draw_sprite(
            old(display)@,
            false,
            ram@,
            ireg as int,
            x0 as int,
            y0 as int,
            n as int,
        ).1,
{
    let mut hit: bool = false;
    let mut row: u16 = 0;
    while row < n
        invariant
            row <= n,
            ireg + n <= RAM_SIZE,
            ram@.len() == RAM_SIZE,
            display@.len() == DISPLAY_WIDTH * DISPLAY_HEIGHT,
            display@ == draw_sprite(
                old(display)@,
                false,
                ram@,
                ireg as int,
                x0 as int,
                y0 as int,
                row as int,
            ).0,
            hit == draw_sprite(
                old(display)@,
                false,
                ram@,
                ireg as int,
                x0 as int,
                y0 as int,
                row as int,
            ).1,
        decreases n - row,
    {
        let b: u8 = ram[(ireg + row) as usize];
        let y: usize = (y0 as usize + row as usize) % DISPLAY_HEIGHT;
        let ghost pre = draw_sprite(
            old(display)@,
            false,
            ram@,
            ireg as int,
            x0 as int,
            y0 as int,
            row as int,
        );
        let mut col: usize = 0;
        while col < 8
            invariant
                col <= 8,
                display@.len() == DISPLAY_WIDTH * DISPLAY_HEIGHT,
                b == ram@[ireg as int + row as int],
                y == (y0 as int + row as int) % (DISPLAY_HEIGHT as int),
                display@ == draw_row(pre.0, pre.1, b, x0 as int, y as int, col as int).0,
                hit == draw_row(pre.0, pre.1, b, x0 as int, y as int, col as int).1,
                pre.0.len() == DISPLAY_WIDTH * DISPLAY_HEIGHT,
            decreases 8 - col,
        {
            let mask: u8 = 0x80u8 >> (col as u8);
            if b & mask != 0 {
                let cx: usize = (x0 as usize + col) % DISPLAY_WIDTH;
                let idx: usize = cx + DISPLAY_WIDTH * y;
                let cur: bool = display[idx];
                if cur {
                    hit = true;
                }
                display[idx] = !cur;
            }
            col += 1;
        }
        row += 1;
    }
    hit
}

/// Copy registers `0..=x` into memory at `i`.
fn store_regs_cells(ram: &mut Vec<u8>, regs: &Vec<u8>, i: usize, x: usize)
    requires
        old(ram)@.len() == RAM_SIZE,
        regs@.len() == NUM_REGISTERS,
        x < NUM_REGISTERS,
        i + x < RAM_SIZE,
    ensures
        final(ram)@.len() == RAM_SIZE,
        forall|j: int| i <= j <= i + x ==> final(ram)@[j] == regs@[j - i],
        forall|j: int|
            0 <= j < RAM_SIZE && !(i <= j <= i + x) ==> final(ram)@[j] == old(ram)@[j],
{
    let mut k: usize = 0;
    while k <= x
        invariant
            k <= x + 1,
            x < NUM_REGISTERS,
            i + x < RAM_SIZE,
            regs@.len() == NUM_REGISTERS,
            ram@.len() == RAM_SIZE,
            forall|j: int| i <= j < i + k ==> ram@[j] == regs@[j - i],
            forall|j: int| 0 <= j < RAM_SIZE && !(i <= j < i + k) ==> ram@[j] == old(ram)@[j],
        decreases x + 1 - k,
    {
        ram[i + k] = regs[k];
        k += 1;
    }
}

/// Copy memory at `i` into registers `0..=x`.
fn load_regs_cells(regs: &mut Vec<u8>, ram: &Vec<u8>, i: usize, x: usize)
    requires
        old(regs)@.len() == NUM_REGISTERS,
        ram@.len() == RAM_SIZE,
        x < NUM_REGISTERS,
        i + x < RAM_SIZE,
    ensures
        final(regs)@.len() == NUM_REGISTERS,
        forall|j: int| 0 <= j <= x ==> final(regs)@[j] == ram@[i + j],
        forall|j: int| x < j < NUM_REGISTERS ==> final(regs)@[j] == old(regs)@[j],
{
    let mut k: usize = 0;
    while k <= x
        invariant
            k <= x + 1,
            x < NUM_REGISTERS,
            i + x < RAM_SIZE,
            ram@.len() == RAM_SIZE,
            regs@.len() == NUM_REGISTERS,
            forall|j: int| 0 <= j < k ==> regs@[j] == ram@[i + j],
            forall|j: int| k <= j < NUM_REGISTERS ==> regs@[j] == old(regs)@[j],
        decreases x + 1 - k,
    {
        regs[k] = ram[i + k];
        k += 1;
    }
}

/// The machine: the single aggregate owning all mutable state, driven by a
/// host through [`Hachi::tick`], [`Hachi::tick_timers`] and the key-event
/// and query operations.
///
/// Its view (`self@`) is the ghost state [`Chip`]; every operation's
/// contract is stated over that view. The derived equality lets a host (or
/// a test) compare two machines bit for bit; verified code never relies on
/// it.
#[derive(PartialEq, Eq)]
pub struct Hachi {
    program_counter: u16,
    ram: Vec<u8>,
    display: Vec<bool>,
    v_registers: Vec<u8>,
    i_register: u16,
    stack_pointer: u16,
    stack: Vec<u16>,
    keys: Vec<bool>,
    delay_timer: u8,
    sound_timer: u8,
}

impl View for Hachi {
    type V = Chip;

    closed spec fn view(&self) -> Chip {
        Chip {
            pc: self.program_counter,
            ram: self.ram@,
            display: self.display@,
            regs: self.v_registers@,
            ireg: self.i_register,
            sp: self.stack_pointer,
            stack: self.stack@,
            keys: self.keys@,
            delay: self.delay_timer,
            sound: self.sound_timer,
        }
    }
}

impl Hachi {
    /// A fresh machine: glyph table loaded, program counter at the start
    /// address, everything else zeroed.
    pub fn new() -> (r: Self)
        ensures
            r@ == fresh(),
            r@.wf(),
    {
        let mut ram = zero_bytes(RAM_SIZE);
        let f = font_bytes();
        let mut k: usize = 0;
        while k < FONT_SIZE
            invariant
                k <= FONT_SIZE,
                ram@.len() == RAM_SIZE,
                f@ == font(),
                forall|j: int| 0 <= j < k ==> ram@[j] == font()[j],
                forall|j: int| k <= j < RAM_SIZE ==> ram@[j] == 0u8,
            decreases FONT_SIZE - k,
        {
            ram[k] = f[k];
            k += 1;
        }
        let r = Hachi {
            program_counter: START_ADDRESS,
            ram,
            display: unlit_cells(DISPLAY_WIDTH * DISPLAY_HEIGHT),
            v_registers: zero_bytes(NUM_REGISTERS),
            i_register: 0,
            stack_pointer: 0,
            stack: zero_words(STACK_SIZE),
            keys: unlit_cells(NUM_KEYS),
            delay_timer: 0,
            sound_timer: 0,
        };
        proof {
            assert(r@.ram =~= fresh_ram());
            assert(r@ =~= fresh());
        }
        r
    }

    /// Restore the machine, bit for bit, to the state a fresh construction
    /// yields: glyph table reloaded, everything else zeroed.
    pub fn reset(&mut self)
        ensures
            final(self)@ == fresh(),
            final(self)@.wf(),
    {
        *self = Hachi::new();
    }

    /// Copy a program image into memory at the start address. The image must
    /// fit in memory; nothing else of the state changes.
    pub fn load(&mut self, data: &[u8])
        requires
            old(self)@.wf(),
            START_ADDRESS + data@.len() <= RAM_SIZE,
        ensures
            final(self)@.wf(),
            final(self)@ == (Chip { ram: loaded_ram(old(self)@.ram, data@), ..old(self)@ }),
    {
        let n: usize = data.len();
        let start: usize = START_ADDRESS as usize;
        let mut k: usize = 0;
        while k < n
            invariant
                k <= n,
                start == START_ADDRESS,
                start + n <= RAM_SIZE,
                self@ == (Chip { ram: self@.ram, ..old(self)@ }),
                self@.ram.len() == RAM_SIZE,
                data@.len() == n,
                forall|j: int| start <= j < start + k ==> self@.ram[j] == data@[j - start],
                forall|j: int|
                    0 <= j < RAM_SIZE && !(start <= j < start + k) ==> self@.ram[j] == old(
                        self,
                    )@.ram[j],
            decreases n - k,
        {
            self.ram[start + k] = data[k];
            k += 1;
        }
        proof {
            assert(self@.ram =~= loaded_ram(old(self)@.ram, data@));
            assert(self@ =~= (Chip { ram: loaded_ram(old(self)@.ram, data@), ..old(self)@ }));
        }
    }

    /// One timer step: each of the delay and sound timers is decremented by
    /// one if nonzero and floored at zero, so neither ever underflows,
    /// however often the host calls this.
    pub fn tick_timers(&mut self)
        ensures
            final(self)@ == (Chip {
                delay: dec(old(self)@.delay),
                sound: dec(old(self)@.sound),
                ..old(self)@
            }),
    {
        if self.delay_timer > 0 {
            self.delay_timer = self.delay_timer - 1;
        }
        if self.sound_timer > 0 {
            self.sound_timer = self.sound_timer - 1;
        }
    }

    /// Read-only view of the framebuffer, row-major, for the host to render.
    pub fn get_display(&self) -> (r: &[bool])
        ensures
            r@ == self@.display,
    {
        self.display.as_slice()
    }

    /// The sound timer's current value: the host plays a tone while nonzero.
    pub fn get_audio(&self) -> (r: u8)
        ensures
            r == self@.sound,
    {
        self.sound_timer
    }

    /// Record a key press or release from the host.
    pub fn keypress(&mut self, idx: usize, pressed: bool)
        requires
            old(self)@.wf(),
            idx < NUM_KEYS,
        ensures
            final(self)@.wf(),
            final(self)@ == (Chip { keys: old(self)@.keys.update(idx as int, pressed), ..old(self)@ }),
    {
        self.keys[idx] = pressed;
    }

    /// Value of a general-purpose register.
    pub fn get_register(&self, idx: usize) -> (r: u8)
        requires
            self@.wf(),
            idx < NUM_REGISTERS,
        ensures
            r == self@.regs[idx as int],
    {
        self.v_registers[idx]
    }

    /// Current program counter.
    pub fn get_program_counter(&self) -> (r: u16)
        ensures
            r == self@.pc,
    {
        self.program_counter
    }

    /// One fetch-decode-execute cycle, with the random byte drawn from the
    /// ambient generator. The outcome is some [`spec_tick`] transition: the
    /// choice of byte only ever affects the random-mask instruction.
    pub fn tick(&mut self) -> (r: Result<(), Fault>)
        requires
            old(self)@.wf(),
        ensures
            final(self)@.wf(),
            exists|rnd: u8| #[trigger] spec_tick(old(self)@, rnd) == (final(self)@, r),
    {
        let rnd: u8 = random_byte();
        let r = self.tick_with_random(rnd);
        proof {
            assert(spec_tick(old(self)@, rnd) == (self@, r));
        }
        r
    }

    /// One fetch-decode-execute cycle with the random byte supplied by the
    /// caller, for hosts that inject their own seedable source: the
    /// transition is then exactly [`spec_tick`] of the old state and `rnd`.
    pub fn tick_with_random(&mut self, rnd: u8) -> (r: Result<(), Fault>)
        requires
            old(self)@.wf(),
        ensures
            final(self)@.wf(),
            final(self)@ == spec_tick(old(self)@, rnd).0,
            r == spec_tick(old(self)@, rnd).1,
    {
        match self.fetch() {
            Ok(op) => self.execute(op, rnd),
            Err(f) => Err(f),
        }
    }

    /// Fetch the instruction word at the program counter and advance the
    /// counter by exactly two, before any instruction-specific change; fault
    /// without touching anything when the counter does not address a full
    /// word.
    fn fetch(&mut self) -> (r: Result<u16, Fault>)
        requires
            old(self)@.wf(),
        ensures
            final(self)@.wf(),
            match r {
                Ok(op) => old(self)@.pc + 1 < RAM_SIZE && op == fetched(old(self)@) && final(self)@
                    == (Chip { pc: (old(self)@.pc + 2) as u16, ..old(self)@ }),
                Err(f) => old(self)@.pc + 1 >= RAM_SIZE && f == Fault::ProgramCounterOutOfRange
                    && final(self)@ == old(self)@,
            },
    {
        let pc: usize = self.program_counter as usize;
        if pc + 1 >= RAM_SIZE {
            return Err(Fault::ProgramCounterOutOfRange);
        }
        let h: u8 = self.ram[pc];
        let l: u8 = self.ram[pc + 1];
        self.program_counter = self.program_counter + 2;
        Ok((h as u16) * 256 + (l as u16))
    }

    /// Push a return address: write at the stack pointer, then increment
    /// it; fault, changing nothing, when the stack is full.
    fn push(&mut self, val: u16) -> (r: Result<(), Fault>)
        requires
            old(self)@.wf(),
        ensures
            final(self)@.wf(),
            match r {
                Ok(()) => old(self)@.sp < STACK_SIZE && final(self)@ == (Chip {
                    sp: (old(self)@.sp + 1) as u16,
                    stack: old(self)@.stack.update(old(self)@.sp as int, val),
                    ..old(self)@
                }),
                Err(f) => f == Fault::StackOverflow && old(self)@.sp >= STACK_SIZE
                    && final(self)@ == old(self)@,
            },
    {
        if self.stack_pointer as usize >= STACK_SIZE {
            return Err(Fault::StackOverflow);
        }
        self.stack[self.stack_pointer as usize] = val;
        self.stack_pointer = self.stack_pointer + 1;
        Ok(())
    }

    /// Pop a return address: decrement the stack pointer, then read; fault,
    /// changing nothing, when the stack is empty.
    fn pop(&mut self) -> (r: Result<u16, Fault>)
        requires
            old(self)@.wf(),
        ensures
            final(self)@.wf(),
            match r {
                Ok(addr) => old(self)@.sp > 0 && addr == old(self)@.stack[old(self)@.sp - 1]
                    && final(self)@ == (Chip { sp: (old(self)@.sp - 1) as u16, ..old(self)@ }),
                Err(f) => f == Fault::StackUnderflow && old(self)@.sp == 0 && final(self)@
                    == old(self)@,
            },
    {
        if self.stack_pointer == 0 {
            return Err(Fault::StackUnderflow);
        }
        self.stack_pointer = self.stack_pointer - 1;
        Ok(self.stack[self.stack_pointer as usize])
    }

    /// Apply one already-fetched instruction word, using `rnd` where the
    /// instruction asks for a random byte.
    fn execute(&mut self, op: u16, rnd: u8) -> (r: Result<(), Fault>)
        requires
            old(self)@.wf(),
            2 <= old(self)@.pc,
            old(self)@.pc <= RAM_SIZE,
        ensures
            final(self)@.wf(),
            final(self)@ == spec_execute(old(self)@, op, rnd).0,
            r == spec_execute(old(self)@, op, rnd).1,
    {
        let d1: u16 = op / 0x1000;
        let d2: u16 = (op / 0x100) % 16;
        let d3: u16 = (op / 16) % 16;
        let d4: u16 = op % 16;
        let x: usize = d2 as usize;
        let y: usize = d3 as usize;
        let nn: u8 = (op % 256) as u8;
        let nnn: u16 = op % 0x1000;
        if d1 == 0 && d2 == 0 && d3 == 0 && d4 == 0 {
            Ok(())
        } else if d1 == 0 && d2 == 0 && d3 == 0xE && d4 == 0 {
            clear_cells(&mut self.display);
            Ok(())
        } else if d1 == 0 && d2 == 0 && d3 == 0xE && d4 == 0xE {
            match self.pop() {
                Ok(addr) => {
                    self.program_counter = addr;
                    Ok(())
                },
                Err(f) => Err(f),
            }
        } else if d1 == 1 {
            self.program_counter = nnn;
            Ok(())
        } else if d1 == 2 {
            match self.push(self.program_counter) {
                Ok(()) => {
                    self.program_counter = nnn;
                    Ok(())
                },
                Err(f) => Err(f),
            }
        } else if d1 == 3 {
            if self.v_registers[x] == nn {
                self.program_counter = self.program_counter + 2;
            }
            Ok(())
        } else if d1 == 4 {
            if self.v_registers[x] != nn {
                self.program_counter = self.program_counter + 2;
            }
            Ok(())
        } else if d1 == 5 && d4 == 0 {
            if self.v_registers[x] == self.v_registers[y] {
                self.program_counter = self.program_counter + 2;
            }
            Ok(())
        } else if d1 == 6 {
            self.v_registers[x] = nn;
            Ok(())
        } else if d1 == 7 {
            let sum: u16 = self.v_registers[x] as u16 + nn as u16;
            self.v_registers[x] = if sum > 255 {
                (sum - 256) as u8
            } else {
                sum as u8
            };
            Ok(())
        } else if d1 == 8 && (d4 <= 7 || d4 == 0xE) {
            self.op_alu(x, y, d4);
            Ok(())
        } else if d1 == 9 && d4 == 0 {
            if self.v_registers[x] != self.v_registers[y] {
                self.program_counter = self.program_counter + 2;
            }
            Ok(())
        } else if d1 == 0xA {
            self.i_register = nnn;
            Ok(())
        } else if d1 == 0xB {
            self.program_counter = self.v_registers[0] as u16 + nnn;
            Ok(())
        } else if d1 == 0xC {
            self.v_registers[x] = rnd & nn;
            Ok(())
        } else if d1 == 0xD {
            self.op_draw(x, y, d4)
        } else if d1 == 0xE && d3 == 9 && d4 == 0xE {
            let vx: u8 = self.v_registers[x];
            if vx as usize >= NUM_KEYS {
                Err(Fault::KeyOutOfRange)
            } else {
                if self.keys[vx as usize] {
                    self.program_counter = self.program_counter + 2;
                }
                Ok(())
            }
        } else if d1 == 0xE && d3 == 0xA && d4 == 1 {
            let vx: u8 = self.v_registers[x];
            if vx as usize >= NUM_KEYS {
                Err(Fault::KeyOutOfRange)
            } else {
                if !self.keys[vx as usize] {
                    self.program_counter = self.program_counter + 2;
                }
                Ok(())
            }
        } else if d1 == 0xF {
            self.op_misc(x, d3, d4, op)
        } else {
            Err(Fault::UnknownOpcode(op))
        }
    }

    /// The register-to-register arithmetic/logic group.
    fn op_alu(&mut self, x: usize, y: usize, k: u16)
        requires
            old(self)@.wf(),
            x < NUM_REGISTERS,
            y < NUM_REGISTERS,
            k <= 7 || k == 0xE,
        ensures
            final(self)@.wf(),
            final(self)@ == spec_alu(old(self)@, x as int, y as int, k as int),
    {
        let vx: u8 = self.v_registers[x];
        let vy: u8 = self.v_registers[y];
        if k == 0 {
            self.v_registers[x] = vy;
        } else if k == 1 {
            self.v_registers[x] = vx | vy;
        } else if k == 2 {
            self.v_registers[x] = vx & vy;
        } else if k == 3 {
            self.v_registers[x] = vx ^ vy;
        } else if k == 4 {
            let sum: u16 = vx as u16 + vy as u16;
            self.v_registers[x] = if sum > 255 {
                (sum - 256) as u8
            } else {
                sum as u8
            };
            self.v_registers[15] = if sum > 255 {
                1
            } else {
                0
            };
        } else if k == 5 {
            self.v_registers[x] = if vx >= vy {
                vx - vy
            } else {
                (vx as u16 + 256 - vy as u16) as u8
            };
            self.v_registers[15] = if vx >= vy {
                1
            } else {
                0
            };
        } else if k == 6 {
            self.v_registers[x] = vx / 2;
            self.v_registers[15] = vx % 2;
        } else if k == 7 {
            self.v_registers[x] = if vy >= vx {
                vy - vx
            } else {
                (vy as u16 + 256 - vx as u16) as u8
            };
            self.v_registers[15] = if vy >= vx {
                1
            } else {
                0
            };
        } else {
            self.v_registers[x] = if vx >= 128 {
                (vx - 128) * 2
            } else {
                vx * 2
            };
            self.v_registers[15] = if vx >= 128 {
                1
            } else {
                0
            };
        }
    }

    /// The draw instruction: bounds-check the sprite bytes, blit, and set
    /// the flag register from the collision outcome.
    fn op_draw(&mut self, x: usize, y: usize, n: u16) -> (r: Result<(), Fault>)
        requires
            old(self)@.wf(),
            x < NUM_REGISTERS,
            y < NUM_REGISTERS,
            n < 16,
        ensures
            final(self)@.wf(),
            final(self)@ == spec_draw(old(self)@, x as int, y as int, n as int).0,
            r == spec_draw(old(self)@, x as int, y as int, n as int).1,
    {
        if self.i_register as usize + n as usize > RAM_SIZE {
            return Err(Fault::MemoryOutOfRange);
        }
        let x0: u8 = self.v_registers[x];
        let y0: u8 = self.v_registers[y];
        let hit: bool = draw_cells(&mut self.display, &self.ram, self.i_register, x0, y0, n);
        self.v_registers[15] = if hit {
            1
        } else {
            0
        };
        Ok(())
    }

    /// The miscellaneous group (highest nibble `F`).
    fn op_misc(&mut self, x: usize, d3: u16, d4: u16, op: u16) -> (r: Result<(), Fault>)
        requires
            old(self)@.wf(),
            x < NUM_REGISTERS,
            2 <= old(self)@.pc,
        ensures
            final(self)@.wf(),
            final(self)@ == spec_fx(old(self)@, x as int, d3 as int, d4 as int, op).0,
            r == spec_fx(old(self)@, x as int, d3 as int, d4 as int, op).1,
    {
        let vx: u8 = self.v_registers[x];
        if d3 == 0 && d4 == 7 {
            self.v_registers[x] = self.delay_timer;
            Ok(())
        } else if d3 == 0 && d4 == 0xA {
            match scan_keys(&self.keys) {
                Some(k) => {
                    self.v_registers[x] = k;
                },
                None => {
                    self.program_counter = self.program_counter - 2;
                },
            }
            Ok(())
        } else if d3 == 1 && d4 == 5 {
            self.delay_timer = vx;
            Ok(())
        } else if d3 == 1 && d4 == 8 {
            self.sound_timer = vx;
            Ok(())
        } else if d3 == 1 && d4 == 0xE {
            let t: u32 = self.i_register as u32 + vx as u32;
            self.i_register = if t > 0xFFFF {
                (t - 0x10000) as u16
            } else {
                t as u16
            };
            Ok(())
        } else if d3 == 2 && d4 == 9 {
            self.i_register = vx as u16 * 5;
            Ok(())
        } else if d3 == 3 && d4 == 3 {
            let i: usize = self.i_register as usize;
            if i + 2 >= RAM_SIZE {
                Err(Fault::MemoryOutOfRange)
            } else {
                self.ram[i] = vx / 100;
                self.ram[i + 1] = (vx / 10) % 10;
                self.ram[i + 2] = vx % 10;
                Ok(())
            }
        } else if d3 == 5 && d4 == 5 {
            let i: usize = self.i_register as usize;
            if i + x >= RAM_SIZE {
                Err(Fault::MemoryOutOfRange)
            } else {
                store_regs_cells(&mut self.ram, &self.v_registers, i, x);
                proof {
                    assert(self@.ram =~= stored_regs(old(self)@, x as int));
                }
                Ok(())
            }
        } else if d3 == 6 && d4 == 5 {
            let i: usize = self.i_register as usize;
            if i + x >= RAM_SIZE {
                Err(Fault::MemoryOutOfRange)
            } else {
                load_regs_cells(&mut self.v_registers, &self.ram, i, x);
                proof {
                    assert(self@.regs =~= loaded_regs(old(self)@, x as int));
                }
                Ok(())
            }
        } else {
            Err(Fault::UnknownOpcode(op))
        }
    }
}

impl Default for Hachi {
    /// Same as [`Hachi::new`].
    fn default() -> (r: Self)
        ensures
            r@ == fresh(),
            r@.wf(),
    {
        Hachi::new()
    }
}

} // verus!
