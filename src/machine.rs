use rand::Rng;
use vstd::prelude::*;

use crate::font::{FONT, FONT_ADDR, GLYPH_LEN};
use crate::instruction::{decode, kind_of, n_of, x_of, y_of};
use crate::model::{
    addr, alu_spec, collides, covers_cell, draw_spec, drawn, exec_spec, follows,
    loaded_registers, misc_spec, shift_source, stored_registers, system_spec, tick_spec, wrap8,
    ExecError, Flow, MachineView, Tick, FLAG, MEM_SIZE, N_PIXELS, N_REGISTERS, PROGRAM_START,
    SCREEN_H, SCREEN_W,
};

verus! {

/// The machine: memory, registers, call stack, timers and display.
pub struct Chip8 {
    /// Instructions per second.
    ips: usize,
    memory: [u8; 4096],
    /// The display, row by row; cell (x, y) is at `y * 64 + x`.
    pixels: [bool; 2048],
    /// The display changed since it was last handed over.
    dirty: bool,
    pc: u16,
    /// The index register I.
    index: u16,
    /// Return addresses of the active subroutine calls.
    stack: Vec<u16>,
    delay: u8,
    sound: u8,
    v: [u8; 16],
    /// `8XY6` and `8XYE` copy VY into VX before shifting.
    shift_quirk: bool,
}

impl View for Chip8 {
    type V = MachineView;

    closed spec fn view(&self) -> MachineView {
        MachineView {
            memory: self.memory@,
            v: self.v@,
            index: self.index,
            pc: self.pc,
            stack: self.stack@,
            delay: self.delay,
            sound: self.sound,
            pixels: self.pixels@,
            dirty: self.dirty,
            shift_quirk: self.shift_quirk,
            ips: self.ips,
        }
    }
}

/// Colour of a lit cell, RGBA.
pub const ON_COLOR: [u8; 4] = [0xcd, 0xda, 0xff, 0xff];

/// Colour of a dark cell, RGBA.
pub const OFF_COLOR: [u8; 4] = [0x00, 0x0c, 0x1c, 0xff];

/// Byte `k` of the RGBA colour of a cell that is lit or not.
pub open spec fn color_byte(lit: bool, k: int) -> u8 {
    if lit {
        ON_COLOR@[k]
    } else {
        OFF_COLOR@[k]
    }
}

/// Relies on rand's `thread_rng().gen::<u8>()`: a byte from the thread-local
/// generator. Nothing is known of its value.
#[verifier::external_body]
fn random_byte() -> u8 {
    rand::thread_rng().gen::<u8>()
}

/// The sprite covers cell `p`, and the draw loop has reached it: its sprite
/// row is above `row`, or is `row` with its column left of `col`.
pub open spec fn drawn_before(
    m: MachineView,
    ox: int,
    oy: int,
    n: int,
    row: int,
    col: int,
    p: int,
) -> bool {
    &&& covers_cell(m.memory, m.index, ox, oy, n, p)
    &&& (p / 64 - oy < row || (p / 64 - oy == row && p % 64 - ox < col))
}

/// Two stages of the draw loop that have reached the same cells have met the
/// same lit cells.
proof fn lemma_same_reach(
    m0: MachineView,
    ox: int,
    oy: int,
    n: int,
    r1: int,
    c1: int,
    r2: int,
    c2: int,
)
    requires
        forall|q: int|
            0 <= q < N_PIXELS ==> drawn_before(m0, ox, oy, n, r1, c1, q) == drawn_before(
                m0,
                ox,
                oy,
                n,
                r2,
                c2,
                q,
            ),
    ensures
        (exists|q: int|
            0 <= q < N_PIXELS && m0.pixels[q] && #[trigger] drawn_before(m0, ox, oy, n, r1, c1, q))
            == (exists|q: int|
            0 <= q < N_PIXELS && m0.pixels[q] && #[trigger] drawn_before(m0, ox, oy, n, r2, c2, q)),
{
    if exists|q: int|
        0 <= q < N_PIXELS && m0.pixels[q] && #[trigger] drawn_before(m0, ox, oy, n, r1, c1, q) {
        let q = choose|q: int|
            0 <= q < N_PIXELS && m0.pixels[q] && #[trigger] drawn_before(m0, ox, oy, n, r1, c1, q);
        assert(drawn_before(m0, ox, oy, n, r2, c2, q));
    }
    if exists|q: int|
        0 <= q < N_PIXELS && m0.pixels[q] && #[trigger] drawn_before(m0, ox, oy, n, r2, c2, q) {
        let q = choose|q: int|
            0 <= q < N_PIXELS && m0.pixels[q] && #[trigger] drawn_before(m0, ox, oy, n, r2, c2, q);
        assert(drawn_before(m0, ox, oy, n, r1, c1, q));
    }
}

proof fn lemma_cell(x: int, y: int)
    requires
        0 <= x < 64,
        0 <= y,
    ensures
        (y * 64 + x) / 64 == y,
        (y * 64 + x) % 64 == x,
{
    assert((y * 64 + x) / 64 == y) by (nonlinear_arith)
        requires
            0 <= x < 64,
            0 <= y,
    ;
    assert((y * 64 + x) % 64 == x) by (nonlinear_arith)
        requires
            0 <= x < 64,
            0 <= y,
    ;
}

/// Memory of a fresh machine: the font at its base, zero elsewhere.
pub open spec fn initial_memory() -> Seq<u8> {
    Seq::new(
        MEM_SIZE as nat,
        |a: int|
            if FONT_ADDR <= a < FONT_ADDR + 80 {
                FONT@[a - FONT_ADDR]
            } else {
                0u8
            },
    )
}

/// Memory after copying `rom` from the load address on; bytes that would land
/// past the end of memory are dropped.
pub open spec fn loaded(memory: Seq<u8>, rom: Seq<u8>) -> Seq<u8> {
    Seq::new(
        memory.len(),
        |a: int|
            if PROGRAM_START <= a < PROGRAM_START + rom.len() {
                rom[a - PROGRAM_START]
            } else {
                memory[a]
            },
    )
}

impl Chip8 {
    /// Every state of the machine is well formed.
    pub proof fn lemma_wf(&self)
        ensures
            self@.wf(),
    {
    }

    /// A machine with the font loaded, `pc` at the load address, and all else
    /// zero, empty or off.
    pub fn new(ips: usize) -> (c: Chip8)
        requires
            ips > 0,
        ensures
            c@.memory == initial_memory(),
            c@.v == Seq::new(N_REGISTERS as nat, |i: int| 0u8),
            c@.index == 0,
            c@.pc == PROGRAM_START,
            c@.stack.len() == 0,
            c@.delay == 0,
            c@.sound == 0,
            c@.pixels == Seq::new(N_PIXELS as nat, |p: int| false),
            !c@.dirty,
            !c@.shift_quirk,
            c@.ips == ips,
    {
        let mut memory = [0u8; 4096];
        let base = FONT_ADDR as usize;
        for i in 0..80usize
            invariant
                base == FONT_ADDR,
                forall|a: int|
                    0 <= a < MEM_SIZE ==> #[trigger] memory@[a] == if base <= a < base + i {
                        FONT@[a - base]
                    } else {
                        0u8
                    },
        {
            memory[base + i] = FONT[i];
        }
        let c = Chip8 {
            ips,
            memory,
            pixels: [false; 2048],
            dirty: false,
            pc: PROGRAM_START,
            index: 0,
            stack: Vec::new(),
            delay: 0,
            sound: 0,
            v: [0u8; 16],
            shift_quirk: false,
        };
        assert(c@.memory =~= initial_memory());
        assert(c@.v =~= Seq::new(N_REGISTERS as nat, |i: int| 0u8));
        assert(c@.pixels =~= Seq::new(N_PIXELS as nat, |p: int| false));
        c
    }

    /// Chooses whether `8XY6` and `8XYE` shift VY (copied into VX) rather than VX.
    pub fn set_shift_quirk(&mut self, on: bool)
        ensures
            final(self)@ == (MachineView { shift_quirk: on, ..old(self)@ }),
    {
        self.shift_quirk = on;
    }

    /// Copies a program into memory from the load address on, byte by byte.
    /// Nothing is cleared first; bytes past the end of memory are dropped.
    pub fn load_rom(&mut self, rom: &[u8])
        ensures
            final(self)@ == (MachineView { memory: loaded(old(self)@.memory, rom@), ..old(self)@ }),
    {
        let start = PROGRAM_START as usize;
        let mut i: usize = 0;
        while i < rom.len() && start + i < 4096
            invariant
                start == PROGRAM_START,
                i <= rom.len(),
                start + i <= MEM_SIZE,
                self.memory@.len() == MEM_SIZE,
                forall|a: int|
                    0 <= a < MEM_SIZE ==> #[trigger] self.memory@[a] == if start <= a < start + i {
                        rom@[a - start]
                    } else {
                        old(self).memory@[a]
                    },
                self.v == old(self).v,
                self.pixels == old(self).pixels,
                self.stack == old(self).stack,
                self.ips == old(self).ips,
                self.dirty == old(self).dirty,
                self.pc == old(self).pc,
                self.index == old(self).index,
                self.delay == old(self).delay,
                self.sound == old(self).sound,
                self.shift_quirk == old(self).shift_quirk,
            decreases rom.len() - i,
        {
            self.memory[start + i] = rom[i];
            i = i + 1;
        }
        assert(self.memory@ =~= loaded(old(self)@.memory, rom@));
    }

    /// Reads the big-endian word at `pc` and moves `pc` past it. Both bytes are
    /// read at addresses masked to 12 bits.
    pub fn fetch_instruction(&mut self) -> (w: u16)
        ensures
            w == old(self)@.word_at_pc(),
            final(self)@ == old(self)@.fetched(),
    {
        let hi = self.memory[(self.pc % 0x1000) as usize];
        let lo = self.memory[(self.pc as usize + 1) % 0x1000];
        self.pc = self.pc.wrapping_add(2);
        (hi as u16) * 0x100 + lo as u16
    }

    /// One 60 Hz tick: both timers count down towards zero, and the frame is
    /// handed over if it changed.
    pub fn tick(&mut self) -> (t: Tick)
        ensures
            (final(self)@, t) == tick_spec(old(self)@),
    {
        let t = Tick { present: self.dirty, tone: self.sound > 0 };
        if self.delay > 0 {
            self.delay = self.delay - 1;
        }
        if self.sound > 0 {
            self.sound = self.sound - 1;
        }
        self.dirty = false;
        t
    }

    fn set_v(&mut self, x: usize, val: u8)
        requires
            x < N_REGISTERS,
        ensures
            final(self)@ == old(self)@.with_v(x as int, val),
    {
        self.v[x] = val;
    }

    fn skip_if(&mut self, c: bool)
        ensures
            final(self)@ == old(self)@.skip_if(c),
    {
        if c {
            self.pc = self.pc.wrapping_add(2);
        }
    }

    /// Writes `val` to VX, then the flag to VF.
    fn set_with_flag(&mut self, x: usize, val: u8, flag: bool)
        requires
            x < N_REGISTERS,
        ensures
            final(self)@ == old(self)@.with_v(x as int, val).with_v(
                FLAG as int,
                if flag { 1 } else { 0 },
            ),
    {
        self.v[x] = val;
        self.v[FLAG] = if flag { 1 } else { 0 };
    }

    /// `8XY6`: VF takes the low bit of the operand, then VX is shifted right.
    fn shift_right(&mut self, x: usize, y: usize)
        requires
            x < N_REGISTERS,
            y < N_REGISTERS,
        ensures
            ({
                let m1 = old(self)@.with_v(x as int, shift_source(old(self)@, x as int, y as int));
                let m2 = m1.with_v(FLAG as int, m1.v[x as int] & 1);
                final(self)@ == m2.with_v(x as int, m2.v[x as int] >> 1u8)
            }),
    {
        self.v[x] = if self.shift_quirk { self.v[y] } else { self.v[x] };
        self.v[FLAG] = self.v[x] & 1;
        self.v[x] = self.v[x] >> 1;
    }

    /// `8XYE`: VX is shifted left within 8 bits, then VF takes its low bit.
    fn shift_left(&mut self, x: usize, y: usize)
        requires
            x < N_REGISTERS,
            y < N_REGISTERS,
        ensures
            ({
                let m1 = old(self)@.with_v(x as int, shift_source(old(self)@, x as int, y as int));
                let m2 = m1.with_v(x as int, wrap8(m1.v[x as int] * 2));
                final(self)@ == m2.with_v(FLAG as int, m2.v[x as int] & 1)
            }),
    {
        self.v[x] = if self.shift_quirk { self.v[y] } else { self.v[x] };
        self.v[x] = ((self.v[x] as u16 * 2) % 0x100) as u8;
        self.v[FLAG] = self.v[x] & 1;
    }

    /// `00E0` clears the display; `00EE` returns from a subroutine.
    fn exec_system(&mut self, w: u16) -> (r: Result<Flow, ExecError>)
        ensures
            follows(old(self)@, final(self)@, r, system_spec(old(self)@, w)),
    {
        if w == 0x00E0 {
            self.pixels = [false; 2048];
            self.dirty = true;
            assert(self.pixels@ =~= Seq::new(N_PIXELS as nat, |p: int| false));
            Ok(Flow::Next)
        } else if w == 0x00EE {
            match self.stack.pop() {
                Some(ret) => {
                    self.pc = ret;
                    Ok(Flow::Next)
                },
                None => Err(ExecError::ReturnWithoutCall),
            }
        } else {
            Err(ExecError::UnknownInstruction { instruction: w, pc: self.pc })
        }
    }

    /// The register-to-register operations `8XY0` to `8XYE`.
    #[verifier::rlimit(40)]
    fn exec_alu(&mut self, w: u16) -> (r: Result<Flow, ExecError>)
        requires
            kind_of(w) == 8,
        ensures
            follows(old(self)@, final(self)@, r, alu_spec(old(self)@, w)),
    {
        let f = decode(w);
        let x = f.x;
        let vx = self.v[x];
        let vy = self.v[f.y];
        match f.n {
            0x0 => self.set_v(x, vy),
            0x1 => self.set_v(x, vx | vy),
            0x2 => self.set_v(x, vx & vy),
            0x3 => self.set_v(x, vx ^ vy),
            0x4 => self.set_with_flag(x, vx.wrapping_add(vy), vx as u16 + vy as u16 > 0xFF),
            0x5 => self.set_with_flag(x, vx.wrapping_sub(vy), vx >= vy),
            0x6 => self.shift_right(x, f.y),
            0x7 => self.set_with_flag(x, vy.wrapping_sub(vx), vx <= vy),
            0xE => self.shift_left(x, f.y),
            _ => {
                return Err(ExecError::UnknownInstruction { instruction: w, pc: self.pc });
            },
        }
        Ok(Flow::Next)
    }

    /// `DXYN`. The sprite is not wrapped: cells it would cover past the right
    /// or bottom edge of the display are left out.
    fn draw(&mut self, w: u16)
        ensures
            final(self)@ == draw_spec(old(self)@, w),
    {
        let ghost m0 = self@;
        let f = decode(w);
        let ox = self.v[f.x] as usize;
        let oy = self.v[f.y] as usize;
        let n = f.n as usize;
        let mut hit = false;
        let mut row: usize = 0;
        while row < n
            invariant
                m0 == old(self)@,
                row <= n,
                n == n_of(w),
                ox == m0.v[x_of(w)],
                oy == m0.v[y_of(w)],
                ox < 256,
                oy < 256,
                self@ == (MachineView { pixels: self@.pixels, ..m0 }),
                self.pixels@.len() == N_PIXELS,
                forall|p: int|
                    0 <= p < N_PIXELS ==> #[trigger] self.pixels@[p] == (m0.pixels[p]
                        != drawn_before(m0, ox as int, oy as int, n as int, row as int, 0, p)),
                hit == exists|p: int|
                    0 <= p < N_PIXELS && m0.pixels[p] && #[trigger] drawn_before(
                        m0,
                        ox as int,
                        oy as int,
                        n as int,
                        row as int,
                        0,
                        p,
                    ),
            decreases n - row,
        {
            let y = oy + row;
            if y < 32 {
                let bits = self.memory[(self.index as usize + row) % 4096];
                let mut col: usize = 0;
                while col < 8
                    invariant
                        m0 == old(self)@,
                        row < n,
                        n == n_of(w),
                        ox < 256,
                        y == oy + row,
                        y < 32,
                        bits == m0.memory[addr(m0.index + row)],
                        col <= 8,
                        self@ == (MachineView { pixels: self@.pixels, ..m0 }),
                        self.pixels@.len() == N_PIXELS,
                        forall|p: int|
                            0 <= p < N_PIXELS ==> #[trigger] self.pixels@[p] == (m0.pixels[p]
                                != drawn_before(
                                m0,
                                ox as int,
                                oy as int,
                                n as int,
                                row as int,
                                col as int,
                                p,
                            )),
                        hit == exists|p: int|
                            0 <= p < N_PIXELS && m0.pixels[p] && #[trigger] drawn_before(
                                m0,
                                ox as int,
                                oy as int,
                                n as int,
                                row as int,
                                col as int,
                                p,
                            ),
                    decreases 8 - col,
                {
                    let x = ox + col;
                    let ghost hit0 = hit;
                    let ghost cell = (y * 64 + x) as int;
                    let ghost drew = x < 64 && (bits >> (7 - col as u8)) & 1 == 1;
                    proof {
                        if x < 64 {
                            lemma_cell(x as int, y as int);
                        }
                    }
                    if x < 64 && (bits >> (7 - col as u8)) & 1 == 1 {
                        let p = y * 64 + x;
                        let was = self.pixels[p];
                        self.pixels[p] = !was;
                        if was {
                            hit = true;
                        }
                    }
                    proof {
                        let (fx, fy, fn_, r, c) = (ox as int, oy as int, n as int, row as int, col as int);
                        assert forall|q: int| 0 <= q < N_PIXELS implies #[trigger] drawn_before(
                            m0,
                            fx,
                            fy,
                            fn_,
                            r,
                            c + 1,
                            q,
                        ) == (drawn_before(m0, fx, fy, fn_, r, c, q) || (drew && q == cell)) by {
                            if q == cell && x < 64 {
                                lemma_cell(x as int, y as int);
                            }
                        }
                        if hit0 {
                            let q = choose|q: int|
                                0 <= q < N_PIXELS && m0.pixels[q] && #[trigger] drawn_before(
                                    m0,
                                    fx,
                                    fy,
                                    fn_,
                                    r,
                                    c,
                                    q,
                                );
                            assert(drawn_before(m0, fx, fy, fn_, r, c + 1, q));
                        }
                        if drew && m0.pixels[cell] {
                            assert(drawn_before(m0, fx, fy, fn_, r, c + 1, cell));
                        }
                        if exists|q: int|
                            0 <= q < N_PIXELS && m0.pixels[q] && #[trigger] drawn_before(
                                m0,
                                fx,
                                fy,
                                fn_,
                                r,
                                c + 1,
                                q,
                            ) {
                            let q = choose|q: int|
                                0 <= q < N_PIXELS && m0.pixels[q] && #[trigger] drawn_before(
                                    m0,
                                    fx,
                                    fy,
                                    fn_,
                                    r,
                                    c + 1,
                                    q,
                                );
                            assert(drawn_before(m0, fx, fy, fn_, r, c, q) || q == cell);
                        }
                    }
                    col = col + 1;
                }
                proof {
                    lemma_same_reach(m0, ox as int, oy as int, n as int, row as int, 8, row + 1, 0);
                }
            } else {
                proof {
                    lemma_same_reach(m0, ox as int, oy as int, n as int, row as int, 0, row + 1, 0);
                }
            }
            row = row + 1;
        }
        proof {
            let (fx, fy, fn_) = (ox as int, oy as int, n as int);
            assert forall|q: int| 0 <= q < N_PIXELS implies #[trigger] drawn_before(
                m0,
                fx,
                fy,
                fn_,
                fn_,
                0,
                q,
            ) == covers_cell(m0.memory, m0.index, fx, fy, fn_, q) by {}
            if hit {
                let q = choose|q: int|
                    0 <= q < N_PIXELS && m0.pixels[q] && #[trigger] drawn_before(
                        m0,
                        fx,
                        fy,
                        fn_,
                        fn_,
                        0,
                        q,
                    );
                assert(m0.pixels[q] && covers_cell(m0.memory, m0.index, fx, fy, fn_, q));
            }
            if collides(m0.pixels, m0.memory, m0.index, fx, fy, fn_) {
                let q = choose|q: int|
                    0 <= q < N_PIXELS && #[trigger] m0.pixels[q] && covers_cell(
                        m0.memory,
                        m0.index,
                        fx,
                        fy,
                        fn_,
                        q,
                    );
                assert(drawn_before(m0, fx, fy, fn_, fn_, 0, q));
            }
            assert(hit == collides(m0.pixels, m0.memory, m0.index, fx, fy, fn_));
        }
        self.v[FLAG] = if hit { 1 } else { 0 };
        self.dirty = true;
        assert(self.pixels@ =~= drawn(m0.pixels, m0.memory, m0.index, ox as int, oy as int, n as int));
    }

    /// The operations whose word starts with nibble F, selected by the low byte.
    fn exec_misc(&mut self, w: u16) -> (r: Result<Flow, ExecError>)
        requires
            kind_of(w) == 0xF,
        ensures
            follows(old(self)@, final(self)@, r, misc_spec(old(self)@, w)),
    {
        let f = decode(w);
        let x = f.x;
        let vx = self.v[x];
        match f.nn {
            0x07 => self.set_v(x, self.delay),
            0x0A => {
                self.dirty = false;
                return Ok(Flow::AwaitKey { register: x as u8 });
            },
            0x15 => self.delay = vx,
            0x18 => self.sound = vx,
            0x1E => self.index = self.index.wrapping_add(vx as u16),
            0x29 => self.index = FONT_ADDR + vx as u16 * GLYPH_LEN,
            0x33 => {
                let base = self.index as usize;
                self.memory[base % 4096] = vx / 100;
                self.memory[(base + 1) % 4096] = (vx / 10) % 10;
                self.memory[(base + 2) % 4096] = vx % 10;
            },
            0x55 => self.store_registers(x),
            0x65 => self.load_registers(x),
            _ => {
                return Err(ExecError::UnknownInstruction { instruction: w, pc: self.pc });
            },
        }
        Ok(Flow::Next)
    }

    /// `FX55`: `V0..=VX` to memory from `I` on.
    fn store_registers(&mut self, x: usize)
        requires
            x < N_REGISTERS,
        ensures
            final(self)@ == (MachineView {
                memory: stored_registers(old(self)@, x as int),
                ..old(self)@
            }),
    {
        let ghost m0 = self@;
        let base = self.index as usize;
        let mut i: usize = 0;
        while i <= x
            invariant
                m0 == old(self)@,
                x < N_REGISTERS,
                base == m0.index,
                i <= x + 1,
                self@ == (MachineView { memory: self@.memory, ..m0 }),
                self.memory@.len() == MEM_SIZE,
                forall|a: int|
                    0 <= a < MEM_SIZE ==> #[trigger] self.memory@[a] == {
                        let off = (a - base) % 0x1000;
                        if off < i {
                            m0.v[off]
                        } else {
                            m0.memory[a]
                        }
                    },
            decreases x + 1 - i,
        {
            self.memory[(base + i) % 4096] = self.v[i];
            i = i + 1;
        }
        assert(self.memory@ =~= stored_registers(m0, x as int));
    }

    /// `FX65`: `V0..=VX` from memory from `I` on.
    fn load_registers(&mut self, x: usize)
        requires
            x < N_REGISTERS,
        ensures
            final(self)@ == (MachineView {
                v: loaded_registers(old(self)@, x as int),
                ..old(self)@
            }),
    {
        let ghost m0 = self@;
        let base = self.index as usize;
        let mut i: usize = 0;
        while i <= x
            invariant
                m0 == old(self)@,
                x < N_REGISTERS,
                base == m0.index,
                i <= x + 1,
                self@ == (MachineView { v: self@.v, ..m0 }),
                self.v@.len() == N_REGISTERS,
                forall|j: int|
                    0 <= j < N_REGISTERS ==> #[trigger] self.v@[j] == if j < i {
                        m0.memory[addr(base + j)]
                    } else {
                        m0.v[j]
                    },
            decreases x + 1 - i,
        {
            self.v[i] = self.memory[(base + i) % 4096];
            i = i + 1;
        }
        assert(self.v@ =~= loaded_registers(m0, x as int));
    }

    /// Executes one instruction word against the key snapshot `keys`; `CXNN`
    /// uses `random` as its random byte. On failure nothing is changed.
    #[verifier::rlimit(60)]
    pub fn execute(&mut self, w: u16, keys: &[bool; 16], random: u8) -> (r: Result<Flow, ExecError>)
        ensures
            follows(old(self)@, final(self)@, r, exec_spec(old(self)@, w, keys@, random)),
    {
        let f = decode(w);
        let x = f.x;
        let vx = self.v[x];
        let vy = self.v[f.y];
        match f.kind {
            0x0 => {
                return self.exec_system(w);
            },
            0x1 => self.pc = f.nnn,
            0x2 => {
                self.stack.push(self.pc);
                self.pc = f.nnn;
            },
            0x3 => self.skip_if(vx == f.nn),
            0x4 => self.skip_if(vx != f.nn),
            0x5 if f.n == 0 => self.skip_if(vx == vy),
            0x6 => self.set_v(x, f.nn),
            0x7 => self.set_v(x, vx.wrapping_add(f.nn)),
            0x8 => {
                return self.exec_alu(w);
            },
            0x9 if f.n == 0 => self.skip_if(vx != vy),
            0xA => self.index = f.nnn,
            0xB => self.index = f.nnn + self.v[0] as u16,
            0xC => self.set_v(x, random & f.nn),
            0xD => self.draw(w),
            0xE if f.nn == 0x9E => self.skip_if(vx < 16 && keys[vx as usize]),
            0xE if f.nn == 0xA1 => self.skip_if(!(vx < 16 && keys[vx as usize])),
            0xF => {
                return self.exec_misc(w);
            },
            _ => {
                return Err(ExecError::UnknownInstruction { instruction: w, pc: self.pc });
            },
        }
        Ok(Flow::Next)
    }

    /// Executes one instruction word, drawing a random byte for `CXNN`. Every
    /// other instruction does what `execute` does with any byte.
    pub fn decode_and_execute(&mut self, w: u16, keys: &[bool; 16]) -> (r: Result<Flow, ExecError>)
        ensures
            exists|b: u8| follows(old(self)@, final(self)@, r, #[trigger] exec_spec(old(self)@, w, keys@, b)),
            kind_of(w) != 0xC ==> forall|b: u8|
                follows(old(self)@, final(self)@, r, #[trigger] exec_spec(old(self)@, w, keys@, b)),
    {
        let random = if w / 0x1000 == 0xC {
            random_byte()
        } else {
            0
        };
        let r = self.execute(w, keys, random);
        assert(follows(old(self)@, self@, r, exec_spec(old(self)@, w, keys@, random)));
        r
    }

    /// Fetches the word at `pc` and executes it. On failure `pc` stays past the
    /// word and nothing else is changed.
    pub fn step(&mut self, keys: &[bool; 16]) -> (r: Result<Flow, ExecError>)
        ensures
            exists|b: u8|
                follows(
                    old(self)@.fetched(),
                    final(self)@,
                    r,
                    #[trigger] exec_spec(old(self)@.fetched(), old(self)@.word_at_pc(), keys@, b),
                ),
            kind_of(old(self)@.word_at_pc()) != 0xC ==> forall|b: u8|
                follows(
                    old(self)@.fetched(),
                    final(self)@,
                    r,
                    #[trigger] exec_spec(old(self)@.fetched(), old(self)@.word_at_pc(), keys@, b),
                ),
    {
        let w = self.fetch_instruction();
        self.decode_and_execute(w, keys)
    }

    /// Ends a wait begun by `FX0A`: stores the index of the pressed key in
    /// `V[register]`. A register number above 0xF changes nothing.
    pub fn complete_key_wait(&mut self, register: u8, key: u8)
        ensures
            final(self)@ == if register < 16 {
                old(self)@.with_v(register as int, key)
            } else {
                old(self)@
            },
    {
        if register < 16 {
            self.v[register as usize] = key;
        }
    }

    /// The display, row by row.
    pub fn frame(&self) -> (f: [bool; 2048])
        ensures
            f@ == self@.pixels,
    {
        self.pixels
    }

    /// The display as RGBA bytes, four per cell, row by row.
    pub fn frame_rgba(&self) -> (out: Vec<u8>)
        ensures
            out@.len() == 4 * N_PIXELS,
            forall|i: int| 0 <= i < 4 * N_PIXELS ==> #[trigger] out@[i] == color_byte(self@.pixels[i / 4], i % 4),
    {
        let mut out: Vec<u8> = Vec::with_capacity(4 * 2048);
        let mut p: usize = 0;
        while p < 2048
            invariant
                p <= N_PIXELS,
                out@.len() == 4 * p,
                forall|i: int| 0 <= i < 4 * p ==> #[trigger] out@[i] == color_byte(self.pixels@[i / 4], i % 4),
            decreases 2048 - p,
        {
            let rgba = if self.pixels[p] { ON_COLOR } else { OFF_COLOR };
            let mut k: usize = 0;
            while k < 4
                invariant
                    p < N_PIXELS,
                    k <= 4,
                    rgba == if self.pixels@[p as int] { ON_COLOR } else { OFF_COLOR },
                    out@.len() == 4 * p + k,
                    forall|i: int| 0 <= i < 4 * p + k ==> #[trigger] out@[i] == color_byte(self.pixels@[i / 4], i % 4),
                decreases 4 - k,
            {
                out.push(rgba[k]);
                k = k + 1;
            }
            p = p + 1;
        }
        out
    }

    /// Whether the display changed since it was last handed over.
    pub fn is_dirty(&self) -> (d: bool)
        ensures
            d == self@.dirty,
    {
        self.dirty
    }

    /// The configured rate, in instructions per second.
    pub fn ips(&self) -> (r: usize)
        ensures
            r == self@.ips,
    {
        self.ips
    }

    /// The value of register `V[x]`.
    pub fn register(&self, x: usize) -> (r: u8)
        requires
            x < N_REGISTERS,
        ensures
            r == self@.v[x as int],
    {
        self.v[x]
    }

    /// The index register I.
    pub fn index(&self) -> (r: u16)
        ensures
            r == self@.index,
    {
        self.index
    }

    /// The program counter.
    pub fn pc(&self) -> (r: u16)
        ensures
            r == self@.pc,
    {
        self.pc
    }

    /// The number of subroutine calls that have not returned.
    pub fn stack_depth(&self) -> (r: usize)
        ensures
            r == self@.stack.len(),
    {
        self.stack.len()
    }

    /// The delay timer.
    pub fn delay_timer(&self) -> (r: u8)
        ensures
            r == self@.delay,
    {
        self.delay
    }

    /// The sound timer.
    pub fn sound_timer(&self) -> (r: u8)
        ensures
            r == self@.sound,
    {
        self.sound
    }

    /// The byte at `addr` masked to 12 bits.
    pub fn memory_at(&self, a: u16) -> (r: u8)
        ensures
            r == self@.memory[addr(a as int)],
    {
        self.memory[(a % 0x1000) as usize]
    }

    /// Whether the cell at column `x`, row `y` is lit.
    pub fn pixel(&self, x: usize, y: usize) -> (r: bool)
        requires
            x < SCREEN_W,
            y < SCREEN_H,
        ensures
            r == self@.pixels[y * 64 + x],
    {
        self.pixels[y * 64 + x]
    }
}

} // verus!
