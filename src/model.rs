use vstd::prelude::*;

use crate::font::{FONT_ADDR, GLYPH_LEN};
use crate::instruction::{kind_of, n_of, nn_of, nnn_of, x_of, y_of};

verus! {

/// Bytes of guest memory.
pub const MEM_SIZE: usize = 4096;

/// Where a guest program is loaded and where execution starts.
pub const PROGRAM_START: u16 = 0x200;

/// Display width in pixels.
pub const SCREEN_W: usize = 64;

/// Display height in pixels.
pub const SCREEN_H: usize = 32;

/// Cells of the display, stored row by row.
pub const N_PIXELS: usize = 2048;

/// General-purpose registers V0 to VF.
pub const N_REGISTERS: usize = 16;

/// VF, the register that carries the carry, borrow and collision flags.
pub const FLAG: usize = 15;

/// What the run loop does after an instruction that succeeded.
#[derive(Clone, Copy, Debug, PartialEq, Eq, Structural)]
pub enum Flow {
    /// Go on with the next instruction.
    Next,
    /// Present the current frame, then wait until a key goes from released to
    /// pressed and store its index in `V[register]`.
    AwaitKey { register: u8 },
}

/// Why an instruction could not be executed. Both kinds end the run.
#[derive(Clone, Copy, Debug, PartialEq, Eq, Structural)]
pub enum ExecError {
    /// `00EE` with an empty call stack.
    ReturnWithoutCall,
    /// No opcode matches the word; `pc` is the program counter when it was met.
    UnknownInstruction { instruction: u16, pc: u16 },
}

/// What one 60 Hz tick asks of the presentation layer.
#[derive(Clone, Copy, Debug, PartialEq, Eq, Structural)]
pub struct Tick {
    /// The frame changed since it was last handed over: present it.
    pub present: bool,
    /// The tone is audible until the next tick.
    pub tone: bool,
}

/// The abstract state of the machine.
pub struct MachineView {
    pub memory: Seq<u8>,
    pub v: Seq<u8>,
    pub index: u16,
    pub pc: u16,
    pub stack: Seq<u16>,
    pub delay: u8,
    pub sound: u8,
    pub pixels: Seq<bool>,
    pub dirty: bool,
    pub shift_quirk: bool,
    pub ips: usize,
}

/// An address masked to the 12-bit address space.
pub open spec fn addr(a: int) -> int {
    a % 0x1000
}

pub open spec fn wrap8(a: int) -> u8 {
    (a % 0x100) as u8
}

pub open spec fn wrap16(a: int) -> u16 {
    (a % 0x10000) as u16
}

/// Whether key `k` is held in the snapshot `keys`; a value above 0xF names no key.
pub open spec fn key_down(keys: Seq<bool>, k: u8) -> bool {
    k < 16 && keys[k as int]
}

/// Whether bit `col` of a sprite row, counted from the most significant bit, is set.
pub open spec fn row_bit(b: u8, col: int) -> bool {
    (b >> ((7 - col) as u8)) & 1u8 == 1u8
}

/// Whether the `n`-row sprite read from memory at `index` and drawn with its
/// top-left corner at (`ox`, `oy`) has a set bit over the cell (`x`, `y`).
pub open spec fn sprite_covers(
    memory: Seq<u8>,
    index: u16,
    ox: int,
    oy: int,
    n: int,
    x: int,
    y: int,
) -> bool {
    let row = y - oy;
    let col = x - ox;
    &&& 0 <= row < n
    &&& 0 <= col < 8
    &&& row_bit(memory[addr(index + row)], col)
}

/// The cell of the display at flat position `p` is covered by the sprite.
pub open spec fn covers_cell(memory: Seq<u8>, index: u16, ox: int, oy: int, n: int, p: int) -> bool {
    sprite_covers(memory, index, ox, oy, n, p % 64, p / 64)
}

/// The display after XOR-ing the sprite into it. Cells that the sprite would
/// cover beyond the right or bottom edge are not drawn.
pub open spec fn drawn(
    pixels: Seq<bool>,
    memory: Seq<u8>,
    index: u16,
    ox: int,
    oy: int,
    n: int,
) -> Seq<bool> {
    Seq::new(
        N_PIXELS as nat,
        |p: int| pixels[p] != covers_cell(memory, index, ox, oy, n, p),
    )
}

/// Drawing the sprite turns at least one lit cell off.
pub open spec fn collides(
    pixels: Seq<bool>,
    memory: Seq<u8>,
    index: u16,
    ox: int,
    oy: int,
    n: int,
) -> bool {
    exists|p: int|
        0 <= p < N_PIXELS && #[trigger] pixels[p] && covers_cell(memory, index, ox, oy, n, p)
}

impl MachineView {
    pub open spec fn wf(self) -> bool {
        &&& self.memory.len() == MEM_SIZE
        &&& self.v.len() == N_REGISTERS
        &&& self.pixels.len() == N_PIXELS
    }

    pub open spec fn with_v(self, x: int, val: u8) -> MachineView {
        MachineView { v: self.v.update(x, val), ..self }
    }

    /// Skips the next instruction when `c` holds.
    pub open spec fn skip_if(self, c: bool) -> MachineView {
        if c {
            MachineView { pc: wrap16(self.pc + 2), ..self }
        } else {
            self
        }
    }

    /// The instruction word at `pc`, big-endian.
    pub open spec fn word_at_pc(self) -> u16 {
        (self.memory[addr(self.pc as int)] as int * 0x100 + self.memory[addr(self.pc + 1)] as int) as u16
    }

    /// The state after fetching: `pc` moved past the word.
    pub open spec fn fetched(self) -> MachineView {
        MachineView { pc: wrap16(self.pc + 2), ..self }
    }
}

pub open spec fn next(m: MachineView) -> Result<(MachineView, Flow), ExecError> {
    Ok((m, Flow::Next))
}

pub open spec fn unknown(m: MachineView, w: u16) -> Result<(MachineView, Flow), ExecError> {
    Err(ExecError::UnknownInstruction { instruction: w, pc: m.pc })
}

/// `00E0`, `00EE` and the other words that start with nibble 0.
pub open spec fn system_spec(m: MachineView, w: u16) -> Result<(MachineView, Flow), ExecError> {
    if w == 0x00E0 {
        next(MachineView { pixels: Seq::new(N_PIXELS as nat, |p: int| false), dirty: true, ..m })
    } else if w == 0x00EE {
        if m.stack.len() == 0 {
            Err(ExecError::ReturnWithoutCall)
        } else {
            next(MachineView { pc: m.stack.last(), stack: m.stack.drop_last(), ..m })
        }
    } else {
        unknown(m, w)
    }
}

/// The operand of a shift: VY under the shift quirk, else VX.
pub open spec fn shift_source(m: MachineView, x: int, y: int) -> u8 {
    if m.shift_quirk {
        m.v[y]
    } else {
        m.v[x]
    }
}

/// `8XY0` to `8XYE`; `op` is the lowest nibble.
pub open spec fn alu_spec(m: MachineView, w: u16) -> Result<(MachineView, Flow), ExecError> {
    let x = x_of(w);
    let y = y_of(w);
    let vx = m.v[x];
    let vy = m.v[y];
    let op = n_of(w);
    if op == 0 {
        next(m.with_v(x, vy))
    } else if op == 1 {
        next(m.with_v(x, vx | vy))
    } else if op == 2 {
        next(m.with_v(x, vx & vy))
    } else if op == 3 {
        next(m.with_v(x, vx ^ vy))
    } else if op == 4 {
        next(m.with_v(x, wrap8(vx + vy)).with_v(FLAG as int, if vx + vy > 0xFF { 1 } else { 0 }))
    } else if op == 5 {
        next(m.with_v(x, wrap8(vx - vy)).with_v(FLAG as int, if vx >= vy { 1 } else { 0 }))
    } else if op == 6 {
        let m1 = m.with_v(x, shift_source(m, x, y));
        let m2 = m1.with_v(FLAG as int, m1.v[x] & 1);
        next(m2.with_v(x, m2.v[x] >> 1u8))
    } else if op == 7 {
        next(m.with_v(x, wrap8(vy - vx)).with_v(FLAG as int, if vx <= vy { 1 } else { 0 }))
    } else if op == 0xE {
        let m1 = m.with_v(x, shift_source(m, x, y));
        let m2 = m1.with_v(x, wrap8(m1.v[x] * 2));
        next(m2.with_v(FLAG as int, m2.v[x] & 1))
    } else {
        unknown(m, w)
    }
}

/// `DXYN`: XOR an `N`-row sprite from memory at `I` onto the display at
/// (`VX`, `VY`); `VF` reports whether a lit cell was turned off.
pub open spec fn draw_spec(m: MachineView, w: u16) -> MachineView {
    let ox = m.v[x_of(w)] as int;
    let oy = m.v[y_of(w)] as int;
    let n = n_of(w);
    let hit = collides(m.pixels, m.memory, m.index, ox, oy, n);
    MachineView {
        pixels: drawn(m.pixels, m.memory, m.index, ox, oy, n),
        dirty: true,
        ..m
    }.with_v(FLAG as int, if hit { 1 } else { 0 })
}

/// Memory after `FX55`: `V0..=VX` stored from `I` on.
pub open spec fn stored_registers(m: MachineView, x: int) -> Seq<u8> {
    Seq::new(
        MEM_SIZE as nat,
        |a: int|
            {
                let off = (a - m.index) % 0x1000;
                if off <= x {
                    m.v[off]
                } else {
                    m.memory[a]
                }
            },
    )
}

/// Registers after `FX65`: `V0..=VX` loaded from `I` on.
pub open spec fn loaded_registers(m: MachineView, x: int) -> Seq<u8> {
    Seq::new(
        N_REGISTERS as nat,
        |i: int|
            if i <= x {
                m.memory[addr(m.index + i)]
            } else {
                m.v[i]
            },
    )
}

/// The words that start with nibble F, selected by their low byte.
pub open spec fn misc_spec(m: MachineView, w: u16) -> Result<(MachineView, Flow), ExecError> {
    let x = x_of(w);
    let vx = m.v[x];
    let op = nn_of(w);
    if op == 0x07 {
        next(m.with_v(x, m.delay))
    } else if op == 0x0A {
        Ok((MachineView { dirty: false, ..m }, Flow::AwaitKey { register: x as u8 }))
    } else if op == 0x15 {
        next(MachineView { delay: vx, ..m })
    } else if op == 0x18 {
        next(MachineView { sound: vx, ..m })
    } else if op == 0x1E {
        next(MachineView { index: wrap16(m.index + vx), ..m })
    } else if op == 0x29 {
        next(MachineView { index: (FONT_ADDR + vx * GLYPH_LEN) as u16, ..m })
    } else if op == 0x33 {
        let mem = m.memory.update(addr(m.index as int), (vx / 100) as u8).update(
            addr(m.index + 1),
            ((vx / 10) % 10) as u8,
        ).update(addr(m.index + 2), (vx % 10) as u8);
        next(MachineView { memory: mem, ..m })
    } else if op == 0x55 {
        next(MachineView { memory: stored_registers(m, x), ..m })
    } else if op == 0x65 {
        next(MachineView { v: loaded_registers(m, x), ..m })
    } else {
        unknown(m, w)
    }
}

/// The effect of executing the word `w` on state `m`, with the key snapshot
/// `keys` and the byte `random` that `CXNN` draws.
pub open spec fn exec_spec(m: MachineView, w: u16, keys: Seq<bool>, random: u8) -> Result<
    (MachineView, Flow),
    ExecError,
> {
    let x = x_of(w);
    let vx = m.v[x];
    let vy = m.v[y_of(w)];
    let nn = nn_of(w);
    let nnn = nnn_of(w);
    let kind = kind_of(w);
    if kind == 0 {
        system_spec(m, w)
    } else if kind == 1 {
        next(MachineView { pc: nnn as u16, ..m })
    } else if kind == 2 {
        next(MachineView { pc: nnn as u16, stack: m.stack.push(m.pc), ..m })
    } else if kind == 3 {
        next(m.skip_if(vx == nn))
    } else if kind == 4 {
        next(m.skip_if(vx != nn))
    } else if kind == 5 && n_of(w) == 0 {
        next(m.skip_if(vx == vy))
    } else if kind == 6 {
        next(m.with_v(x, nn as u8))
    } else if kind == 7 {
        next(m.with_v(x, wrap8(vx + nn)))
    } else if kind == 8 {
        alu_spec(m, w)
    } else if kind == 9 && n_of(w) == 0 {
        next(m.skip_if(vx != vy))
    } else if kind == 0xA {
        next(MachineView { index: nnn as u16, ..m })
    } else if kind == 0xB {
        next(MachineView { index: (nnn + m.v[0]) as u16, ..m })
    } else if kind == 0xC {
        next(m.with_v(x, random & (nn as u8)))
    } else if kind == 0xD {
        next(draw_spec(m, w))
    } else if kind == 0xE && nn == 0x9E {
        next(m.skip_if(key_down(keys, vx)))
    } else if kind == 0xE && nn == 0xA1 {
        next(m.skip_if(!key_down(keys, vx)))
    } else if kind == 0xF {
        misc_spec(m, w)
    } else {
        unknown(m, w)
    }
}

/// A call that returns `r` and leaves `new` behind did what `s` describes:
/// on success the state is the described one, on failure it is unchanged.
pub open spec fn follows(
    old: MachineView,
    new: MachineView,
    r: Result<Flow, ExecError>,
    s: Result<(MachineView, Flow), ExecError>,
) -> bool {
    match s {
        Ok((m, f)) => r == Ok::<Flow, ExecError>(f) && new == m,
        Err(e) => r == Err::<Flow, ExecError>(e) && new == old,
    }
}

/// One timer decrement, held at zero.
pub open spec fn count_down(t: u8) -> u8 {
    if t > 0 {
        (t - 1) as u8
    } else {
        0
    }
}

/// The effect of one 60 Hz tick.
pub open spec fn tick_spec(m: MachineView) -> (MachineView, Tick) {
    (
        MachineView { delay: count_down(m.delay), sound: count_down(m.sound), dirty: false, ..m },
        Tick { present: m.dirty, tone: m.sound > 0 },
    )
}

} // verus!
