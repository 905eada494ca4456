use vstd::prelude::*;

use crate::instruction::{kind_of, n_of, nn_of, x_of, y_of};
use crate::model::{
    addr, collides, covers_cell, draw_spec, exec_spec, tick_spec, ExecError, MachineView, FLAG,
    N_PIXELS,
};

verus! {

/// Every address is masked into memory: whatever `pc`, `I` or an immediate
/// holds, and whatever is added to it, the byte read or written lies within
/// the 4096 bytes. In particular fetch reads its two bytes there, and the word
/// it forms is exact.
pub proof fn lemma_addresses_in_memory(m: MachineView, a: int)
    requires
        m.wf(),
    ensures
        0 <= addr(a) < m.memory.len(),
        0 <= addr(m.pc as int) < m.memory.len(),
        0 <= addr(m.pc + 1) < m.memory.len(),
        m.word_at_pc() as int == m.memory[addr(m.pc as int)] * 0x100 + m.memory[addr(m.pc + 1)],
{
}

/// `7XNN` adds the immediate to VX modulo 256, leaves every other register,
/// VF included, as it was, and never fails.
pub proof fn lemma_add_immediate_wraps(m: MachineView, w: u16, keys: Seq<bool>, b: u8)
    requires
        m.wf(),
        kind_of(w) == 7,
    ensures
        exec_spec(m, w, keys, b) matches Ok((m1, _)) && m1.v == m.v.update(
            x_of(w),
            ((m.v[x_of(w)] + nn_of(w)) % 256) as u8,
        ),
{
}

/// `8XY4` adds VY to VX modulo 256 and never fails; VF is 1 exactly when the
/// unsigned sum of the two operands exceeds 255, else 0.
pub proof fn lemma_add_registers_carry(m: MachineView, w: u16, keys: Seq<bool>, b: u8)
    requires
        m.wf(),
        kind_of(w) == 8,
        n_of(w) == 4,
    ensures
        exec_spec(m, w, keys, b) matches Ok((m1, _)) && {
            let vx = m.v[x_of(w)];
            let vy = m.v[y_of(w)];
            &&& m1.v[FLAG as int] == if vx + vy > 255 { 1u8 } else { 0u8 }
            &&& x_of(w) != FLAG ==> m1.v[x_of(w)] == (vx + vy) % 256
        },
{
}

/// `8XY5` sets VF to 0 exactly when VX < VY before the subtraction, and to 1
/// otherwise; VX becomes VX - VY modulo 256.
pub proof fn lemma_sub_borrow(m: MachineView, w: u16, keys: Seq<bool>, b: u8)
    requires
        m.wf(),
        kind_of(w) == 8,
        n_of(w) == 5,
    ensures
        exec_spec(m, w, keys, b) matches Ok((m1, _)) && {
            let vx = m.v[x_of(w)];
            let vy = m.v[y_of(w)];
            &&& (m1.v[FLAG as int] == 0) == (vx < vy)
            &&& (m1.v[FLAG as int] == 1) == (vx >= vy)
            &&& x_of(w) != FLAG ==> m1.v[x_of(w)] == (vx - vy) % 256
        },
{
}

/// `8XY7` sets VF to 1 exactly when VX <= VY before the subtraction, and to 0
/// otherwise; VX becomes VY - VX modulo 256.
pub proof fn lemma_reverse_sub_borrow(m: MachineView, w: u16, keys: Seq<bool>, b: u8)
    requires
        m.wf(),
        kind_of(w) == 8,
        n_of(w) == 7,
    ensures
        exec_spec(m, w, keys, b) matches Ok((m1, _)) && {
            let vx = m.v[x_of(w)];
            let vy = m.v[y_of(w)];
            &&& (m1.v[FLAG as int] == 1) == (vx <= vy)
            &&& (m1.v[FLAG as int] == 0) == (vx > vy)
            &&& x_of(w) != FLAG ==> m1.v[x_of(w)] == (vy - vx) % 256
        },
{
}

/// Drawing the same sprite at the same place twice in a row restores the
/// display exactly, and the second draw reports a collision exactly when the
/// first one lit a cell. The place stays the same when neither coordinate
/// register is VF, which the first draw overwrites.
pub proof fn lemma_draw_twice_restores(m: MachineView, w: u16, keys: Seq<bool>, b1: u8, b2: u8)
    requires
        m.wf(),
        kind_of(w) == 0xD,
        x_of(w) != FLAG,
        y_of(w) != FLAG,
    ensures
        exec_spec(m, w, keys, b1) matches Ok((m1, _)) && exec_spec(m1, w, keys, b2) matches Ok(
            (m2, _),
        ) && m2.pixels == m.pixels && (m2.v[FLAG as int] == 1) == (exists|p: int|
            0 <= p < N_PIXELS && !m.pixels[p] && #[trigger] covers_cell(
                m.memory,
                m.index,
                m.v[x_of(w)] as int,
                m.v[y_of(w)] as int,
                n_of(w),
                p,
            )),
{
    let ox = m.v[x_of(w)] as int;
    let oy = m.v[y_of(w)] as int;
    let n = n_of(w);
    let m1 = draw_spec(m, w);
    assert(m1.v[x_of(w)] == m.v[x_of(w)]);
    assert(m1.v[y_of(w)] == m.v[y_of(w)]);
    let m2 = draw_spec(m1, w);
    assert(m2.pixels =~= m.pixels);
    if collides(m1.pixels, m1.memory, m1.index, ox, oy, n) {
        let q = choose|q: int|
            0 <= q < N_PIXELS && #[trigger] m1.pixels[q] && covers_cell(
                m1.memory,
                m1.index,
                ox,
                oy,
                n,
                q,
            );
        assert(!m.pixels[q] && covers_cell(m.memory, m.index, ox, oy, n, q));
    }
    if exists|p: int|
        0 <= p < N_PIXELS && !m.pixels[p] && #[trigger] covers_cell(m.memory, m.index, ox, oy, n, p) {
        let q = choose|p: int|
            0 <= p < N_PIXELS && !m.pixels[p] && #[trigger] covers_cell(
                m.memory,
                m.index,
                ox,
                oy,
                n,
                p,
            );
        assert(m1.pixels[q]);
    }
}

/// `00EE` with an empty call stack fails with `ReturnWithoutCall`; a failed
/// instruction leaves the state, `pc` included, as it was.
pub proof fn lemma_return_on_empty_stack(m: MachineView, keys: Seq<bool>, b: u8)
    requires
        m.stack.len() == 0,
    ensures
        exec_spec(m, 0x00EE, keys, b) == Err::<(MachineView, crate::model::Flow), ExecError>(
            ExecError::ReturnWithoutCall,
        ),
{
}

/// A call, followed at its target by a return, resumes at the word after the
/// call with the call stack as it was.
pub proof fn lemma_call_then_return(m: MachineView, w: u16, keys: Seq<bool>, b1: u8, b2: u8)
    requires
        kind_of(w) == 2,
    ensures
        exec_spec(m, w, keys, b1) matches Ok((m1, _)) && exec_spec(m1, 0x00EE, keys, b2) matches Ok(
            (m2, _),
        ) && m2.pc == m.pc && m2.stack == m.stack,
{
    let m1 = MachineView { pc: (w as int % 0x1000) as u16, stack: m.stack.push(m.pc), ..m };
    assert(m1.stack.drop_last() =~= m.stack);
}

/// The state after `k` ticks.
pub open spec fn after_ticks(m: MachineView, k: nat) -> MachineView
    decreases k,
{
    if k == 0 {
        m
    } else {
        after_ticks(tick_spec(m).0, (k - 1) as nat)
    }
}

/// Each timer counts down by one per tick and then holds at zero: a timer set
/// to `N` is nonzero for the first `N - 1` ticks, zero after exactly `N`, and
/// stays zero.
pub proof fn lemma_timers_count_down(m: MachineView, k: nat)
    ensures
        after_ticks(m, k).delay == if m.delay >= k {
            m.delay - k
        } else {
            0
        },
        after_ticks(m, k).sound == if m.sound >= k {
            m.sound - k
        } else {
            0
        },
        k < m.delay ==> after_ticks(m, k).delay > 0,
        k < m.sound ==> after_ticks(m, k).sound > 0,
    decreases k,
{
    if k > 0 {
        lemma_timers_count_down(tick_spec(m).0, (k - 1) as nat);
    }
}

} // verus!
