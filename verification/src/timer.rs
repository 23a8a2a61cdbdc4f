//! The DIV/TIMA timer as a function of elapsed cycles.
use vstd::prelude::*;
use crate::isa::request_spec;
use crate::memory::{MemState, is_banking_register, law_read_after_write, law_write_frame};
use crate::model::REG_IF;
use crate::model::{CpuState, wrap16};

verus! {

/// DIV: the high byte of the free-running divider.
pub const REG_DIV: u16 = 0xFF04;

/// TIMA: the timer counter.
pub const REG_TIMA: u16 = 0xFF05;

/// TMA: the value TIMA reloads from when it overflows.
pub const REG_TMA: u16 = 0xFF06;

/// TAC: timer control (bit 2 enables TIMA, bits 1-0 select its rate).
pub const REG_TAC: u16 = 0xFF07;

/// CPU cycles per TIMA tick for the rate bits of TAC.
pub open spec fn timer_period(tac: u8) -> u32 {
    let sel = tac % 4;
    if sel == 0 {
        1024
    } else if sel == 1 {
        16
    } else if sel == 2 {
        64
    } else {
        256
    }
}

/// Whether TAC enables TIMA (bit 2).
pub open spec fn timer_enabled(tac: u8) -> bool {
    tac % 8 >= 4
}

/// One TIMA tick: TIMA increments; on overflow from 0xFF it reloads from TMA
/// and the timer interrupt (IF bit 2) is requested.
pub open spec fn tima_tick(m: MemState) -> MemState {
    let tima = m.read(REG_TIMA);
    if tima == 0xFF {
        request_spec(m.write(REG_TIMA, m.read(REG_TMA)), 2)
    } else {
        m.write(REG_TIMA, (tima + 1) as u8)
    }
}

/// `n` TIMA ticks.
pub open spec fn tima_ticks(m: MemState, n: nat) -> MemState
    decreases n,
{
    if n == 0 {
        m
    } else {
        tima_tick(tima_ticks(m, (n - 1) as nat))
    }
}

/// The timer after `cycles` CPU cycles: the divider advances and DIV shows
/// its high byte; when enabled, TIMA ticks once per full period accumulated,
/// and the remainder carries over to the next call.
pub open spec fn timer_spec(s: CpuState, cycles: u32) -> CpuState {
    let div = wrap16(s.div_counter + cycles);
    let m1 = s.mem.write(REG_DIV, (div / 256) as u8);
    let tac = m1.read(REG_TAC);
    let s1 = CpuState { div_counter: div, mem: m1, ..s };
    if !timer_enabled(tac) {
        s1
    } else {
        let period = timer_period(tac);
        let total = s.tima_counter + cycles;
        CpuState {
            tima_counter: (total % period as int) as u32,
            mem: tima_ticks(m1, (total / period as int) as nat),
            ..s1
        }
    }
}

pub proof fn lemma_tima_ticks_wf(m: MemState, n: nat)
    requires
        m.wf(),
    ensures
        tima_ticks(m, n).wf(),
    decreases n,
{
    if n > 0 {
        lemma_tima_ticks_wf(m, (n - 1) as nat);
    }
}

/// Writes to two different plain addresses commute.
proof fn lemma_write_commute(m: MemState, a: u16, x: u8, b: u16, y: u8)
    requires
        m.wf(),
        a != b,
        !is_banking_register(a),
        !is_banking_register(b),
    ensures
        m.write(a, x).write(b, y) == m.write(b, y).write(a, x),
{
    let l = m.write(a, x).write(b, y);
    let r = m.write(b, y).write(a, x);
    assert(l.ram =~= r.ram);
    assert(l.vram1 =~= r.vram1);
    assert(l.bg_pal =~= r.bg_pal);
    assert(l.obj_pal =~= r.obj_pal);
}

/// A second write to a plain address overrides the first.
proof fn lemma_write_twice(m: MemState, a: u16, x: u8, y: u8)
    requires
        m.wf(),
        !is_banking_register(a),
    ensures
        m.write(a, x).write(a, y) == m.write(a, y),
{
    let l = m.write(a, x).write(a, y);
    let r = m.write(a, y);
    assert(l.ram =~= r.ram);
    assert(l.vram1 =~= r.vram1);
}

/// TIMA ticks neither read nor write DIV.
proof fn lemma_ticks_commute_div(m: MemState, x: u8, n: nat)
    requires
        m.wf(),
    ensures
        tima_ticks(m.write(REG_DIV, x), n) == tima_ticks(m, n).write(REG_DIV, x),
        tima_ticks(m, n).wf(),
        tima_ticks(m, n).read(REG_TAC) == m.read(REG_TAC),
    decreases n,
{
    if n > 0 {
        lemma_ticks_commute_div(m, x, (n - 1) as nat);
        let p = tima_ticks(m, (n - 1) as nat);
        lemma_tima_ticks_wf(m, (n - 1) as nat);
        // Reads of TIMA, TMA and IF do not see the DIV write.
        law_write_frame(p, REG_DIV, x, REG_TIMA);
        law_write_frame(p, REG_DIV, x, REG_TMA);
        let tima = p.read(REG_TIMA);
        if tima == 0xFF {
            let p1 = p.write(REG_TIMA, p.read(REG_TMA));
            lemma_write_commute(p, REG_DIV, x, REG_TIMA, p.read(REG_TMA));
            law_write_frame(p1, REG_DIV, x, REG_IF);
            lemma_write_commute(p1, REG_DIV, x, REG_IF, p1.read(REG_IF) | (1u8 << 2u8));
            law_write_frame(p, REG_TIMA, p.read(REG_TMA), REG_TAC);
            law_write_frame(p1, REG_IF, p1.read(REG_IF) | (1u8 << 2u8), REG_TAC);
        } else {
            lemma_write_commute(p, REG_DIV, x, REG_TIMA, (tima + 1) as u8);
            law_write_frame(p, REG_TIMA, (tima + 1) as u8, REG_TAC);
        }
    }
}

/// Ticks compose additively.
proof fn lemma_ticks_add(m: MemState, a: nat, b: nat)
    ensures
        tima_ticks(tima_ticks(m, a), b) == tima_ticks(m, a + b),
    decreases b,
{
    if b > 0 {
        lemma_ticks_add(m, a, (b - 1) as nat);
        assert((a + b - 1) as nat == a + (b - 1) as nat);
    }
}

/// The timer depends only on the total number of cycles elapsed: running it
/// for `a` cycles and then `b` cycles is the same as running it for `a + b`.
pub proof fn law_timer_split(s: CpuState, a: u32, b: u32)
    requires
        s.mem.wf(),
        s.tima_counter + a + b <= u32::MAX,
    ensures
        timer_spec(timer_spec(s, a), b) == timer_spec(s, (a + b) as u32),
{
    let d1 = wrap16(s.div_counter + a);
    let d2 = wrap16(d1 + b);
    assert(d2 == wrap16(s.div_counter + (a + b) as u32));
    let x1 = (d1 / 256) as u8;
    let x2 = (d2 / 256) as u8;
    let m1 = s.mem.write(REG_DIV, x1);
    law_read_after_write(s.mem, REG_DIV, x1);
    law_write_frame(s.mem, REG_DIV, x1, REG_TAC);
    let tac = m1.read(REG_TAC);
    let s1 = timer_spec(s, a);
    if !timer_enabled(tac) {
        lemma_write_twice(s.mem, REG_DIV, x1, x2);
        law_write_frame(m1, REG_DIV, x2, REG_TAC);
    } else {
        let p = timer_period(tac) as int;
        let t1 = s.tima_counter + a;
        let n1 = (t1 / p) as nat;
        let r1 = t1 % p;
        lemma_ticks_commute_div(s.mem, x1, n1);
        let q = tima_ticks(s.mem, n1);
        assert(s1.mem == q.write(REG_DIV, x1));
        lemma_tima_ticks_wf(s.mem, n1);
        law_write_frame(q, REG_DIV, x1, REG_TAC);
        lemma_write_twice(q, REG_DIV, x1, x2);
        law_write_frame(q.write(REG_DIV, x1), REG_DIV, x2, REG_TAC);
        law_write_frame(q, REG_DIV, x2, REG_TAC);
        let t2 = r1 + b;
        let n2 = (t2 / p) as nat;
        lemma_ticks_commute_div(q, x2, n2);
        lemma_ticks_commute_div(s.mem, x2, n1 + n2);
        lemma_ticks_add(s.mem, n1, n2);
        assert(n1 + n2 == (s.tima_counter + a + b) / p && t2 % p == (s.tima_counter + a + b) % p)
            by (nonlinear_arith)
            requires
                p > 0,
                t1 >= 0,
                n1 == t1 / p,
                r1 == t1 % p,
                t2 == r1 + b,
                n2 == t2 / p,
                t1 == s.tima_counter + a,
        ;
    }
}

} // verus!
