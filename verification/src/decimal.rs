//! Packed BCD and the decimal adjust (DAA) that follows an addition or a
//! subtraction of two BCD bytes.
use vstd::prelude::*;
use crate::isa::{execute_spec, misc_a_spec};
use crate::model::{CpuState, add_spec, bit_of, daa_spec, sub_spec, wrap8};
use crate::registers::{Registers, law_flag_set_get};

verus! {

/// A byte holding two decimal digits, one per nibble.
pub open spec fn is_bcd(v: u8) -> bool {
    v % 16 <= 9 && v / 16 <= 9
}

/// The number a BCD byte stands for.
pub open spec fn bcd_value(v: u8) -> int {
    (v / 16) * 10 + v % 16
}

/// The BCD byte of a number from 0 to 99.
pub open spec fn to_bcd(n: int) -> u8 {
    ((n / 10) * 16 + n % 10) as u8
}

/// The adjustment after an addition: the high digit is corrected exactly
/// when the decimal sum reaches 100, and the result is that sum's BCD form.
proof fn lemma_daa_add_arith(x: u8, y: u8, c: u8)
    by (bit_vector)
    requires
        is_bcd(x),
        is_bcd(y),
        0 <= c <= 1,
    ensures
        ({
            let sum = x + y + c;
            let a = wrap8(sum);
            let n = bcd_value(x) + bcd_value(y) + c;
            let up = sum > 255 || a > 0x99;
            let a1 = if up {
                wrap8(a + 0x60)
            } else {
                a
            };
            let a2 = if x % 16 + y % 16 + c > 15 || a1 % 16 > 9 {
                wrap8(a1 + 0x06)
            } else {
                a1
            };
            &&& up == (n >= 100)
            &&& a2 == to_bcd(n % 100)
            &&& (a2 == 0) == (n % 100 == 0)
        }),
{
}

/// The adjustment after a subtraction: the high digit is corrected exactly
/// when the decimal difference is negative (a borrow), and the result is the
/// BCD form of the difference modulo 100.
proof fn lemma_daa_sub_arith(x: u8, y: u8, c: u8)
    by (bit_vector)
    requires
        is_bcd(x),
        is_bcd(y),
        c <= 1,
    ensures
        ({
            let a = wrap8(x + 256 - y - c);
            let d = bcd_value(x) + 100 - bcd_value(y) - c;
            let a1 = if x < y + c {
                wrap8(a + 256 - 0x60)
            } else {
                a
            };
            let a2 = if x % 16 < y % 16 + c {
                wrap8(a1 + 256 - 0x06)
            } else {
                a1
            };
            &&& (x < y + c) == (d < 100)
            &&& a2 == to_bcd(d % 100)
            &&& (a2 == 0) == (d % 100 == 0)
        }),
{
}

/// DAA after an addition of two BCD bytes (ADD, or ADC with its carry in)
/// leaves in A the BCD form of the decimal sum modulo 100; C is set exactly
/// when that sum reaches 100, Z when A is zero, and H and N are clear.
pub proof fn law_daa_after_add(s: CpuState, y: u8, carry: bool)
    requires
        is_bcd(s.regs.a),
        is_bcd(y),
    ensures
        ({
            let t = execute_spec(s.with_regs(add_spec(s.regs, y, carry)), 0x27);
            let n = bcd_value(s.regs.a) + bcd_value(y) + bit_of(carry);
            &&& t.regs.a == to_bcd(n % 100)
            &&& t.regs.cf() == (n >= 100)
            &&& t.regs.zf() == (n % 100 == 0)
            &&& !t.regs.hf()
            &&& !t.regs.nf()
        }),
{
    let r = s.regs;
    let x = r.a;
    let c = bit_of(carry);
    let sum = x + y + c;
    lemma_daa_add_arith(x, y, c as u8);
    let rz = r.with_zf(wrap8(sum) == 0);
    let rn = rz.with_nf(false);
    let rh = rn.with_hf(x % 16 + y % 16 + c > 15);
    law_flag_set_get(r, wrap8(sum) == 0);
    law_flag_set_get(rz, false);
    law_flag_set_get(rn, x % 16 + y % 16 + c > 15);
    law_flag_set_get(rh, sum > 255);
    lemma_daa_result_flags(add_spec(r, y, carry));
}

/// DAA after a subtraction of two BCD bytes (SUB, or SBC with its carry in)
/// leaves in A the BCD form of the decimal difference modulo 100; C is set
/// exactly when the difference is negative (a borrow), Z when A is zero, N
/// stays set and H is clear.
pub proof fn law_daa_after_sub(s: CpuState, y: u8, carry: bool)
    requires
        is_bcd(s.regs.a),
        is_bcd(y),
    ensures
        ({
            let t = execute_spec(s.with_regs(sub_spec(s.regs, y, carry)), 0x27);
            let d = bcd_value(s.regs.a) - bcd_value(y) - bit_of(carry);
            &&& t.regs.a == to_bcd(d % 100)
            &&& t.regs.cf() == (d < 0)
            &&& t.regs.zf() == (d % 100 == 0)
            &&& !t.regs.hf()
            &&& t.regs.nf()
        }),
{
    let r = s.regs;
    let x = r.a;
    let c = bit_of(carry);
    let d = bcd_value(x) - bcd_value(y) - c;
    lemma_daa_sub_arith(x, y, c as u8);
    vstd::arithmetic::div_mod::lemma_mod_add_multiples_vanish(d, 100);
    let a = wrap8(x - y - c);
    lemma_wrap8_shift(x - y - c);
    lemma_wrap8_shift(a - 0x60);
    let a1 = if x < y + c {
        wrap8(a - 0x60)
    } else {
        a
    };
    lemma_wrap8_shift(a1 - 0x06);
    let rz = r.with_zf(a == 0);
    let rn = rz.with_nf(true);
    let rh = rn.with_hf(x % 16 < y % 16 + c);
    law_flag_set_get(r, a == 0);
    law_flag_set_get(rz, true);
    law_flag_set_get(rn, x % 16 < y % 16 + c);
    law_flag_set_get(rh, x < y + c);
    let r1 = sub_spec(r, y, carry);
    assert(r1.a == a && r1.nf() && r1.hf() == (x % 16 < y % 16 + c) && r1.cf() == (x < y + c));
    lemma_daa_result_flags(sub_spec(r, y, carry));
}

/// Adding 256 does not change the low byte.
proof fn lemma_wrap8_shift(v: int)
    ensures
        wrap8(v) == wrap8(v + 256),
{
    vstd::arithmetic::div_mod::lemma_mod_add_multiples_vanish(v, 256);
}

/// DAA writes Z from the adjusted A, clears H, sets C from the adjustment and
/// leaves N as it was.
proof fn lemma_daa_result_flags(r: Registers)
    ensures
        ({
            let (a, c) = daa_spec(r);
            let t = misc_a_spec(r, 4);
            &&& t.a == a
            &&& t.zf() == (a == 0)
            &&& !t.hf()
            &&& t.cf() == c
            &&& t.nf() == r.nf()
        }),
{
    let (a, c) = daa_spec(r);
    let q = Registers { a: a, ..r };
    law_flag_set_get(q, a == 0);
    law_flag_set_get(q.with_zf(a == 0), false);
    law_flag_set_get(q.with_zf(a == 0).with_hf(false), c);
}

} // verus!
