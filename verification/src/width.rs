//! Arithmetic on bit-widths: the smallest result width that rules out
//! overflow for an addition, a multiplication and a left shift.

use vstd::arithmetic::power2::{lemma2_to64, lemma_pow2_pos, lemma_pow2_strictly_increases, pow2};
use vstd::bits::{lemma_u64_pow2_no_overflow, lemma_u64_shl_is_mul};
use vstd::prelude::*;

verus! {

/// The number of bits of a bit-vector value.
pub type WidthInt = u32;

/// The width of a sum of operands that are `a` and `b` bits wide: one carry
/// bit more than the wider operand.
pub open spec fn max_plus_1(a: int, b: int) -> int {
    if a >= b {
        a + 1
    } else {
        b + 1
    }
}

/// The largest amount that a shift amount of `shift_width` bits can express.
pub open spec fn max_shift(shift_width: nat) -> int {
    pow2(shift_width) - 1
}

/// The width of a `w` bit value shifted left by an amount that is
/// `shift_width` bits wide.
pub open spec fn width_of_left_shift(w: int, shift_width: nat) -> int {
    w + max_shift(shift_width)
}

/// An addition into `wo` bits of operands `wa` and `wb` bits wide cannot wrap.
pub open spec fn add_no_overflow(wo: int, wa: int, wb: int) -> bool {
    wo >= max_plus_1(wa, wb)
}

/// A multiplication into `wo` bits of operands `wa` and `wb` bits wide cannot
/// wrap.
pub open spec fn mul_no_overflow(wo: int, wa: int, wb: int) -> bool {
    wo >= wa + wb
}

/// A left shift into `wo` bits of a `wa` bit value by a `wb` bit amount loses
/// no bit.
pub open spec fn shift_no_overflow(wo: int, wa: int, wb: nat) -> bool {
    wo >= width_of_left_shift(wa, wb)
}

/// Computes `max(a, b) + 1`, or `None` where that is no `WidthInt`.
pub fn eval_width_max_plus_1(a: WidthInt, b: WidthInt) -> (res: Option<WidthInt>)
    ensures
        res == if max_plus_1(a as int, b as int) <= WidthInt::MAX {
            Some(max_plus_1(a as int, b as int) as WidthInt)
        } else {
            None
        },
{
    let wider: WidthInt = if a >= b { a } else { b };
    wider.checked_add(1)
}

/// Computes `w + (2^shift_width - 1)`, or `None` where that is no `WidthInt`.
pub fn eval_width_left_shift(w: WidthInt, shift_width: WidthInt) -> (res: Option<WidthInt>)
    ensures
        res == if width_of_left_shift(w as int, shift_width as nat) <= WidthInt::MAX {
            Some(width_of_left_shift(w as int, shift_width as nat) as WidthInt)
        } else {
            None
        },
{
    proof {
        lemma2_to64();
    }
    if shift_width > 32 {
        proof {
            lemma_pow2_strictly_increases(32, shift_width as nat);
        }
        None
    } else if shift_width == 32 {
        if w == 0 {
            Some(WidthInt::MAX)
        } else {
            None
        }
    } else {
        proof {
            lemma_pow2_strictly_increases(shift_width as nat, 32);
            lemma_u64_pow2_no_overflow(shift_width as nat);
            lemma_u64_shl_is_mul(1, shift_width as u64);
        }
        let amount: u64 = (1u64 << shift_width) - 1;
        let total: u64 = w as u64 + amount;
        if total <= WidthInt::MAX as u64 {
            Some(total as WidthInt)
        } else {
            None
        }
    }
}

/// Determines if there is no overflow possible for this addition.
pub fn add_no_ov(wo: WidthInt, wa: WidthInt, wb: WidthInt) -> (res: bool)
    ensures
        res == (wo >= (if wa >= wb { wa } else { wb }) + 1),
        res == add_no_overflow(wo as int, wa as int, wb as int),
{
    let wider: WidthInt = if wa >= wb { wa } else { wb };
    wo > wider
}

/// Determines if there is no overflow possible for this multiplication.
pub fn mul_no_ov(wo: WidthInt, wa: WidthInt, wb: WidthInt) -> (res: bool)
    ensures
        res == (wo >= wa + wb),
        res == mul_no_overflow(wo as int, wa as int, wb as int),
{
    wo as u64 >= wa as u64 + wb as u64
}

/// Determines if there is no overflow possible for this left shift.
pub fn lsh_no_ov(wo: WidthInt, wa: WidthInt, wb: WidthInt) -> (res: bool)
    ensures
        res == (wo >= wa + (pow2(wb as nat) - 1)),
        res == shift_no_overflow(wo as int, wa as int, wb as nat),
{
    proof {
        lemma_pow2_pos(wb as nat);
    }
    match eval_width_left_shift(wa, wb) {
        Some(needed) => wo >= needed,
        None => false,
    }
}

} // verus!
