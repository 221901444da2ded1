//! The bitfield packer: given a field's bit offset (`end`), width and reset
//! value, and the enclosing register's width, validate the placement and
//! compute the field's contribution to the register's reset value.
use vstd::prelude::*;
use vstd::arithmetic::power2::{pow2, lemma_pow2_adds, lemma2_to64, lemma_pow2_pos};
use vstd::arithmetic::mul::lemma_mul_inequality;
use vstd::arithmetic::div_mod::{lemma_basic_div, lemma_div_non_zero};
use vstd::bits::{lemma_u64_shr_is_div, lemma_u64_shl_is_mul};

verus! {

/// Why a field cannot be packed.
#[derive(Debug, Clone, Copy, PartialEq, Eq, Structural)]
pub enum PackError {
    /// The field's offset plus width exceeds the register's width;
    /// fatal in every configuration.
    FieldTooWide,
    /// The reset value, shifted to the field's offset, would lose high
    /// bits; fatal in the strict configuration, a skipped contribution in
    /// the sanitize configuration.
    ResetValueOverflow,
}

/// Whether a reset value fits the bits from `end` up to the register width,
/// that is, loses nothing when shifted left by `end`.
pub open spec fn reset_fits(reset: u64, end: u64, rw: u64) -> bool
    recommends
        end <= rw <= 64,
{
    (reset as nat) < pow2((rw - end) as nat)
}

/// A packed field's contribution to the register's reset value: the field's
/// reset value shifted to its bit position.
pub open spec fn contribution(reset: u64, end: u64) -> nat {
    reset as nat * pow2(end as nat)
}

/// What packing yields: the placement check, then the value-fit check, then
/// the shifted contribution.
pub open spec fn pack_spec(end: u64, width: u64, reset: u64, rw: u64) -> Result<u64, PackError>
    recommends
        rw <= 64,
{
    if end + width > rw {
        Err(PackError::FieldTooWide)
    } else if !reset_fits(reset, end, rw) {
        Err(PackError::ResetValueOverflow)
    } else {
        Ok(contribution(reset, end) as u64)
    }
}

/// Decide whether `reset` fits the bits from `end` up to `rw`.
pub fn fits(reset: u64, end: u64, rw: u64) -> (r: bool)
    requires
        end <= rw <= 64,
    ensures
        r == reset_fits(reset, end, rw),
{
    let sh = rw - end;
    if sh == 64 {
        proof {
            lemma2_to64();
        }
        true
    } else {
        let high = reset >> sh;
        proof {
            lemma_u64_shr_is_div(reset, sh);
            lemma_pow2_pos(sh as nat);
            if (reset as nat) < pow2(sh as nat) {
                lemma_basic_div(reset as int, pow2(sh as nat) as int);
            } else {
                lemma_div_non_zero(reset as int, pow2(sh as nat) as int);
            }
        }
        high == 0
    }
}

/// Shift a fitting reset value to its bit position. The result lies within
/// the register: it has no bit set at position `rw` or above.
pub fn shift_to_position(reset: u64, end: u64, rw: u64) -> (r: u64)
    requires
        end <= rw <= 64,
        reset_fits(reset, end, rw),
    ensures
        r as nat == contribution(reset, end),
        (r as nat) < pow2(rw as nat),
{
    if reset == 0 {
        assert(contribution(0, end) == 0) by (nonlinear_arith);
        proof {
            lemma_pow2_pos(rw as nat);
        }
        0
    } else {
        // A non-zero fitting value forces end < rw <= 64.
        proof {
            lemma2_to64();
            if end == rw {
                assert(pow2(0) == 1);
                assert(false);
            }
            assert(end < rw <= 64);
            lemma_pow2_adds((rw - end) as nat, end as nat);
            lemma_pow2_pos(end as nat);
            lemma_mul_inequality(
                reset as int + 1,
                pow2((rw - end) as nat) as int,
                pow2(end as nat) as int,
            );
            assert((reset as int + 1) * pow2(end as nat) == reset as int * pow2(end as nat) + pow2(
                end as nat,
            )) by (nonlinear_arith);
            if rw < 64 {
                vstd::arithmetic::power2::lemma_pow2_strictly_increases(rw as nat, 64);
            }
            assert(reset as nat * pow2(end as nat) < pow2(64));
            lemma_u64_shl_is_mul(reset, end);
        }
        reset << end
    }
}

/// Pack one field: fail with [`PackError::FieldTooWide`] when the field does
/// not lie within the register, with [`PackError::ResetValueOverflow`] when
/// the reset value does not fit its position, and otherwise return the
/// field's contribution, the reset value shifted to its offset.
pub fn pack(end: u64, width: u64, reset_value: u64, register_width: u64) -> (r: Result<
    u64,
    PackError,
>)
    requires
        register_width <= 64,
    ensures
        r == pack_spec(end, width, reset_value, register_width),
{
    if end > register_width || width > register_width - end {
        Err(PackError::FieldTooWide)
    } else {
        if fits(reset_value, end, register_width) {
            Ok(shift_to_position(reset_value, end, register_width))
        } else {
            Err(PackError::ResetValueOverflow)
        }
    }
}

/// The OR of two values within the register's width stays within it.
pub proof fn lemma_or_bound(a: u64, b: u64, n: u64)
    requires
        n <= 64,
        (a as nat) < pow2(n as nat),
        (b as nat) < pow2(n as nat),
    ensures
        ((a | b) as nat) < pow2(n as nat),
{
    if n == 64 {
        lemma2_to64();
    } else {
        vstd::bits::lemma_u64_pow2_no_overflow(n as nat);
        lemma_u64_shl_is_mul(1u64, n);
        assert((a | b) < (1u64 << n)) by (bit_vector)
            requires
                a < (1u64 << n),
                b < (1u64 << n),
                n < 64u64,
        {}
    }
}

/// Fold one contribution into the register's accumulated reset value: a
/// first contribution starts it, a later one is OR-ed in.
pub open spec fn apply_contribution(accum: Option<u64>, c: u64) -> Option<u64> {
    match accum {
        Some(a) => Some(a | c),
        None => Some(c),
    }
}

/// The bitwise OR of all contributions.
pub open spec fn or_all(cs: Seq<u64>) -> u64
    decreases cs.len(),
{
    if cs.len() == 0 {
        0
    } else {
        or_all(cs.drop_last()) | cs.last()
    }
}

/// Folding contributions one at a time into an accumulator.
pub open spec fn accum_fold(init: Option<u64>, cs: Seq<u64>) -> Option<u64>
    decreases cs.len(),
{
    if cs.len() == 0 {
        init
    } else {
        apply_contribution(accum_fold(init, cs.drop_last()), cs.last())
    }
}

/// Accumulating contributions one at a time, starting from an absent
/// accumulator, yields exactly the bitwise OR of all of them; with no
/// contribution at all the accumulator stays absent.
pub proof fn lemma_accum_fold_is_or(cs: Seq<u64>)
    ensures
        cs.len() == 0 ==> accum_fold(None, cs) is None,
        cs.len() > 0 ==> accum_fold(None, cs) == Some(or_all(cs)),
    decreases cs.len(),
{
    if cs.len() == 1 {
        let c = cs.last();
        assert(0u64 | c == c) by (bit_vector);
        assert(accum_fold(None, cs.drop_last()) is None);
        assert(accum_fold(None, cs) == Some(c));
        assert(or_all(cs) == or_all(cs.drop_last()) | c);
        assert(or_all(cs.drop_last()) == 0);
    } else if cs.len() > 1 {
        lemma_accum_fold_is_or(cs.drop_last());
        assert(accum_fold(None, cs) == apply_contribution(
            Some(or_all(cs.drop_last())),
            cs.last(),
        ));
        assert(or_all(cs) == or_all(cs.drop_last()) | cs.last());
    }
}

} // verus!
