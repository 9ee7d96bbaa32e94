//! Whole numbers taken through `f32`: `(q as f32).floor() as u32`.
//!
//! An `f32` carries 24 significant bits. A `u32` below 2^24 converts exactly;
//! a larger one is rounded to the nearest multiple of 2^s, where s is the
//! number of bits beyond the 24 most significant ones, ties going to the even
//! multiple. `floor` leaves such a value unchanged, and the conversion back to
//! `u32` saturates, so 2^32 comes back as `u32::MAX`.

use vstd::prelude::*;

verus! {

/// The number of low bits of `q` that an `f32` cannot hold.
pub open spec fn f32_shift(q: u32) -> nat {
    if q < 0x100_0000 {
        0
    } else if q < 0x200_0000 {
        1
    } else if q < 0x400_0000 {
        2
    } else if q < 0x800_0000 {
        3
    } else if q < 0x1000_0000 {
        4
    } else if q < 0x2000_0000 {
        5
    } else if q < 0x4000_0000 {
        6
    } else if q < 0x8000_0000 {
        7
    } else {
        8
    }
}

/// 2^s for the shifts that `f32_shift` gives.
pub open spec fn small_pow2(s: nat) -> nat {
    if s == 0 {
        1
    } else if s == 1 {
        2
    } else if s == 2 {
        4
    } else if s == 3 {
        8
    } else if s == 4 {
        16
    } else if s == 5 {
        32
    } else if s == 6 {
        64
    } else if s == 7 {
        128
    } else {
        256
    }
}

/// The value that `q as f32` holds: `q` rounded to the nearest multiple of
/// 2^f32_shift(q), ties to the even multiple.
pub open spec fn f32_value(q: u32) -> nat {
    let p = small_pow2(f32_shift(q));
    let m = q as nat / p;
    let r = q as nat % p;
    let h = p / 2;
    if p == 1 {
        q as nat
    } else if r > h || (r == h && m % 2 == 1) {
        (m + 1) * p
    } else {
        m * p
    }
}

/// `(q as f32).floor() as u32`.
pub open spec fn f32_floor_u32(q: u32) -> u32 {
    if f32_value(q) > u32::MAX {
        u32::MAX
    } else {
        f32_value(q) as u32
    }
}

/// Computes `(q as f32).floor() as u32` in integer arithmetic.
pub fn f32_floor_round_trip(q: u32) -> (r: u32)
    ensures
        r == f32_floor_u32(q),
        q < 0x100_0000 ==> r == q,
{
    let p: u64 = if q < 0x100_0000 {
        1
    } else if q < 0x200_0000 {
        2
    } else if q < 0x400_0000 {
        4
    } else if q < 0x800_0000 {
        8
    } else if q < 0x1000_0000 {
        16
    } else if q < 0x2000_0000 {
        32
    } else if q < 0x4000_0000 {
        64
    } else if q < 0x8000_0000 {
        128
    } else {
        256
    };
    assert(p == small_pow2(f32_shift(q)));
    if p == 1 {
        return q;
    }
    let qq: u64 = q as u64;
    let m: u64 = qq / p;
    let rem: u64 = qq % p;
    let h: u64 = p / 2;
    assert(m * p <= qq && qq < (m + 1) * p && (m + 1) * p <= qq + p) by (nonlinear_arith)
        requires
            m == qq / p,
            p > 1,
    ;
    let v: u64 = if rem > h || (rem == h && m % 2 == 1) {
        (m + 1) * p
    } else {
        m * p
    };
    assert(v == f32_value(q));
    if v > 0xffff_ffff {
        u32::MAX
    } else {
        v as u32
    }
}

} // verus!
