//! Integer geometry for volume-conserving size arithmetic.
//!
//! A droplet of size `s` (a diameter in milli-units) has volume proxy
//! `(s / 2)^3`. Merges add volumes and trails subtract them; the resulting
//! size is recovered with a floor integer cube root, so conservation holds
//! up to the quantization gap stated by the bracketing contracts below.

use vstd::prelude::*;

verus! {

/// Largest admissible droplet size in milli-units; growth saturates here.
pub const SIZE_LIMIT: i64 = 1_000_000_000;

/// The cube of an integer.
pub open spec fn cube(x: int) -> int {
    x * x * x
}

/// Volume proxy of a droplet size: the cube of its radius.
pub open spec fn volume(size: int) -> int {
    cube(size / 2)
}

/// Cubing preserves (and strictly preserves) order on non-negative integers.
pub proof fn lemma_cube_monotone(a: int, b: int)
    requires
        0 <= a <= b,
    ensures
        cube(a) <= cube(b),
        a < b ==> cube(a) < cube(b),
{
    assert(a * a * a <= b * b * b && (a < b ==> a * a * a < b * b * b)) by (nonlinear_arith)
        requires
            0 <= a <= b,
    ;
}

/// Half of a non-negative value.
pub fn half(x: i64) -> (r: i64)
    requires
        x >= 0,
    ensures
        r == x / 2,
{
    ((x as u64) / 2) as i64
}

/// Floor cube root by binary search.
pub fn icbrt(n: u128) -> (r: u64)
    requires
        n < cube(1_000_000_001),
    ensures
        cube(r as int) <= n < cube(r as int + 1),
        r <= 1_000_000_000,
{
    let mut lo: u64 = 0;
    let mut hi: u64 = 1_000_000_001;
    while lo + 1 < hi
        invariant
            lo < hi <= 1_000_000_001,
            cube(lo as int) <= n,
            n < cube(hi as int),
        decreases hi - lo,
    {
        let mid = lo + (hi - lo) / 2;
        let m = mid as u128;
        assert(m * m < 0x8000_0000_0000_0000_0000_0000_0000_0000u128 && m * m * m
            < 0x8000_0000_0000_0000_0000_0000_0000_0000u128) by (nonlinear_arith)
            requires
                m <= 1_000_000_001,
        ;
        let c = m * m * m;
        if c <= n {
            lo = mid;
        } else {
            hi = mid;
        }
    }
    lo
}

/// Computes `cube(half(x))` for a size in `[0, SIZE_LIMIT]`.
fn half_cubed(x: i64) -> (r: u128)
    requires
        0 <= x <= SIZE_LIMIT,
    ensures
        r == volume(x as int),
        r <= cube(500_000_000),
{
    let h = half(x) as u128;
    proof {
        assert(h <= 500_000_000);
        assert(h * h < 0x8000_0000_0000_0000_0000_0000_0000_0000u128 && h * h * h
            < 0x8000_0000_0000_0000_0000_0000_0000_0000u128 && h * h * h <= cube(500_000_000))
            by (nonlinear_arith)
            requires
                h <= 500_000_000,
        ;
    }
    h * h * h
}

/// Size after a volume-conserving merge: the winner's and loser's volumes
/// are added and the sum is brought back to a size, saturating at
/// [`SIZE_LIMIT`] above and one milli-unit below.
///
/// The bracketing clauses are the conservation law: the merged volume
/// never exceeds the pair's summed volume and falls short of it by less
/// than one quantization step of the (even) result size.
pub fn grow_size(w: i64, l: i64) -> (r: i64)
    requires
        0 < w <= SIZE_LIMIT,
        0 < l <= SIZE_LIMIT,
    ensures
        1 <= r <= SIZE_LIMIT,
        r < SIZE_LIMIT ==> volume(r as int) <= volume(w as int) + volume(l as int) < volume(
            r as int + 2,
        ),
        r == SIZE_LIMIT ==> volume(w as int) + volume(l as int) >= volume(SIZE_LIMIT as int),
        r >= w - 1,
        r >= l - 1,
{
    let vw = half_cubed(w);
    let vl = half_cubed(l);
    proof {
        assert(cube(500_000_000) + cube(500_000_000) < cube(1_000_000_001));
    }
    let sum = vw + vl;
    let root = icbrt(sum);
    proof {
        lemma_cube_monotone(0, l as int / 2);
        lemma_cube_monotone(0, w as int / 2);
        if w as int / 2 > root as int {
            lemma_cube_monotone(root as int + 1, w as int / 2);
            assert(false);
        }
        if l as int / 2 > root as int {
            lemma_cube_monotone(root as int + 1, l as int / 2);
            assert(false);
        }
    }
    let doubled = 2 * root;
    if doubled >= SIZE_LIMIT as u64 {
        proof {
            lemma_cube_monotone(500_000_000, root as int);
            assert(volume(SIZE_LIMIT as int) == cube(500_000_000));
        }
        SIZE_LIMIT
    } else if doubled == 0 {
        proof {
            assert(cube(0) == 0 && cube(1) == 1) by (nonlinear_arith);
            assert(volume(1) == cube(0));
            assert(volume(3) == cube(1));
        }
        1
    } else {
        proof {
            assert(volume(doubled as int) == cube(root as int));
            assert(volume(doubled as int + 2) == cube(root as int + 1));
        }
        doubled as i64
    }
}

/// Parent size after emitting a trail droplet of size `t`: the trail's
/// volume is subtracted from the parent's and the remainder is brought
/// back to a size, saturating at one milli-unit when the subtraction
/// would not leave a positive volume.
///
/// The bracketing clauses are the symmetric conservation law: the volume
/// the parent keeps, plus the trail's volume, accounts for the parent's
/// whole volume up to one quantization step of the (even) result size.
pub fn shrink_size(p: i64, t: i64) -> (r: i64)
    requires
        0 < p <= SIZE_LIMIT,
        0 < t,
    ensures
        1 <= r <= p,
        volume(t as int) <= volume(p as int) ==> volume(r as int) <= volume(p as int) - volume(
            t as int,
        ) < volume(r as int + 2),
        volume(t as int) > volume(p as int) ==> r == 1,
{
    let vp = half_cubed(p);
    let vt = if t > p {
        proof {
            lemma_cube_monotone(p as int / 2, t as int / 2);
        }
        // the volume to subtract is at least the parent's whole volume
        vp + 1
    } else {
        proof {
            lemma_cube_monotone(t as int / 2, p as int / 2);
        }
        half_cubed(t)
    };
    let rem = if vt < vp {
        vp - vt
    } else {
        0
    };
    proof {
        assert(cube(500_000_000) < cube(1_000_000_001));
    }
    let root = icbrt(rem);
    proof {
        if root as int > p as int / 2 {
            lemma_cube_monotone(p as int / 2, root as int);
            assert(false);
        }
        if rem == 0 && root > 0 {
            lemma_cube_monotone(1, root as int);
            assert(false);
        }
    }
    let doubled = 2 * root;
    if doubled == 0 {
        proof {
            assert(cube(0) == 0 && cube(1) == 1) by (nonlinear_arith);
            assert(volume(1) == cube(0));
            assert(volume(3) == cube(1));
        }
        1
    } else {
        proof {
            assert(volume(doubled as int) == cube(root as int));
            assert(volume(doubled as int + 2) == cube(root as int + 1));
        }
        doubled as i64
    }
}

} // verus!
