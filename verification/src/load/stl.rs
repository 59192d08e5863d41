//! Binary facet-list model decoding.
//!
//! The stream opens with a little-endian facet count; each facet is 50
//! bytes: a (skipped) normal and three corners of three 32-bit IEEE
//! scalars each, then two padding bytes. Scalars are decoded from their
//! bit patterns into fixed-point by exact integer arithmetic.

use vstd::prelude::*;

verus! {

use vstd::arithmetic::power2::{pow2, lemma_pow2_adds, lemma_pow2_pos, lemma2_to64,
    lemma2_to64_rest, lemma_pow2_strictly_increases};
use vstd::arithmetic::div_mod::{lemma_div_pos_is_pos, lemma_div_is_ordered,
    lemma_div_denominator};
use crate::fixed::iabs;
use crate::linear::{Vector, bounded, vec3};
use crate::scene::primitive::{Triangle, triangle_wf, degenerate, is_degenerate, VERTEX_LIMIT};

/// The little-endian 32-bit value at offset `i`.
pub open spec fn le32(data: Seq<u8>, i: int) -> int {
    data[i] + data[i + 1] * 0x100 + data[i + 2] * 0x1_0000 + data[i + 3] * 0x100_0000
}

/// The exponent field of an IEEE 32-bit scalar's bit pattern.
pub open spec fn f32_exp(b: int) -> int {
    b / 0x80_0000 % 0x100
}

/// The fraction field.
pub open spec fn f32_frac(b: int) -> int {
    b % 0x80_0000
}

/// The sign bit.
pub open spec fn f32_neg(b: int) -> bool {
    b >= 0x8000_0000
}

/// The fixed-point magnitude of a finite IEEE 32-bit scalar, rounded
/// toward zero: the significand shifted by the unbiased exponent plus
/// sixteen fractional bits. Subnormals are far below one raw step.
pub open spec fn f32_mag_fixed(b: int) -> int {
    let e = f32_exp(b);
    if e == 0 {
        0
    } else {
        let m = f32_frac(b) + 0x80_0000;
        if e >= 134 {
            m * pow2((e - 134) as nat)
        } else {
            m / pow2((134 - e) as nat) as int
        }
    }
}

/// The signed fixed-point value of a finite IEEE 32-bit scalar.
pub open spec fn f32_fixed(b: int) -> int {
    if f32_neg(b) {
        -f32_mag_fixed(b)
    } else {
        f32_mag_fixed(b)
    }
}

/// Read the little-endian 32-bit value at offset `i`.
fn read_u32(data: &Vec<u8>, i: usize) -> (r: u32)
    requires
        i + 4 <= data.len(),
    ensures
        r == le32(data@, i as int),
        0 <= r < 0x1_0000_0000,
{
    (data[i] as u32) + (data[i + 1] as u32) * 0x100 + (data[i + 2] as u32) * 0x1_0000 + (data[i
        + 3] as u32) * 0x100_0000
}

/// Decode an IEEE 32-bit bit pattern into a fixed-point scalar; refused
/// for infinities, not-a-numbers, and finite values beyond the 64-bit
/// raw range.
fn f32_to_fixed(bits: u32) -> (r: Option<i64>)
    ensures
        (r is Some) == (f32_exp(bits as int) != 255 && f32_mag_fixed(bits as int)
            <= 0x7fff_ffff_ffff_ffff),
        r matches Option::Some(v) ==> v == f32_fixed(bits as int),
{
    let e: u32 = bits / 0x80_0000 % 0x100;
    let frac: u32 = bits % 0x80_0000;
    let neg: bool = bits >= 0x8000_0000;
    if e == 255 {
        return Option::None;
    }
    if e == 0 {
        return Option::Some(0);
    }
    let m: u64 = (frac as u64) + 0x80_0000;
    if e >= 134 {
        let sh: u32 = e - 134;
        if sh > 39 {
            proof {
                lemma2_to64();
                lemma2_to64_rest();
                if sh > 40 {
                    lemma_pow2_strictly_increases(40, sh as nat);
                }
                assert(m * pow2(sh as nat) > 0x7fff_ffff_ffff_ffff) by (nonlinear_arith)
                    requires
                        m >= 0x80_0000,
                        pow2(sh as nat) >= pow2(40nat),
                        pow2(40nat) == 0x100_0000_0000,
                ;
            }
            return Option::None;
        }
        let mut acc: u64 = m;
        let mut k: u32 = 0;
        proof {
            lemma2_to64();
            lemma2_to64_rest();
        }
        while k < sh
            invariant
                0 <= k <= sh <= 39,
                m < 0x100_0000,
                acc == m * pow2(k as nat),
                acc < 0x100_0000 * pow2(k as nat),
            decreases sh - k,
        {
            proof {
                lemma_pow2_adds(k as nat, 1);
                lemma2_to64();
                lemma2_to64_rest();
                lemma_pow2_pos(k as nat);
                assert(pow2(k as nat) <= pow2(39nat)) by {
                    if k < 39 {
                        lemma_pow2_strictly_increases(k as nat, 39);
                    }
                }
                assert(acc * 2 == m * (pow2(k as nat) * 2) && acc * 2 < 0x100_0000 * (pow2(
                    k as nat,
                ) * 2) && acc * 2 <= 0x100_0000 * pow2(39nat) * 2) by (nonlinear_arith)
                    requires
                        acc == m * pow2(k as nat),
                        acc < 0x100_0000 * pow2(k as nat),
                        m < 0x100_0000,
                        0 < pow2(k as nat),
                        pow2(k as nat) <= pow2(39nat),
                ;
                assert(0x100_0000 * pow2(39nat) * 2 == 0x1_0000_0000_0000_0000) by {
                    lemma2_to64();
                }
            }
            acc = acc * 2;
            k = k + 1;
        }
        proof {
            lemma2_to64_rest();
            assert(pow2(sh as nat) <= pow2(39nat)) by {
                if sh < 39 {
                    lemma_pow2_strictly_increases(sh as nat, 39);
                }
            }
            assert(acc <= 0x7fff_ffff_ffff_ffff) by (nonlinear_arith)
                requires
                    acc < 0x100_0000 * pow2(sh as nat),
                    pow2(sh as nat) <= pow2(39nat),
                    pow2(39nat) == 0x80_0000_0000,
            ;
        }
        if neg {
            Option::Some(-(acc as i64))
        } else {
            Option::Some(acc as i64)
        }
    } else {
        let sh: u32 = 134 - e;
        let mut acc: u64 = m;
        let mut k: u32 = 0;
        proof {
            lemma2_to64();
        }
        while k < sh
            invariant
                0 <= k <= sh,
                acc == m as int / pow2(k as nat) as int,
                acc <= m,
                m < 0x100_0000,
            decreases sh - k,
        {
            proof {
                lemma_pow2_pos(k as nat);
                lemma_pow2_adds(k as nat, 1);
                lemma2_to64();
                lemma_div_denominator(m as int, pow2(k as nat) as int, 2);
                lemma_div_pos_is_pos(m as int, pow2(k as nat) as int);
            }
            acc = acc / 2;
            k = k + 1;
        }
        proof {
            lemma_pow2_pos(sh as nat);
            lemma_div_pos_is_pos(m as int, pow2(sh as nat) as int);
            lemma_div_is_ordered(m as int / pow2(sh as nat) as int, m as int, 1);
        }
        if neg {
            Option::Some(-(acc as i64))
        } else {
            Option::Some(acc as i64)
        }
    }
}

/// Why a facet stream was refused.
#[derive(Copy, Clone, Debug, PartialEq, Eq, Structural)]
pub enum StlError {
    /// The stream ends before the promised facet count is reached.
    Truncated,
    /// A corner coordinate is not finite or falls outside the world
    /// bounds.
    OutOfRange,
    /// A facet's corners span no plane.
    Degenerate,
}

/// One decoded corner of facet `k` (corner `j` of three, after the
/// skipped facet normal).
pub open spec fn stl_vertex(data: Seq<u8>, k: int, j: int) -> Vector {
    let base = 4 + 50 * k + 12 * (j + 1);
    vec3(
        f32_fixed(le32(data, base)),
        f32_fixed(le32(data, base + 4)),
        f32_fixed(le32(data, base + 8)),
    )
}

/// Decode the corner `j` of facet `k`, checking finiteness and world
/// bounds.
fn read_vertex(data: &Vec<u8>, k: usize, j: usize) -> (r: Option<Vector>)
    requires
        j < 3,
        4 + 50 * k + 50 <= data.len(),
    ensures
        r matches Option::Some(v) ==> v == stl_vertex(data@, k as int, j as int) && bounded(
            v,
            VERTEX_LIMIT as int,
        ),
        r is None ==> !(stl_vertex_ok(data@, k as int, j as int)),
        (r is Some) == stl_vertex_ok(data@, k as int, j as int),
{
    let base: usize = 4 + 50 * k + 12 * (j + 1);
    let bx: u32 = read_u32(data, base);
    let by: u32 = read_u32(data, base + 4);
    let bz: u32 = read_u32(data, base + 8);
    let x: Option<i64> = f32_to_fixed(bx);
    let y: Option<i64> = f32_to_fixed(by);
    let z: Option<i64> = f32_to_fixed(bz);
    match (x, y, z) {
        (Option::Some(xv), Option::Some(yv), Option::Some(zv)) => {
            if -VERTEX_LIMIT <= xv && xv <= VERTEX_LIMIT && -VERTEX_LIMIT <= yv && yv
                <= VERTEX_LIMIT && -VERTEX_LIMIT <= zv && zv <= VERTEX_LIMIT {
                Option::Some(Vector::new(xv, yv, zv))
            } else {
                Option::None
            }
        },
        _ => Option::None,
    }
}

/// The corner decodes to finite coordinates within the world bounds.
pub open spec fn stl_vertex_ok(data: Seq<u8>, k: int, j: int) -> bool {
    let base = 4 + 50 * k + 12 * (j + 1);
    &&& f32_exp(le32(data, base)) != 255 && iabs(f32_fixed(le32(data, base))) <= VERTEX_LIMIT
    &&& f32_exp(le32(data, base + 4)) != 255 && iabs(f32_fixed(le32(data, base + 4)))
        <= VERTEX_LIMIT
    &&& f32_exp(le32(data, base + 8)) != 255 && iabs(f32_fixed(le32(data, base + 8)))
        <= VERTEX_LIMIT
}

/// Every corner of every facet decodes within bounds and no facet is
/// degenerate.
pub open spec fn stl_ok(data: Seq<u8>, count: int) -> bool {
    forall|k: int, j: int|
        0 <= k < count && 0 <= j < 3 ==> #[trigger] stl_vertex_ok(data, k, j) && !degenerate(
            stl_vertex(data, k, 0),
            stl_vertex(data, k, 1),
            stl_vertex(data, k, 2),
        )
}

/// Decode a facet stream into triangles: a facet count, then per facet
/// a skipped normal, three corners and two padding bytes. Every corner
/// must be finite and within the world bounds, and every facet must
/// span a plane; all triangles carry material index zero.
pub fn load_stl(data: &Vec<u8>) -> (r: Result<Vec<Triangle>, StlError>)
    ensures
        (r is Ok) == (data@.len() >= 4 && data@.len() >= 4 + 50 * le32(data@, 0) && stl_ok(
            data@,
            le32(data@, 0),
        )),
        data@.len() >= 4 && r == Result::<Vec<Triangle>, StlError>::Err(StlError::Truncated)
            ==> data@.len() < 4 + 50 * le32(data@, 0),
        data@.len() >= 4 && (r == Result::<Vec<Triangle>, StlError>::Err(StlError::OutOfRange)
            || r == Result::<Vec<Triangle>, StlError>::Err(StlError::Degenerate)) ==> !stl_ok(
            data@,
            le32(data@, 0),
        ),
        r matches Result::Ok(ts) ==> {
            let count = le32(data@, 0);
            &&& ts@.len() == count
            &&& forall|k: int|
                0 <= k < count ==> (#[trigger] ts@[k]).a == stl_vertex(data@, k, 0)
                    && ts@[k].edge1 == (crate::linear::sub_vec(
                    stl_vertex(data@, k, 1),
                    stl_vertex(data@, k, 0),
                )) && ts@[k].edge2 == (crate::linear::sub_vec(
                    stl_vertex(data@, k, 2),
                    stl_vertex(data@, k, 0),
                )) && ts@[k].material_id == 0 && ts@[k].texture_map is None
                    && ts@[k].normal_map is None && triangle_wf(ts@[k])
        },
        data@.len() < 4 ==> (r matches Result::Err(e) && e == StlError::Truncated),
{
    if data.len() < 4 {
        return Result::Err(StlError::Truncated);
    }
    let facets: u32 = read_u32(data, 0);
    let mut triangles: Vec<Triangle> = Vec::new();
    let mut k: usize = 0;
    proof {
        assert(50 * facets + 4 <= 50 * 0x1_0000_0000 + 4) by (nonlinear_arith)
            requires
                facets <= 0xffff_ffff,
        ;
    }
    while k < facets as usize
        invariant
            data@.len() <= usize::MAX,
            facets == le32(data@, 0),
            0 <= k <= facets,
            triangles@.len() == k,
            forall|i: int, j: int| 0 <= i < k && 0 <= j < 3 ==> #[trigger] stl_vertex_ok(
                data@,
                i,
                j,
            ),
            forall|i: int|
                0 <= i < k ==> !degenerate(
                    stl_vertex(data@, i, 0),
                    stl_vertex(data@, i, 1),
                    stl_vertex(data@, i, 2),
                ),
            forall|i: int|
                0 <= i < k ==> (#[trigger] triangles@[i]).a == stl_vertex(data@, i, 0)
                    && triangles@[i].edge1 == (crate::linear::sub_vec(
                    stl_vertex(data@, i, 1),
                    stl_vertex(data@, i, 0),
                )) && triangles@[i].edge2 == (crate::linear::sub_vec(
                    stl_vertex(data@, i, 2),
                    stl_vertex(data@, i, 0),
                )) && triangles@[i].material_id == 0 && triangles@[i].texture_map is None
                    && triangles@[i].normal_map is None && triangle_wf(triangles@[i]),
            k == 0 || 4 + 50 * k <= data@.len(),
        decreases facets - k,
    {
        proof {
            assert(50 * k + 50 == 50 * (k + 1)) by (nonlinear_arith);
        }
        if (data.len() as u64) < 4 + 50 * (k as u64) + 50 {
            return Result::Err(StlError::Truncated);
        }
        let v1: Option<Vector> = read_vertex(data, k, 0);
        let v2: Option<Vector> = read_vertex(data, k, 1);
        let v3: Option<Vector> = read_vertex(data, k, 2);
        match (v1, v2, v3) {
            (Option::Some(a), Option::Some(b), Option::Some(c)) => {
                if is_degenerate(&a, &b, &c) {
                    proof {
                        assert(!stl_ok(data@, facets as int)) by {
                            if stl_ok(data@, facets as int) {
                                assert(stl_vertex_ok(data@, k as int, 0) && !degenerate(
                                    stl_vertex(data@, k as int, 0),
                                    stl_vertex(data@, k as int, 1),
                                    stl_vertex(data@, k as int, 2),
                                ));
                            }
                        }
                    }
                    return Result::Err(StlError::Degenerate);
                }
                let t: Triangle = Triangle::new(a, b, c, 0, Option::None, Option::None);
                triangles.push(t);
            },
            _ => {
                proof {
                    assert(!stl_ok(data@, facets as int)) by {
                        if stl_ok(data@, facets as int) {
                            assert(stl_vertex_ok(data@, k as int, 0));
                            assert(stl_vertex_ok(data@, k as int, 1));
                            assert(stl_vertex_ok(data@, k as int, 2));
                        }
                    }
                }
                return Result::Err(StlError::OutOfRange);
            },
        }
        k = k + 1;
    }
    Result::Ok(triangles)
}

} // verus!
