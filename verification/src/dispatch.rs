//! Problem sizing and 1-D dispatch for the two kernels.
//!
//! The join examines every candidate pair, so its problem size is
//! `left * right`; the distance kernel is elementwise, so its problem size
//! is the input length.  Either way the dispatch is one-dimensional with a
//! fixed per-workgroup thread count, rounded up to whole workgroups; the
//! kernel is bound by contract to no-op on thread ids at or beyond the
//! problem size.  A plan fixes, before any device work is issued, every
//! size the driver will use: buffer capacities, byte counts, and the
//! workgroup count.

use vstd::prelude::*;

use vstd::arithmetic::div_mod::{
    lemma_div_pos_is_pos,
    lemma_fundamental_div_mod,
    lemma_fundamental_div_mod_converse,
    lemma_mod_division_less_than_divisor,
    lemma_multiply_divide_lt,
};

use crate::layout::{DISTANCE_RECORD_BYTES, MATCH_RECORD_BYTES, POINT_RECORD_BYTES};

verus! {

/// Threads per workgroup: a fixed parameter of both kernels.
pub const WORKGROUP_THREADS: u64 = 64;

/// Number of 1-D workgroups that cover `problem_size` threads: the problem
/// size divided by the workgroup thread count, rounded up.
pub open spec fn workgroups_for(problem_size: int) -> int {
    (problem_size + 63) / 64
}

/// Rounding up to whole workgroups covers the problem exactly: every thread
/// id below the problem size is dispatched, and no whole workgroup is idle.
pub proof fn lemma_workgroups_cover(problem_size: int)
    requires
        0 <= problem_size,
    ensures
        workgroups_for(problem_size) * 64 >= problem_size,
        problem_size > 0 ==> (workgroups_for(problem_size) - 1) * 64 < problem_size,
        problem_size == 0 ==> workgroups_for(problem_size) == 0,
        0 <= workgroups_for(problem_size) <= problem_size,
{
    let q = (problem_size + 63) / 64;
    let r = (problem_size + 63) % 64;
    lemma_fundamental_div_mod(problem_size + 63, 64);
    lemma_mod_division_less_than_divisor(problem_size + 63, 64);
    assert(problem_size + 63 == 64 * q + r);
}

/// Everything the driver needs to run one spatial join: input lengths, the
/// worst-case match capacity, the output buffer size, and the dispatch
/// width.  Capacity is the worst case (every candidate pair matches), which
/// rules out device-side overflow whatever the kernel finds.
#[derive(Clone, Copy, PartialEq, Eq, Structural, Debug)]
pub struct JoinPlan {
    /// Number of rectangles on the left side.
    pub left_len: usize,
    /// Number of rectangles on the right side.
    pub right_len: usize,
    /// Match records the output buffer can hold: one per candidate pair.
    pub pair_capacity: u64,
    /// Bytes of the match output buffer.
    pub output_bytes: u64,
    /// 1-D workgroup count of the dispatch.
    pub workgroups: u32,
}

/// Size one spatial join.  Succeeds exactly when the candidate-pair count
/// fits the 32-bit output counter, which also keeps the workgroup count in
/// 32 bits; an empty side sizes to an empty dispatch rather than an error.
pub fn plan_join(left_len: usize, right_len: usize) -> (plan: Option<JoinPlan>)
    ensures
        plan is Some <==> left_len * right_len <= u32::MAX,
        plan matches Some(p) ==> {
            &&& p.left_len == left_len
            &&& p.right_len == right_len
            &&& p.pair_capacity == left_len * right_len
            &&& p.output_bytes == p.pair_capacity * MATCH_RECORD_BYTES
            &&& p.workgroups == workgroups_for(p.pair_capacity as int)
            &&& p.workgroups * WORKGROUP_THREADS >= p.pair_capacity
            &&& (left_len == 0 || right_len == 0) ==> (p.workgroups == 0 && p.output_bytes
                == 0)
        },
{
    if left_len == 0 || right_len == 0 {
        Some(
            JoinPlan {
                left_len,
                right_len,
                pair_capacity: 0,
                output_bytes: 0,
                workgroups: 0,
            },
        )
    } else if left_len > u32::MAX as usize || right_len > u32::MAX as usize {
        proof {
            assert(left_len * right_len >= left_len && left_len * right_len >= right_len)
                by (nonlinear_arith)
                requires
                    left_len >= 1,
                    right_len >= 1,
            ;
        }
        None
    } else {
        proof {
            assert(left_len * right_len <= 0xffff_ffff * 0xffff_ffff) by (nonlinear_arith)
                requires
                    left_len <= 0xffff_ffff,
                    right_len <= 0xffff_ffff,
            ;
        }
        let pair_capacity = (left_len as u64) * (right_len as u64);
        if pair_capacity > u32::MAX as u64 {
            None
        } else {
            proof {
                lemma_workgroups_cover(pair_capacity as int);
            }
            let workgroups = ((pair_capacity + 63) / 64) as u32;
            Some(
                JoinPlan {
                    left_len,
                    right_len,
                    pair_capacity,
                    output_bytes: pair_capacity * 8,
                    workgroups,
                },
            )
        }
    }
}

/// Everything the driver needs to run one distance computation: the common
/// input length and the sizes that follow from it.  The output is parallel
/// to the inputs, so its length is known before dispatch and a single
/// readback suffices.
#[derive(Clone, Copy, PartialEq, Eq, Structural, Debug)]
pub struct DistancePlan {
    /// Number of point pairs, and of output elements.
    pub len: usize,
    /// Bytes of each operand buffer.
    pub input_bytes: u64,
    /// Bytes of the output buffer: one 32-bit element per input pair.
    pub output_bytes: u64,
    /// 1-D workgroup count of the dispatch.
    pub workgroups: u32,
}

/// Size one distance computation.  The kernel pairs its operands
/// elementwise, so operand arrays of different lengths are rejected before
/// any device work is issued; the output length always equals the input
/// length.
pub fn plan_distance(a_len: usize, b_len: usize) -> (plan: Option<DistancePlan>)
    ensures
        plan is Some <==> (a_len == b_len && a_len <= u32::MAX),
        plan matches Some(p) ==> {
            &&& p.len == a_len
            &&& p.input_bytes == a_len * POINT_RECORD_BYTES
            &&& p.output_bytes == a_len * DISTANCE_RECORD_BYTES
            &&& p.workgroups == workgroups_for(a_len as int)
            &&& p.workgroups * WORKGROUP_THREADS >= a_len
        },
{
    if a_len != b_len || a_len > u32::MAX as usize {
        None
    } else {
        proof {
            lemma_workgroups_cover(a_len as int);
        }
        let len64 = a_len as u64;
        let workgroups = ((len64 + 63) / 64) as u32;
        Some(
            DistancePlan {
                len: a_len,
                input_bytes: len64 * 8,
                output_bytes: len64 * 4,
                workgroups,
            },
        )
    }
}

/// Left-array index examined by thread `t` of the join dispatch.
pub open spec fn thread_left_index(t: int, right_len: int) -> int {
    t / right_len
}

/// Right-array index examined by thread `t` of the join dispatch.
pub open spec fn thread_right_index(t: int, right_len: int) -> int {
    t % right_len
}

/// Every candidate pair `(i, j)` is examined by exactly one thread: the id
/// `i * right_len + j` lies below the problem size and decodes back to
/// `(i, j)`.
pub proof fn lemma_thread_id_of_pair(i: int, j: int, left_len: int, right_len: int)
    requires
        0 <= i < left_len,
        0 <= j < right_len,
    ensures
        0 <= i * right_len + j < left_len * right_len,
        thread_left_index(i * right_len + j, right_len) == i,
        thread_right_index(i * right_len + j, right_len) == j,
{
    lemma_fundamental_div_mod_converse(i * right_len + j, right_len, i, j);
    assert(i * right_len + j < left_len * right_len) by (nonlinear_arith)
        requires
            0 <= i < left_len,
            0 <= j < right_len,
    ;
}

/// Every thread id below the problem size decodes to an in-range candidate
/// pair, so an in-range thread never reads out of bounds.
pub proof fn lemma_thread_id_decodes(t: int, left_len: int, right_len: int)
    requires
        0 <= t < left_len * right_len,
        0 < right_len,
    ensures
        0 <= thread_left_index(t, right_len) < left_len,
        0 <= thread_right_index(t, right_len) < right_len,
        thread_left_index(t, right_len) * right_len + thread_right_index(t, right_len) == t,
{
    lemma_fundamental_div_mod(t, right_len);
    assert((t / right_len) * right_len == right_len * (t / right_len)) by (nonlinear_arith);
    lemma_mod_division_less_than_divisor(t, right_len);
    lemma_div_pos_is_pos(t, right_len);
    assert(t < right_len * left_len) by (nonlinear_arith)
        requires
            t < left_len * right_len,
    ;
    lemma_multiply_divide_lt(t, right_len, left_len);
}

} // verus!
