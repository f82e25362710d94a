//! What a store reports about itself.

use vstd::prelude::*;
use crate::types::header::Tier;

verus! {

/// Figures derived from the table of contents and the size of the file.
/// Percentages are given in hundredths of a percent, rounded to the nearest
/// one, so that 10000 stands for 100.00 %.
#[derive(Clone, Copy, Debug, PartialEq, Eq, Structural)]
pub struct Stats {
    pub frame_count: u64,
    pub size_bytes: u64,
    pub tier: Tier,
    pub has_lex_index: bool,
    pub has_vec_index: bool,
    pub has_clip_index: bool,
    pub has_time_index: bool,
    pub seq_no: Option<i64>,
    pub capacity_bytes: u64,
    pub active_frame_count: u64,
    pub payload_bytes: u64,
    pub logical_bytes: u64,
    pub saved_bytes: u64,
    pub compression_ratio_hundredths: u128,
    pub savings_hundredths: u128,
    pub storage_utilisation_hundredths: u128,
    pub remaining_capacity_bytes: u64,
    pub average_frame_payload_bytes: u64,
    pub average_frame_logical_bytes: u64,
    pub wal_bytes: u64,
    pub lex_index_bytes: u64,
    pub vec_index_bytes: u64,
    pub time_index_bytes: u64,
    pub vector_count: u64,
    pub clip_image_count: u64,
}

/// `n`, or the largest `u64` where `n` is beyond it: what a chain of
/// saturating additions of non-negative terms with sum `n` arrives at.
pub open spec fn saturated(n: nat) -> u64 {
    if n > u64::MAX {
        u64::MAX
    } else {
        n as u64
    }
}

/// `part / whole` in hundredths of a percent, rounded to the nearest one, a
/// half upwards.
pub open spec fn hundredths_of_percent(part: nat, whole: nat) -> nat
    recommends
        whole > 0,
{
    (2 * 10000 * part + whole) / (2 * whole)
}

/// `hundredths_of_percent` is the nearest whole number to
/// `10000 * part / whole`: it is off by at most a half.
pub proof fn lemma_hundredths_nearest(part: nat, whole: nat)
    requires
        whole > 0,
    ensures
        2 * whole * hundredths_of_percent(part, whole) <= 2 * 10000 * part + whole,
        2 * 10000 * part + whole < 2 * whole * (hundredths_of_percent(part, whole) + 1),
{
    let n = 2 * 10000 * part + whole;
    let d = 2 * whole;
    vstd::arithmetic::div_mod::lemma_fundamental_div_mod(n as int, d as int);
    vstd::arithmetic::div_mod::lemma_mod_bound(n as int, d as int);
    assert(2 * whole * (hundredths_of_percent(part, whole) + 1) == d * (n / d) + d)
        by (nonlinear_arith)
        requires
            d == 2 * whole,
            hundredths_of_percent(part, whole) == n / d,
    ;
}

/// Computes `hundredths_of_percent`.
pub fn ratio_hundredths(part: u64, whole: u64) -> (res: u128)
    requires
        whole > 0,
    ensures
        res == hundredths_of_percent(part as nat, whole as nat),
{
    let numerator: u128 = 20000u128 * (part as u128) + (whole as u128);
    let denominator: u128 = 2u128 * (whole as u128);
    numerator / denominator
}

} // verus!
