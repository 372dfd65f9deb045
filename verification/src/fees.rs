//! Gas pricing: the tip a transaction pays, the next base fee, and the blob gas a block may use.

use vstd::prelude::*;

verus! {

/// The tip per gas that a transaction offers over a base fee: what is left of its fee cap, and no
/// more than its priority fee where it names one. `None` where the cap is below the base fee.
pub open spec fn effective_tip(max_fee: u128, max_priority_fee: Option<u128>, base_fee: u64) -> Option<
    u128,
> {
    if max_fee < base_fee {
        None
    } else {
        let left = (max_fee - base_fee) as u128;
        Some(
            match max_priority_fee {
                Some(priority) if priority < left => priority,
                _ => left,
            },
        )
    }
}

/// The tip per gas that a transaction offers over a base fee.
pub fn effective_tip_per_gas(max_fee: u128, max_priority_fee: Option<u128>, base_fee: u64) -> (r:
    Option<u128>)
    ensures
        r == effective_tip(max_fee, max_priority_fee, base_fee),
{
    if max_fee < base_fee as u128 {
        return None;
    }
    let left: u128 = max_fee - base_fee as u128;
    match max_priority_fee {
        Some(priority) => Some(
            if priority < left {
                priority
            } else {
                left
            },
        ),
        None => Some(left),
    }
}

/// The gas that one data blob uses.
pub const DATA_GAS_PER_BLOB: u64 = 131072;

/// How many blobs a block may carry.
#[derive(Clone, Copy, Debug, PartialEq, Eq)]
pub struct BlobParams {
    /// The largest number of blobs in one block.
    pub max_blob_count: u64,
}

impl BlobParams {
    /// Whether the blob gas of a full block is a 64-bit number.
    pub open spec fn wf(self) -> bool {
        self.max_blob_count * DATA_GAS_PER_BLOB <= u64::MAX
    }

    /// Tells whether the blob gas of a full block is a 64-bit number.
    pub fn fits(&self) -> (r: bool)
        ensures
            r == self.wf(),
    {
        self.max_blob_count <= u64::MAX / DATA_GAS_PER_BLOB
    }

    /// [`alloy_eips::eip7840::BlobParams::cancun`]: six blobs per block.
    #[verifier::external_body]
    pub(crate) fn cancun() -> (r: BlobParams)
        ensures
            r.max_blob_count == 6,
    {
        BlobParams { max_blob_count: alloy_eips::eip7840::BlobParams::cancun().max_blob_count }
    }

    /// [`alloy_eips::eip7840::BlobParams::max_blob_gas_per_block`]: the largest number of blobs
    /// times the gas of one.
    #[verifier::external_body]
    pub(crate) fn max_blob_gas_per_block(&self) -> (r: u64)
        requires
            self.wf(),
        ensures
            r == self.max_blob_count * DATA_GAS_PER_BLOB,
    {
        let base = alloy_eips::eip7840::BlobParams::cancun();
        alloy_eips::eip7840::BlobParams { max_blob_count: self.max_blob_count, ..base }
            .max_blob_gas_per_block()
    }
}

/// What governs how far the base fee moves from one block to the next.
#[derive(Clone, Copy, Debug, PartialEq, Eq)]
pub struct BaseFeeParams {
    /// The larger this is, the smaller a step.
    pub max_change_denominator: u128,
    /// How many times its target a block's gas limit is.
    pub elasticity_multiplier: u128,
}

/// The gas a block aims to use.
pub open spec fn gas_target(gas_limit: u64, params: BaseFeeParams) -> int {
    gas_limit as int / params.elasticity_multiplier as int
}

/// The base fee of the block after one that used `gas_used` of `gas_limit` at `base_fee`: it rises
/// by at least one where the block used more than its target, falls but not below zero where it
/// used less, and stays where it met the target or where there is no target to compare with.
pub open spec fn next_base_fee(
    gas_used: u64,
    gas_limit: u64,
    base_fee: u64,
    params: BaseFeeParams,
) -> int {
    let target = gas_target(gas_limit, params);
    let scale = target * params.max_change_denominator;
    if params.elasticity_multiplier == 0 || params.max_change_denominator == 0 || target == 0 {
        base_fee as int
    } else if gas_used > target {
        let step = base_fee * (gas_used - target) / scale;
        base_fee + (if step < 1 {
            1
        } else {
            step
        })
    } else {
        let step = base_fee * (target - gas_used) / scale;
        if step < base_fee {
            base_fee - step
        } else {
            0
        }
    }
}

/// Whether the step to the next base fee stays within the machine integers that compute it.
pub open spec fn base_fee_step_fits(
    gas_used: u64,
    gas_limit: u64,
    base_fee: u64,
    params: BaseFeeParams,
) -> bool {
    &&& next_base_fee(gas_used, gas_limit, base_fee, params) <= u64::MAX
    &&& params.elasticity_multiplier != 0 ==> gas_target(gas_limit, params)
        * params.max_change_denominator <= u128::MAX
}

/// Tells whether the step to the next base fee stays within the machine integers that compute it.
pub fn step_fits(gas_used: u64, gas_limit: u64, base_fee: u64, params: &BaseFeeParams) -> (r: bool)
    ensures
        r == base_fee_step_fits(gas_used, gas_limit, base_fee, *params),
{
    if params.elasticity_multiplier == 0 {
        return true;
    }
    let target: u128 = gas_limit as u128 / params.elasticity_multiplier;
    let denominator = params.max_change_denominator;
    assert(0 <= target <= gas_limit) by (nonlinear_arith)
        requires
            target == gas_limit as int / params.elasticity_multiplier as int,
            params.elasticity_multiplier > 0,
    ;
    let scale: u128 = match target.checked_mul(denominator) {
        Some(scale) => scale,
        None => return false,
    };
    assert(scale == 0 <==> target == 0 || denominator == 0) by (nonlinear_arith)
        requires
            scale == target * denominator,
    ;
    if scale == 0 || gas_used as u128 <= target {
        assert(next_base_fee(gas_used, gas_limit, base_fee, *params) <= base_fee) by {
            if scale != 0 {
                let excess = target - gas_used;
                assert(base_fee * excess / (scale as int) >= 0) by (nonlinear_arith)
                    requires
                        excess >= 0,
                        scale > 0,
                ;
            }
        }
        return true;
    }
    let excess: u128 = gas_used as u128 - target;
    assert(base_fee * excess <= 0xffff_ffff_ffff_ffff * 0xffff_ffff_ffff_ffff) by (nonlinear_arith)
        requires
            0 <= base_fee <= 0xffff_ffff_ffff_ffff,
            0 <= excess <= 0xffff_ffff_ffff_ffff,
    ;
    let step: u128 = base_fee as u128 * excess / scale;
    let rise: u128 = if step < 1 {
        1
    } else {
        step
    };
    rise <= (u64::MAX - base_fee) as u128
}

/// [`alloy_eips::eip1559::BaseFeeParams::next_block_base_fee`]: the base fee of the next block.
#[verifier::external_body]
pub(crate) fn next_block_base_fee(
    gas_used: u64,
    gas_limit: u64,
    base_fee: u64,
    params: &BaseFeeParams,
) -> (r: u64)
    requires
        base_fee_step_fits(gas_used, gas_limit, base_fee, *params),
    ensures
        r == next_base_fee(gas_used, gas_limit, base_fee, *params),
{
    alloy_eips::eip1559::BaseFeeParams::new(
        params.max_change_denominator,
        params.elasticity_multiplier,
    ).next_block_base_fee(gas_used, gas_limit, base_fee)
}

/// A tip is owed exactly where the fee cap covers the base fee. It never takes more than the cap leaves,
/// nor more than the priority fee, and it takes all that these allow.
pub proof fn a_tip_is_all_that_the_caps_allow(
    max_fee: u128,
    max_priority_fee: Option<u128>,
    base_fee: u64,
)
    ensures
        effective_tip(max_fee, max_priority_fee, base_fee) is Some <==> max_fee >= base_fee,
        effective_tip(max_fee, max_priority_fee, base_fee) matches Some(tip) ==> {
            &&& base_fee + tip <= max_fee
            &&& max_priority_fee is Some ==> tip <= max_priority_fee->0
            &&& base_fee + tip == max_fee || max_priority_fee == Some(tip)
        },
{
}

/// The base fee stays where a block met its target, rises where it used more, and does not rise where
/// it used less.
pub proof fn the_base_fee_follows_the_gas(
    gas_used: u64,
    gas_limit: u64,
    base_fee: u64,
    params: BaseFeeParams,
)
    requires
        params.elasticity_multiplier > 0,
        params.max_change_denominator > 0,
        gas_limit >= params.elasticity_multiplier,
    ensures
        ({
            let target = gas_limit as int / params.elasticity_multiplier as int;
            let next = next_base_fee(gas_used, gas_limit, base_fee, params);
            &&& gas_used == target ==> next == base_fee
            &&& gas_used > target ==> next > base_fee
            &&& gas_used < target ==> 0 <= next <= base_fee
        }),
{
    let target = gas_limit as int / params.elasticity_multiplier as int;
    let scale = target * params.max_change_denominator;
    assert(target > 0) by (nonlinear_arith)
        requires
            target == gas_limit as int / params.elasticity_multiplier as int,
            gas_limit >= params.elasticity_multiplier,
            params.elasticity_multiplier > 0,
    ;
    assert(scale > 0) by (nonlinear_arith)
        requires
            scale == target * params.max_change_denominator,
            target > 0,
            params.max_change_denominator > 0,
    ;
    if gas_used <= target {
        let short = target - gas_used;
        assert(base_fee * short / scale >= 0) by (nonlinear_arith)
            requires
                short >= 0,
                scale > 0,
        ;
        if gas_used == target {
            assert(base_fee * short / scale == 0) by (nonlinear_arith)
                requires
                    short == 0,
                    scale > 0,
            ;
        }
    }
}

/// The step of the base fee is the fee times how far the block missed its target, over the target times
/// the denominator, rounded down; a rise is at least one.
pub proof fn the_base_fee_moves_by_its_share(
    gas_used: u64,
    gas_limit: u64,
    base_fee: u64,
    params: BaseFeeParams,
)
    requires
        params.elasticity_multiplier > 0,
        params.max_change_denominator > 0,
        gas_limit as int / params.elasticity_multiplier as int > 0,
    ensures
        ({
            let target = gas_limit as int / params.elasticity_multiplier as int;
            let scale = target * params.max_change_denominator;
            let next = next_base_fee(gas_used, gas_limit, base_fee, params);
            let up = base_fee * (gas_used - target) / scale;
            let down = base_fee * (target - gas_used) / scale;
            &&& gas_used > target && up >= 1 ==> next == base_fee + up
            &&& gas_used > target && up < 1 ==> next == base_fee + 1
            &&& gas_used <= target && down <= base_fee ==> next == base_fee - down
            &&& gas_used <= target && down > base_fee ==> next == 0
        }),
{
}

/// The step fits exactly where the next base fee is a 64-bit number and the scale of the step a 128-bit
/// one.
pub proof fn a_step_fits_its_integers(
    gas_used: u64,
    gas_limit: u64,
    base_fee: u64,
    params: BaseFeeParams,
)
    ensures
        base_fee_step_fits(gas_used, gas_limit, base_fee, params) <==> next_base_fee(
            gas_used,
            gas_limit,
            base_fee,
            params,
        ) <= u64::MAX && (params.elasticity_multiplier == 0 || (gas_limit as int
            / params.elasticity_multiplier as int) * params.max_change_denominator <= u128::MAX),
{
}

/// Parameters are usable exactly where the blob gas of a full block is a 64-bit number, at 131072 gas
/// for each blob.
pub proof fn a_blob_takes_its_gas(params: BlobParams)
    ensures
        params.wf() <==> params.max_blob_count * 131072 <= u64::MAX,
        DATA_GAS_PER_BLOB == 131072,
{
}

} // verus!
