//! Shape checks and names of reproducible synthetic instances.

use vstd::prelude::*;

use crate::text::{decimal, push_decimal};

verus! {

/// Rejection text for an instance without assets.
pub const NO_ASSETS: &'static str = "assets must be positive";

/// Rejection text for a factor count outside `1..=assets`.
pub const FACTORS_OUT_OF_RANGE: &'static str = "factors must be in 1..=assets";

/// Checks the integer dimensions of a synthetic configuration: at least one
/// asset, and between one factor and one factor per asset.
pub fn check_synthetic_dimensions(assets: usize, factors: usize) -> (result: Result<
    (),
    &'static str,
>)
    ensures
        assets == 0 ==> result == Err::<(), &'static str>(NO_ASSETS),
        assets > 0 && (factors == 0 || factors > assets) ==> result == Err::<(), &'static str>(
            FACTORS_OUT_OF_RANGE,
        ),
        assets > 0 && 1 <= factors <= assets ==> result is Ok,
{
    if assets == 0 {
        return Err(NO_ASSETS);
    }
    if factors == 0 || factors > assets {
        return Err(FACTORS_OUT_OF_RANGE);
    }
    Ok(())
}

/// The reproducible name of an instance, e.g. `factor-n100-k10-s42`.
pub open spec fn instance_label(assets: nat, factors: nat, seed: nat) -> Seq<char> {
    "factor-n"@ + decimal(assets) + "-k"@ + decimal(factors) + "-s"@ + decimal(seed)
}

/// The reproducible name of an instance: dimensions and seed.
pub fn instance_name(assets: usize, factors: usize, seed: u64) -> (name: String)
    ensures
        name@ == instance_label(assets as nat, factors as nat, seed as nat),
{
    let mut name = String::from_str("factor-n");
    push_decimal(&mut name, assets as u64);
    name.append("-k");
    push_decimal(&mut name, factors as u64);
    name.append("-s");
    push_decimal(&mut name, seed);
    assert(name@ =~= instance_label(assets as nat, factors as nat, seed as nat));
    name
}

} // verus!
