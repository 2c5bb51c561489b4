use vstd::prelude::*;

verus! {

/// Per-margin-type weights of the scoring and of the warning triggers.
/// Isolated margin cannot draw on other positions' collateral, so each of
/// its weights is at least the cross-margin one and each of its triggers is
/// at least as strict.
#[derive(Clone, Copy, Debug, PartialEq, Eq, Structural)]
pub struct MarginWeights {
    /// Points of a position's score for leverage at the maximum.
    pub score_leverage: i128,
    /// Points of a position's score at zero distance to liquidation.
    pub score_distance: i128,
    /// Points of a position's score for a size ratio at the maximum.
    pub score_size: i128,
    /// Points of portfolio heat for the subset's leverage at the maximum.
    pub heat_leverage: i128,
    /// Points of portfolio heat, and the cap, for the subset's liquidation
    /// pressure.
    pub heat_liquidation: i128,
    /// Leverage warning trigger, in tenths of the maximum leverage.
    pub leverage_trigger_tenths: i128,
    /// Liquidation warning trigger, in halves of the minimum distance.
    pub distance_trigger_halves: i128,
    /// Size warning trigger, in tenths of the maximum position share.
    pub size_trigger_tenths: i128,
}

/// The weights of cross margin (`true`) and isolated margin (`false`).
pub open spec fn margin_weights(is_cross: bool) -> MarginWeights {
    if is_cross {
        MarginWeights {
            score_leverage: 35,
            score_distance: 35,
            score_size: 20,
            heat_leverage: 25,
            heat_liquidation: 8,
            leverage_trigger_tenths: 8,
            distance_trigger_halves: 2,
            size_trigger_tenths: 10,
        }
    } else {
        MarginWeights {
            score_leverage: 40,
            score_distance: 40,
            score_size: 25,
            heat_leverage: 30,
            heat_liquidation: 10,
            leverage_trigger_tenths: 7,
            distance_trigger_halves: 3,
            size_trigger_tenths: 8,
        }
    }
}

/// Executable form of [`margin_weights`].
pub fn weights(is_cross: bool) -> (r: MarginWeights)
    ensures
        r == margin_weights(is_cross),
{
    if is_cross {
        MarginWeights {
            score_leverage: 35,
            score_distance: 35,
            score_size: 20,
            heat_leverage: 25,
            heat_liquidation: 8,
            leverage_trigger_tenths: 8,
            distance_trigger_halves: 2,
            size_trigger_tenths: 10,
        }
    } else {
        MarginWeights {
            score_leverage: 40,
            score_distance: 40,
            score_size: 25,
            heat_leverage: 30,
            heat_liquidation: 10,
            leverage_trigger_tenths: 7,
            distance_trigger_halves: 3,
            size_trigger_tenths: 8,
        }
    }
}

/// Isolated margin weighs and triggers at least as heavily as cross margin.
pub proof fn lemma_isolated_is_stricter()
    ensures
        margin_weights(false).score_leverage >= margin_weights(true).score_leverage,
        margin_weights(false).score_distance >= margin_weights(true).score_distance,
        margin_weights(false).score_size >= margin_weights(true).score_size,
        margin_weights(false).heat_leverage >= margin_weights(true).heat_leverage,
        margin_weights(false).heat_liquidation >= margin_weights(true).heat_liquidation,
        margin_weights(false).leverage_trigger_tenths <= margin_weights(true).leverage_trigger_tenths,
        margin_weights(false).distance_trigger_halves >= margin_weights(true).distance_trigger_halves,
        margin_weights(false).size_trigger_tenths <= margin_weights(true).size_trigger_tenths,
{
}

} // verus!
