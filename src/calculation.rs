use vstd::prelude::*;

use crate::margin::{margin_weights, weights};
use crate::types::{
    AccountSummary, RiskError, Position, PositionMetrics, PortfolioMetrics, RiskLimits, MAX_AMOUNT,
    MAX_POSITIONS, SCALE, valid_positions,
};

verus! {

/// 100 in fixed point: the top of every score and the whole of a percentage.
pub const HUNDRED: i128 = 100_000_000;

pub open spec fn abs(x: int) -> int {
    if x < 0 {
        -x
    } else {
        x
    }
}

pub open spec fn min(a: int, b: int) -> int {
    if a < b {
        a
    } else {
        b
    }
}

pub open spec fn clamp(x: int, lo: int, hi: int) -> int {
    if x < lo {
        lo
    } else if x > hi {
        hi
    } else {
        x
    }
}

/// Division rounding toward zero, for a positive divisor.
pub open spec fn quotient(a: int, b: int) -> int {
    if a >= 0 {
        a / b
    } else {
        -((-a) / b)
    }
}

/// The magnitude of a position's notional value.
pub open spec fn notional(p: Position) -> int {
    abs(p.position_value as int)
}

/// Percentage gap between entry and liquidation price, on the side that the
/// position's direction makes adverse; 100 when size is zero, a price is
/// missing or not positive, or the liquidation price is on the wrong side.
pub open spec fn distance_to_liquidation(p: Position) -> int {
    match (p.entry_price, p.liquidation_price) {
        (Some(e), Some(l)) => {
            let e = e as int;
            let l = l as int;
            if p.size == 0 || e <= 0 {
                HUNDRED as int
            } else if p.size > 0 {
                if l < e {
                    HUNDRED * (e - l) / e
                } else {
                    HUNDRED as int
                }
            } else {
                if l > e {
                    HUNDRED * (l - e) / e
                } else {
                    HUNDRED as int
                }
            }
        },
        _ => HUNDRED as int,
    }
}

/// Margin used as a percentage of the account value (0 unless the account
/// value is positive).
pub open spec fn position_size_ratio(p: Position, account_value: int) -> int {
    if account_value > 0 {
        HUNDRED * p.margin_used / account_value
    } else {
        0
    }
}

/// Leverage part of a position's score.
pub open spec fn leverage_points(p: Position, limits: RiskLimits) -> int {
    margin_weights(p.is_cross).score_leverage * SCALE * p.leverage / (limits.max_leverage as int)
}

/// Liquidation-distance part of a position's score.
pub open spec fn distance_points(p: Position, distance: int, limits: RiskLimits) -> int {
    let min_d = limits.min_distance_to_liq as int;
    if distance < min_d {
        margin_weights(p.is_cross).score_distance * SCALE * (min_d - distance) / min_d
    } else {
        0
    }
}

/// Size part of a position's score.
pub open spec fn size_points(p: Position, ratio: int, limits: RiskLimits) -> int {
    margin_weights(p.is_cross).score_size * SCALE * ratio / (limits.max_position_pct as int)
}

/// A position's risk score: the three parts summed and clamped to 0..=100.
pub open spec fn risk_score(p: Position, distance: int, ratio: int, limits: RiskLimits) -> int {
    clamp(
        leverage_points(p, limits) + distance_points(p, distance, limits) + size_points(
            p,
            ratio,
            limits,
        ),
        0,
        HUNDRED as int,
    )
}

/// The position's notional share of the total, applied to its score.
pub open spec fn contribution(p: Position, score: int, total: int) -> int {
    if total > 0 {
        score * notional(p) / total
    } else {
        0
    }
}

/// `m` is the metrics of `p` in a portfolio of notional `total`.
pub open spec fn describes_position(
    m: PositionMetrics,
    p: Position,
    total: int,
    account_value: int,
    limits: RiskLimits,
) -> bool {
    let d = distance_to_liquidation(p);
    let r = position_size_ratio(p, account_value);
    let s = risk_score(p, d, r, limits);
    &&& m.position == p
    &&& m.distance_to_liquidation == d
    &&& m.position_size_ratio == r
    &&& m.risk_score == s
    &&& m.contribution_to_portfolio == contribution(p, s, total)
}

/// Sums over a list of positions.
pub struct Totals {
    /// Sum of notional magnitudes.
    pub notional: int,
    pub margin: int,
    pub unrealized_pnl: int,
    /// Sum of leverage times notional magnitude.
    pub weighted_leverage: int,
    /// Sum of return on equity times notional magnitude.
    pub weighted_return: int,
    pub cross_notional: int,
    pub cross_weighted_leverage: int,
    pub isolated_notional: int,
    pub isolated_weighted_leverage: int,
}

pub open spec fn totals(ps: Seq<Position>) -> Totals
    decreases ps.len(),
{
    if ps.len() == 0 {
        Totals {
            notional: 0,
            margin: 0,
            unrealized_pnl: 0,
            weighted_leverage: 0,
            weighted_return: 0,
            cross_notional: 0,
            cross_weighted_leverage: 0,
            isolated_notional: 0,
            isolated_weighted_leverage: 0,
        }
    } else {
        let t = totals(ps.drop_last());
        let p = ps.last();
        let a = notional(p);
        let wl = p.leverage * a;
        Totals {
            notional: t.notional + a,
            margin: t.margin + p.margin_used,
            unrealized_pnl: t.unrealized_pnl + p.unrealized_pnl,
            weighted_leverage: t.weighted_leverage + wl,
            weighted_return: t.weighted_return + p.return_on_equity * a,
            cross_notional: t.cross_notional + if p.is_cross {
                a
            } else {
                0
            },
            cross_weighted_leverage: t.cross_weighted_leverage + if p.is_cross {
                wl
            } else {
                0
            },
            isolated_notional: t.isolated_notional + if p.is_cross {
                0
            } else {
                a
            },
            isolated_weighted_leverage: t.isolated_weighted_leverage + if p.is_cross {
                0
            } else {
                wl
            },
        }
    }
}

/// Total notional of the positions.
pub open spec fn total_notional(ps: Seq<Position>) -> int {
    totals(ps).notional
}

/// `SCALE` times `part / total`, or 0 when the total is not positive.
pub open spec fn share(part: int, total: int) -> int {
    if total > 0 {
        SCALE * part / total
    } else {
        0
    }
}

/// Sum of squared notional shares (each share `SCALE * |value| / total`).
pub open spec fn squared_shares(ps: Seq<Position>, total: int) -> int
    decreases ps.len(),
{
    if ps.len() == 0 {
        0
    } else {
        let s = share(notional(ps.last()), total);
        squared_shares(ps.drop_last(), total) + s * s
    }
}

/// Normalized Herfindahl index of the notional shares, 0..=100: 100 for a
/// single position, 0 for an even split or a zero total.
pub open spec fn concentration_score(ps: Seq<Position>) -> int {
    let n = ps.len() as int;
    let total = total_notional(ps);
    let scaled_hhi = n * squared_shares(ps, total);
    if n <= 1 {
        HUNDRED as int
    } else if total <= 0 || scaled_hhi <= SCALE * SCALE {
        0
    } else {
        min(100 * (scaled_hhi - SCALE * SCALE) / ((n - 1) * SCALE), HUNDRED as int)
    }
}

/// Points of heat from one position's closeness to liquidation.
pub open spec fn liquidation_points(p: Position, limits: RiskLimits) -> int {
    let d = distance_to_liquidation(p);
    let min_d = limits.min_distance_to_liq as int;
    if d < min_d {
        margin_weights(p.is_cross).heat_liquidation * SCALE * (min_d - d) / min_d
    } else {
        0
    }
}

/// Sum of [`liquidation_points`] over the positions of one margin type.
pub open spec fn liquidation_pressure(ps: Seq<Position>, limits: RiskLimits, cross: bool) -> int
    decreases ps.len(),
{
    if ps.len() == 0 {
        0
    } else {
        let p = ps.last();
        liquidation_pressure(ps.drop_last(), limits, cross) + if p.is_cross == cross {
            liquidation_points(p, limits)
        } else {
            0
        }
    }
}

/// Margin used as a percentage of the account value.
pub open spec fn margin_utilization(ps: Seq<Position>, account_value: int) -> int {
    if account_value > 0 {
        HUNDRED * totals(ps).margin / account_value
    } else {
        0
    }
}

/// Notional-weighted mean leverage.
pub open spec fn average_leverage(ps: Seq<Position>) -> int {
    let t = totals(ps);
    if t.notional > 0 {
        t.weighted_leverage / t.notional
    } else {
        0
    }
}

/// Heat from one margin type's leverage: its weighted mean leverage over
/// the maximum, times its weight, times its notional share.
pub open spec fn subset_leverage_heat(
    weighted_leverage: int,
    subset: int,
    total: int,
    cross: bool,
    limits: RiskLimits,
) -> int {
    if subset > 0 {
        let mean = weighted_leverage / subset;
        let ratio = margin_weights(cross).heat_leverage * SCALE * mean / (limits.max_leverage as int);
        ratio * share(subset, total) / (SCALE as int)
    } else {
        0
    }
}

/// Leverage factor of the heat, at most 30.
pub open spec fn leverage_heat(ps: Seq<Position>, limits: RiskLimits) -> int {
    let t = totals(ps);
    min(
        subset_leverage_heat(t.cross_weighted_leverage, t.cross_notional, t.notional, true, limits)
            + subset_leverage_heat(
            t.isolated_weighted_leverage,
            t.isolated_notional,
            t.notional,
            false,
            limits,
        ),
        30 * SCALE,
    )
}

/// Margin-utilization factor of the heat, at most 40.
pub open spec fn margin_heat(utilization: int, limits: RiskLimits) -> int {
    min(40 * SCALE * utilization / (limits.max_margin_utilization as int), 40 * SCALE)
}

/// Liquidation factor of the heat, at most 10: each margin type's pressure,
/// capped at its weight, times its notional share.
pub open spec fn liquidation_heat(ps: Seq<Position>, limits: RiskLimits) -> int {
    let t = totals(ps);
    let cross = min(liquidation_pressure(ps, limits, true), margin_weights(true).heat_liquidation * SCALE);
    let isolated = min(
        liquidation_pressure(ps, limits, false),
        margin_weights(false).heat_liquidation * SCALE,
    );
    min(
        cross * share(t.cross_notional, t.notional) / (SCALE as int) + isolated * share(
            t.isolated_notional,
            t.notional,
        ) / (SCALE as int),
        10 * SCALE,
    )
}

/// Portfolio heat, 0..=100: leverage, margin-utilization, concentration (a
/// fifth of the score) and liquidation factors summed.
pub open spec fn portfolio_heat(ps: Seq<Position>, utilization: int, limits: RiskLimits) -> int {
    clamp(
        leverage_heat(ps, limits) + margin_heat(utilization, limits) + concentration_score(ps) / 5
            + liquidation_heat(ps, limits),
        0,
        HUNDRED as int,
    )
}

/// Notional-weighted mean return over heat, with heat 50 as neutral.
pub open spec fn risk_adjusted_return(ps: Seq<Position>, heat: int) -> int {
    let t = totals(ps);
    if t.notional > 0 && heat > 0 {
        quotient(50 * SCALE * quotient(t.weighted_return, t.notional), heat)
    } else {
        0
    }
}

/// `m` is the portfolio metrics of the positions and account value.
pub open spec fn describes_portfolio(
    m: PortfolioMetrics,
    ps: Seq<Position>,
    account_value: int,
    limits: RiskLimits,
) -> bool {
    if ps.len() == 0 {
        &&& m.portfolio_heat == 0
        &&& m.concentration_score == 0
        &&& m.risk_adjusted_return == 0
        &&& m.margin_utilization == 0
        &&& m.total_unrealized_pnl == 0
        &&& m.account_value == account_value
        &&& m.total_position_value == 0
        &&& m.average_leverage == 0
    } else {
        let heat = portfolio_heat(ps, margin_utilization(ps, account_value), limits);
        &&& m.portfolio_heat == heat
        &&& m.concentration_score == concentration_score(ps)
        &&& m.risk_adjusted_return == risk_adjusted_return(ps, heat)
        &&& m.margin_utilization == margin_utilization(ps, account_value)
        &&& m.total_unrealized_pnl == totals(ps).unrealized_pnl
        &&& m.account_value == account_value
        &&& m.total_position_value == totals(ps).notional
        &&& m.average_leverage == average_leverage(ps)
    }
}

/// Bounds on the sums of valid positions.
pub proof fn lemma_totals_bounds(ps: Seq<Position>)
    requires
        forall|i: int| 0 <= i < ps.len() ==> (#[trigger] ps[i]).is_valid(),
    ensures
        ({
            let t = totals(ps);
            let n = ps.len() as int;
            &&& 0 <= t.notional <= n * MAX_AMOUNT
            &&& 0 <= t.margin <= n * MAX_AMOUNT
            &&& -n * MAX_AMOUNT <= t.unrealized_pnl <= n * MAX_AMOUNT
            &&& 0 <= t.weighted_leverage <= MAX_AMOUNT * t.notional
            &&& -MAX_AMOUNT * t.notional <= t.weighted_return <= MAX_AMOUNT * t.notional
            &&& 0 <= t.cross_notional
            &&& 0 <= t.isolated_notional
            &&& t.cross_notional + t.isolated_notional == t.notional
            &&& 0 <= t.cross_weighted_leverage <= MAX_AMOUNT * t.cross_notional
            &&& 0 <= t.isolated_weighted_leverage <= MAX_AMOUNT * t.isolated_notional
            &&& t.cross_weighted_leverage + t.isolated_weighted_leverage == t.weighted_leverage
        }),
    decreases ps.len(),
{
    if ps.len() > 0 {
        let q = ps.drop_last();
        assert forall|i: int| 0 <= i < q.len() implies (#[trigger] q[i]).is_valid() by {
            assert(q[i] == ps[i]);
        }
        lemma_totals_bounds(q);
        let p = ps.last();
        assert(p.is_valid());
        let a = notional(p);
        let lev = p.leverage as int;
        let roe = p.return_on_equity as int;
        assert(0 <= lev * a <= MAX_AMOUNT * a) by (nonlinear_arith)
            requires
                0 <= lev <= MAX_AMOUNT,
                0 <= a,
        ;
        assert(-MAX_AMOUNT * a <= roe * a <= MAX_AMOUNT * a) by (nonlinear_arith)
            requires
                -MAX_AMOUNT <= roe <= MAX_AMOUNT,
                0 <= a,
        ;
        let t = totals(q);
        assert(MAX_AMOUNT * t.notional + MAX_AMOUNT * a == MAX_AMOUNT * (t.notional + a))
            by (nonlinear_arith);
        assert(MAX_AMOUNT * t.cross_notional + MAX_AMOUNT * a == MAX_AMOUNT * (t.cross_notional
            + a)) by (nonlinear_arith);
        assert(MAX_AMOUNT * t.isolated_notional + MAX_AMOUNT * a == MAX_AMOUNT * (
        t.isolated_notional + a)) by (nonlinear_arith);
        assert(-MAX_AMOUNT * t.notional - MAX_AMOUNT * a == -MAX_AMOUNT * (t.notional + a))
            by (nonlinear_arith);
    }
}

/// Each position's notional is at most the total.
pub proof fn lemma_notional_within_total(ps: Seq<Position>, i: int)
    requires
        0 <= i < ps.len(),
        forall|j: int| 0 <= j < ps.len() ==> (#[trigger] ps[j]).is_valid(),
    ensures
        0 <= notional(ps[i]) <= total_notional(ps),
    decreases ps.len(),
{
    let q = ps.drop_last();
    assert forall|j: int| 0 <= j < q.len() implies (#[trigger] q[j]).is_valid() by {
        assert(q[j] == ps[j]);
    }
    lemma_totals_bounds(q);
    if i < ps.len() - 1 {
        assert(q[i] == ps[i]);
        lemma_notional_within_total(q, i);
    }
}

/// Executable sums over a list of positions; see [`Totals`].
pub struct PositionTotals {
    pub notional: i128,
    pub margin: i128,
    pub unrealized_pnl: i128,
    pub weighted_leverage: i128,
    pub weighted_return: i128,
    pub cross_notional: i128,
    pub cross_weighted_leverage: i128,
    pub isolated_notional: i128,
    pub isolated_weighted_leverage: i128,
}

impl PositionTotals {
    pub open spec fn matches(&self, t: Totals) -> bool {
        &&& self.notional == t.notional
        &&& self.margin == t.margin
        &&& self.unrealized_pnl == t.unrealized_pnl
        &&& self.weighted_leverage == t.weighted_leverage
        &&& self.weighted_return == t.weighted_return
        &&& self.cross_notional == t.cross_notional
        &&& self.cross_weighted_leverage == t.cross_weighted_leverage
        &&& self.isolated_notional == t.isolated_notional
        &&& self.isolated_weighted_leverage == t.isolated_weighted_leverage
    }
}

/// The magnitude of a position's notional value.
pub fn notional_of(p: &Position) -> (r: i128)
    requires
        p.is_valid(),
    ensures
        r == notional(*p),
        0 <= r <= MAX_AMOUNT,
{
    if p.position_value < 0 {
        -(p.position_value as i128)
    } else {
        p.position_value as i128
    }
}

/// All the sums of [`totals`] in one pass.
pub fn sum_totals(ps: &[Position]) -> (r: PositionTotals)
    requires
        valid_positions(ps@),
    ensures
        r.matches(totals(ps@)),
{
    let mut acc = PositionTotals {
        notional: 0,
        margin: 0,
        unrealized_pnl: 0,
        weighted_leverage: 0,
        weighted_return: 0,
        cross_notional: 0,
        cross_weighted_leverage: 0,
        isolated_notional: 0,
        isolated_weighted_leverage: 0,
    };
    let n = ps.len();
    let mut i: usize = 0;
    assert(ps@.take(0) =~= Seq::<Position>::empty());
    while i < n
        invariant
            n == ps@.len(),
            i <= n,
            valid_positions(ps@),
            acc.matches(totals(ps@.take(i as int))),
        decreases n - i,
    {
        let p = &ps[i];
        let ghost before = ps@.take(i as int);
        let ghost after = ps@.take(i as int + 1);
        assert(after.drop_last() =~= before);
        assert(after.last() == ps@[i as int]);
        assert forall|j: int| 0 <= j < after.len() implies (#[trigger] after[j]).is_valid() by {
            assert(after[j] == ps@[j]);
        }
        proof {
            lemma_totals_bounds(after);
            assert(MAX_AMOUNT * totals(after).notional <= MAX_AMOUNT * (MAX_POSITIONS
                * MAX_AMOUNT)) by (nonlinear_arith)
                requires
                    totals(after).notional <= after.len() * MAX_AMOUNT,
                    after.len() <= MAX_POSITIONS,
            ;
        }
        let a = notional_of(p);
        let lev = p.leverage as i128;
        let roe = p.return_on_equity as i128;
        assert(0 <= lev * a <= MAX_AMOUNT * MAX_AMOUNT) by (nonlinear_arith)
            requires
                0 <= lev <= MAX_AMOUNT,
                0 <= a <= MAX_AMOUNT,
        ;
        assert(-MAX_AMOUNT * MAX_AMOUNT <= roe * a <= MAX_AMOUNT * MAX_AMOUNT) by (nonlinear_arith)
            requires
                -MAX_AMOUNT <= roe <= MAX_AMOUNT,
                0 <= a <= MAX_AMOUNT,
        ;
        let wl = lev * a;
        acc.notional = acc.notional + a;
        acc.margin = acc.margin + p.margin_used as i128;
        acc.unrealized_pnl = acc.unrealized_pnl + p.unrealized_pnl as i128;
        acc.weighted_leverage = acc.weighted_leverage + wl;
        acc.weighted_return = acc.weighted_return + roe * a;
        if p.is_cross {
            acc.cross_notional = acc.cross_notional + a;
            acc.cross_weighted_leverage = acc.cross_weighted_leverage + wl;
        } else {
            acc.isolated_notional = acc.isolated_notional + a;
            acc.isolated_weighted_leverage = acc.isolated_weighted_leverage + wl;
        }
        i = i + 1;
    }
    assert(ps@.take(n as int) =~= ps@);
    acc
}

/// `SCALE * part / total`, or 0 when the total is not positive.
pub fn share_of(part: i128, total: i128) -> (r: i128)
    requires
        0 <= part <= total,
        total <= MAX_POSITIONS * MAX_AMOUNT,
    ensures
        r == share(part as int, total as int),
        0 <= r <= SCALE,
{
    if total > 0 {
        assert(SCALE * part / (total as int) <= SCALE) by (nonlinear_arith)
            requires
                0 <= part <= total,
                total > 0,
        ;
        assert(SCALE * part / (total as int) >= 0) by (nonlinear_arith)
            requires
                0 <= part <= total,
                total > 0,
        ;
        (SCALE as i128) * part / total
    } else {
        0
    }
}

/// Division rounding toward zero.
pub fn div_toward_zero(a: i128, b: i128) -> (r: i128)
    requires
        b > 0,
    ensures
        r == quotient(a as int, b as int),
{
    a / b
}

/// Heat from one margin type's leverage; see [`subset_leverage_heat`].
fn subset_heat(
    weighted_leverage: i128,
    subset: i128,
    total: i128,
    cross: bool,
    limits: &RiskLimits,
) -> (r: i128)
    requires
        limits.is_valid(),
        0 <= subset <= total <= MAX_POSITIONS * MAX_AMOUNT,
        0 <= weighted_leverage <= MAX_AMOUNT * subset,
    ensures
        r == subset_leverage_heat(
            weighted_leverage as int,
            subset as int,
            total as int,
            cross,
            *limits,
        ),
        0 <= r <= 30 * SCALE * MAX_AMOUNT,
{
    if subset > 0 {
        let mean = weighted_leverage / subset;
        assert(0 <= mean <= MAX_AMOUNT) by (nonlinear_arith)
            requires
                mean == weighted_leverage / subset,
                0 <= weighted_leverage <= MAX_AMOUNT * subset,
                subset > 0,
        ;
        let w = weights(cross);
        let max_lev = limits.max_leverage as i128;
        assert(0 <= w.heat_leverage * SCALE * mean <= 30 * SCALE * MAX_AMOUNT) by (nonlinear_arith)
            requires
                0 <= w.heat_leverage <= 30,
                0 <= mean <= MAX_AMOUNT,
        ;
        let ratio = w.heat_leverage * (SCALE as i128) * mean / max_lev;
        assert(0 <= ratio <= 30 * SCALE * MAX_AMOUNT) by (nonlinear_arith)
            requires
                ratio == w.heat_leverage * SCALE * mean / (max_lev as int),
                0 <= w.heat_leverage * SCALE * mean <= 30 * SCALE * MAX_AMOUNT,
                max_lev >= 1,
        ;
        let sh = share_of(subset, total);
        assert(0 <= ratio * sh <= 30 * SCALE * MAX_AMOUNT * SCALE) by (nonlinear_arith)
            requires
                0 <= ratio <= 30 * SCALE * MAX_AMOUNT,
                0 <= sh <= SCALE,
        ;
        assert(ratio * sh / (SCALE as int) <= 30 * SCALE * MAX_AMOUNT) by (nonlinear_arith)
            requires
                0 <= ratio * sh <= 30 * SCALE * MAX_AMOUNT * SCALE,
        ;
        ratio * sh / (SCALE as i128)
    } else {
        0
    }
}

/// Computes risk metrics from a fixed set of limits.
pub struct RiskCalculator {
    pub limits: RiskLimits,
}

impl RiskCalculator {
    pub open spec fn is_valid(&self) -> bool {
        self.limits.is_valid()
    }

    pub fn new(limits: RiskLimits) -> (r: RiskCalculator)
        requires
            limits.is_valid(),
        ensures
            r.limits == limits,
            r.is_valid(),
    {
        RiskCalculator { limits }
    }

    /// Replaces the limits.
    pub fn update_config(&mut self, limits: RiskLimits)
        requires
            limits.is_valid(),
        ensures
            final(self).limits == limits,
    {
        self.limits = limits;
    }

    /// Percentage distance from entry to liquidation price.
    pub fn calculate_distance_to_liquidation(&self, p: &Position) -> (r: i128)
        requires
            p.is_valid(),
        ensures
            r == distance_to_liquidation(*p),
            0 <= r <= 2 * HUNDRED * MAX_AMOUNT,
    {
        match (p.entry_price, p.liquidation_price) {
            (Some(e), Some(l)) => {
                if p.size == 0 || e <= 0 {
                    HUNDRED
                } else if p.size > 0 {
                    if l < e {
                        let gap = e as i128 - l as i128;
                        assert(HUNDRED * gap / (e as int) <= HUNDRED * gap) by (nonlinear_arith)
                            requires
                                gap > 0,
                                e >= 1,
                        ;
                        assert(HUNDRED * gap / (e as int) >= 0) by (nonlinear_arith)
                            requires
                                gap > 0,
                                e >= 1,
                        ;
                        HUNDRED * gap / e as i128
                    } else {
                        HUNDRED
                    }
                } else {
                    if l > e {
                        let gap = l as i128 - e as i128;
                        assert(HUNDRED * gap / (e as int) <= HUNDRED * gap) by (nonlinear_arith)
                            requires
                                gap > 0,
                                e >= 1,
                        ;
                        assert(HUNDRED * gap / (e as int) >= 0) by (nonlinear_arith)
                            requires
                                gap > 0,
                                e >= 1,
                        ;
                        HUNDRED * gap / e as i128
                    } else {
                        HUNDRED
                    }
                }
            },
            _ => HUNDRED,
        }
    }

    /// Margin used as a percentage of the account value.
    pub fn calculate_position_size_ratio(&self, p: &Position, account_value: i64) -> (r: i128)
        requires
            p.is_valid(),
        ensures
            r == position_size_ratio(*p, account_value as int),
            0 <= r <= HUNDRED * MAX_AMOUNT,
    {
        if account_value > 0 {
            let m = p.margin_used as i128;
            assert(HUNDRED * m / (account_value as int) <= HUNDRED * m) by (nonlinear_arith)
                requires
                    m >= 0,
                    account_value >= 1,
            ;
            assert(HUNDRED * m / (account_value as int) >= 0) by (nonlinear_arith)
                requires
                    m >= 0,
                    account_value >= 1,
            ;
            HUNDRED * m / account_value as i128
        } else {
            0
        }
    }

    /// A position's risk score in 0..=100, from its distance to liquidation
    /// and size ratio.
    pub fn calculate_position_risk_score(
        &self,
        p: &Position,
        distance_to_liquidation: i128,
        position_size_ratio: i128,
    ) -> (r: i128)
        requires
            self.is_valid(),
            p.is_valid(),
            0 <= distance_to_liquidation,
            0 <= position_size_ratio <= HUNDRED * MAX_AMOUNT,
        ensures
            r == risk_score(*p, distance_to_liquidation as int, position_size_ratio as int, self.limits),
            0 <= r <= HUNDRED,
    {
        let w = weights(p.is_cross);
        let max_lev = self.limits.max_leverage as i128;
        let lev = p.leverage as i128;
        assert(0 <= w.score_leverage * SCALE * lev <= 40 * SCALE * MAX_AMOUNT) by (nonlinear_arith)
            requires
                0 <= w.score_leverage <= 40,
                0 <= lev <= MAX_AMOUNT,
        ;
        let lev_points = w.score_leverage * (SCALE as i128) * lev / max_lev;
        assert(0 <= lev_points <= 40 * SCALE * MAX_AMOUNT) by (nonlinear_arith)
            requires
                lev_points == w.score_leverage * SCALE * lev / (max_lev as int),
                0 <= w.score_leverage * SCALE * lev <= 40 * SCALE * MAX_AMOUNT,
                max_lev >= 1,
        ;
        let min_d = self.limits.min_distance_to_liq as i128;
        let dist_points = if distance_to_liquidation < min_d {
            let gap = min_d - distance_to_liquidation;
            assert(0 <= w.score_distance * SCALE * gap <= 40 * SCALE * MAX_AMOUNT)
                by (nonlinear_arith)
                requires
                    0 <= w.score_distance <= 40,
                    0 < gap <= MAX_AMOUNT,
            ;
            let v = w.score_distance * (SCALE as i128) * gap / min_d;
            assert(0 <= v <= 40 * SCALE * MAX_AMOUNT) by (nonlinear_arith)
                requires
                    v == w.score_distance * SCALE * gap / (min_d as int),
                    0 <= w.score_distance * SCALE * gap <= 40 * SCALE * MAX_AMOUNT,
                    min_d >= 1,
            ;
            v
        } else {
            0
        };
        let max_pct = self.limits.max_position_pct as i128;
        assert(0 <= w.score_size * SCALE * position_size_ratio <= 25 * SCALE * HUNDRED * MAX_AMOUNT)
            by (nonlinear_arith)
            requires
                0 <= w.score_size <= 25,
                0 <= position_size_ratio <= HUNDRED * MAX_AMOUNT,
        ;
        let size_points = w.score_size * (SCALE as i128) * position_size_ratio / max_pct;
        assert(0 <= size_points <= 25 * SCALE * HUNDRED * MAX_AMOUNT) by (nonlinear_arith)
            requires
                size_points == w.score_size * SCALE * position_size_ratio / (max_pct as int),
                0 <= w.score_size * SCALE * position_size_ratio <= 25 * SCALE * HUNDRED
                    * MAX_AMOUNT,
                max_pct >= 1,
        ;
        let score = lev_points + dist_points + size_points;
        if score > HUNDRED {
            HUNDRED
        } else {
            score
        }
    }

    /// Normalized Herfindahl index of the notional shares, 0..=100.
    pub fn calculate_concentration_score(&self, positions: &[Position]) -> (r: i128)
        requires
            valid_positions(positions@),
        ensures
            r == concentration_score(positions@),
            0 <= r <= HUNDRED,
    {
        let n = positions.len();
        if n <= 1 {
            return HUNDRED;
        }
        let t = sum_totals(positions);
        let total = t.notional;
        proof {
            lemma_totals_bounds(positions@);
            assert(total <= MAX_POSITIONS * MAX_AMOUNT) by (nonlinear_arith)
                requires
                    total <= n * MAX_AMOUNT,
                    n <= MAX_POSITIONS,
            ;
        }
        if total <= 0 {
            return 0;
        }
        let mut squares: i128 = 0;
        let mut i: usize = 0;
        assert(positions@.take(0) =~= Seq::<Position>::empty());
        while i < n
            invariant
                n == positions@.len(),
                i <= n,
                valid_positions(positions@),
                total == total_notional(positions@),
                0 < total <= MAX_POSITIONS * MAX_AMOUNT,
                squares == squared_shares(positions@.take(i as int), total as int),
                0 <= squares <= i * (SCALE * SCALE),
            decreases n - i,
        {
            let ghost before = positions@.take(i as int);
            let ghost after = positions@.take(i as int + 1);
            assert(after.drop_last() =~= before);
            assert(after.last() == positions@[i as int]);
            proof {
                lemma_notional_within_total(positions@, i as int);
            }
            let a = notional_of(&positions[i]);
            let s = share_of(a, total);
            assert(0 <= s * s <= SCALE * SCALE) by (nonlinear_arith)
                requires
                    0 <= s <= SCALE,
            ;
            assert(squares + s * s <= (i + 1) * (SCALE * SCALE)) by (nonlinear_arith)
                requires
                    squares <= i * (SCALE * SCALE),
                    s * s <= SCALE * SCALE,
            ;
            assert((i + 1) * (SCALE * SCALE) <= MAX_POSITIONS * (SCALE * SCALE)) by (nonlinear_arith)
                requires
                    i + 1 <= MAX_POSITIONS,
            ;
            squares = squares + s * s;
            i = i + 1;
        }
        assert(positions@.take(n as int) =~= positions@);
        assert(0 <= n * squares <= MAX_POSITIONS * MAX_POSITIONS * (SCALE * SCALE))
            by (nonlinear_arith)
            requires
                0 <= squares <= n * (SCALE * SCALE),
                n <= MAX_POSITIONS,
        ;
        let scaled_hhi = n as i128 * squares;
        assert(0 <= scaled_hhi <= MAX_POSITIONS * MAX_POSITIONS * (SCALE * SCALE))
            by (nonlinear_arith)
            requires
                scaled_hhi == n * squares,
                0 <= squares <= n * (SCALE * SCALE),
                n <= MAX_POSITIONS,
        ;
        let unit = (SCALE as i128) * (SCALE as i128);
        if scaled_hhi <= unit {
            0
        } else {
            let v = 100 * (scaled_hhi - unit) / ((n as i128 - 1) * (SCALE as i128));
            if v > HUNDRED {
                HUNDRED
            } else {
                v
            }
        }
    }

    /// Sums of the liquidation points of the cross and of the isolated
    /// positions.
    pub fn liquidation_pressures(&self, positions: &[Position]) -> (r: (i128, i128))
        requires
            self.is_valid(),
            valid_positions(positions@),
        ensures
            r.0 == liquidation_pressure(positions@, self.limits, true),
            r.1 == liquidation_pressure(positions@, self.limits, false),
            0 <= r.0 <= positions@.len() * (10 * SCALE),
            0 <= r.1 <= positions@.len() * (10 * SCALE),
    {
        let n = positions.len();
        let mut cross: i128 = 0;
        let mut isolated: i128 = 0;
        let min_d = self.limits.min_distance_to_liq as i128;
        let mut i: usize = 0;
        assert(positions@.take(0) =~= Seq::<Position>::empty());
        while i < n
            invariant
                n == positions@.len(),
                i <= n,
                valid_positions(positions@),
                self.is_valid(),
                min_d == self.limits.min_distance_to_liq,
                cross == liquidation_pressure(positions@.take(i as int), self.limits, true),
                isolated == liquidation_pressure(positions@.take(i as int), self.limits, false),
                0 <= cross <= i * (10 * SCALE),
                0 <= isolated <= i * (10 * SCALE),
            decreases n - i,
        {
            let ghost before = positions@.take(i as int);
            let ghost after = positions@.take(i as int + 1);
            assert(after.drop_last() =~= before);
            assert(after.last() == positions@[i as int]);
            let p = &positions[i];
            assert(p.is_valid());
            let d = self.calculate_distance_to_liquidation(p);
            let points = if d < min_d {
                let w = weights(p.is_cross);
                assert(0 <= w.heat_liquidation <= 10);
                let gap = min_d - d;
                assert(w.heat_liquidation * SCALE * min_d <= 10 * SCALE * MAX_AMOUNT)
                    by (nonlinear_arith)
                    requires
                        0 <= w.heat_liquidation <= 10,
                        0 < min_d <= MAX_AMOUNT,
                ;
                assert(0 <= w.heat_liquidation * SCALE * gap <= w.heat_liquidation * SCALE * min_d)
                    by (nonlinear_arith)
                    requires
                        0 <= w.heat_liquidation <= 10,
                        0 < gap <= min_d,
                ;
                let v = w.heat_liquidation * (SCALE as i128) * gap / min_d;
                assert(0 <= v <= 10 * SCALE) by (nonlinear_arith)
                    requires
                        v == w.heat_liquidation * SCALE * gap / (min_d as int),
                        0 <= w.heat_liquidation * SCALE * gap <= w.heat_liquidation * SCALE
                            * min_d,
                        min_d >= 1,
                        w.heat_liquidation <= 10,
                ;
                v
            } else {
                0
            };
            assert(0 <= points <= 10 * SCALE);
            assert(points == liquidation_points(*p, self.limits));
            assert(cross + points <= (i + 1) * (10 * SCALE) && isolated + points <= (i + 1) * (10
                * SCALE) && (i + 1) * (10 * SCALE) <= MAX_POSITIONS * (10 * SCALE))
                by (nonlinear_arith)
                requires
                    cross <= i * (10 * SCALE),
                    isolated <= i * (10 * SCALE),
                    points <= 10 * SCALE,
                    i + 1 <= MAX_POSITIONS,
            ;
            if p.is_cross {
                cross = cross + points;
            } else {
                isolated = isolated + points;
            }
            i = i + 1;
        }
        assert(positions@.take(n as int) =~= positions@);
        (cross, isolated)
    }

    /// Portfolio heat, 0..=100, from the positions, their margin
    /// utilization and their concentration score.
    pub fn calculate_portfolio_heat(
        &self,
        positions: &[Position],
        margin_utilization: i128,
        concentration_score: i128,
    ) -> (r: i128)
        requires
            self.is_valid(),
            valid_positions(positions@),
            0 <= margin_utilization <= HUNDRED * (MAX_POSITIONS * MAX_AMOUNT),
            concentration_score == crate::calculation::concentration_score(positions@),
        ensures
            r == portfolio_heat(positions@, margin_utilization as int, self.limits),
            0 <= r <= HUNDRED,
    {
        let t = sum_totals(positions);
        proof {
            lemma_totals_bounds(positions@);
            assert(t.notional <= MAX_POSITIONS * MAX_AMOUNT) by (nonlinear_arith)
                requires
                    t.notional <= positions@.len() * MAX_AMOUNT,
                    positions@.len() <= MAX_POSITIONS,
            ;
        }
        let cross_lev = subset_heat(
            t.cross_weighted_leverage,
            t.cross_notional,
            t.notional,
            true,
            &self.limits,
        );
        let isolated_lev = subset_heat(
            t.isolated_weighted_leverage,
            t.isolated_notional,
            t.notional,
            false,
            &self.limits,
        );
        let lev_sum = cross_lev + isolated_lev;
        let lev_heat = if lev_sum < 30 * (SCALE as i128) {
            lev_sum
        } else {
            30 * (SCALE as i128)
        };
        let max_margin = self.limits.max_margin_utilization as i128;
        assert(0 <= 40 * SCALE * margin_utilization / (max_margin as int) <= 40 * SCALE
            * margin_utilization) by (nonlinear_arith)
            requires
                margin_utilization >= 0,
                max_margin >= 1,
        ;
        assert(0 <= 40 * (SCALE as i128) * margin_utilization
            <= 4_000_000_000_000_000_000_000_000_000_000_000) by (nonlinear_arith)
            requires
                0 <= margin_utilization <= 100_000_000_000_000_000_000_000_000,
                SCALE == 1_000_000,
        ;
        let margin_raw = 40 * (SCALE as i128) * margin_utilization / max_margin;
        let margin_part = if margin_raw < 40 * (SCALE as i128) {
            margin_raw
        } else {
            40 * (SCALE as i128)
        };
        let (cross_pressure, isolated_pressure) = self.liquidation_pressures(positions);
        let cross_capped = if cross_pressure < 8 * (SCALE as i128) {
            cross_pressure
        } else {
            8 * (SCALE as i128)
        };
        let isolated_capped = if isolated_pressure < 10 * (SCALE as i128) {
            isolated_pressure
        } else {
            10 * (SCALE as i128)
        };
        let cross_share = share_of(t.cross_notional, t.notional);
        let isolated_share = share_of(t.isolated_notional, t.notional);
        assert(0 <= cross_capped * cross_share <= 8 * SCALE * SCALE) by (nonlinear_arith)
            requires
                0 <= cross_capped <= 8 * SCALE,
                0 <= cross_share <= SCALE,
        ;
        assert(0 <= isolated_capped * isolated_share <= 10 * SCALE * SCALE) by (nonlinear_arith)
            requires
                0 <= isolated_capped <= 10 * SCALE,
                0 <= isolated_share <= SCALE,
        ;
        let liq_sum = cross_capped * cross_share / (SCALE as i128) + isolated_capped
            * isolated_share / (SCALE as i128);
        let liq_heat = if liq_sum < 10 * (SCALE as i128) {
            liq_sum
        } else {
            10 * (SCALE as i128)
        };
        let heat = lev_heat + margin_part + concentration_score / 5 + liq_heat;
        if heat < 0 {
            0
        } else if heat > HUNDRED {
            HUNDRED
        } else {
            heat
        }
    }

    /// Portfolio-wide metrics of the positions and account; all zero but
    /// the account value when there are no positions.
    pub fn calculate_portfolio_metrics(
        &self,
        positions: &[Position],
        account_summary: &AccountSummary,
    ) -> (r: Result<PortfolioMetrics, RiskError>)
        requires
            self.is_valid(),
            valid_positions(positions@),
            account_summary.is_valid(),
        ensures
            match r {
                Ok(m) => describes_portfolio(
                    m,
                    positions@,
                    account_summary.account_value as int,
                    self.limits,
                ),
                Err(_) => false,
            },
    {
        let account_value = account_summary.account_value as i128;
        if positions.len() == 0 {
            return Ok(
                PortfolioMetrics {
                    portfolio_heat: 0,
                    concentration_score: 0,
                    risk_adjusted_return: 0,
                    margin_utilization: 0,
                    total_unrealized_pnl: 0,
                    account_value,
                    total_position_value: 0,
                    average_leverage: 0,
                },
            );
        }
        let t = sum_totals(positions);
        proof {
            lemma_totals_bounds(positions@);
            assert(t.notional <= MAX_POSITIONS * MAX_AMOUNT && t.margin <= MAX_POSITIONS
                * MAX_AMOUNT) by (nonlinear_arith)
                requires
                    t.notional <= positions@.len() * MAX_AMOUNT,
                    t.margin <= positions@.len() * MAX_AMOUNT,
                    positions@.len() <= MAX_POSITIONS,
            ;
        }
        let margin_utilization = if account_value > 0 {
            assert(0 <= HUNDRED * t.margin / (account_value as int) <= HUNDRED * t.margin)
                by (nonlinear_arith)
                requires
                    t.margin >= 0,
                    account_value >= 1,
            ;
            HUNDRED * t.margin / account_value
        } else {
            0
        };
        let average_leverage = if t.notional > 0 {
            t.weighted_leverage / t.notional
        } else {
            0
        };
        let concentration = self.calculate_concentration_score(positions);
        let heat = self.calculate_portfolio_heat(positions, margin_utilization, concentration);
        let risk_adjusted_return = if t.notional > 0 && heat > 0 {
            let mean_return = div_toward_zero(t.weighted_return, t.notional);
            proof {
                let wr = t.weighted_return as int;
                let tn = t.notional as int;
                if wr >= 0 {
                    assert(0 <= wr / tn <= MAX_AMOUNT) by (nonlinear_arith)
                        requires
                            0 <= wr <= MAX_AMOUNT * tn,
                            tn > 0,
                    ;
                } else {
                    assert(0 <= (-wr) / tn <= MAX_AMOUNT) by (nonlinear_arith)
                        requires
                            0 <= -wr <= MAX_AMOUNT * tn,
                            tn > 0,
                    ;
                }
            }
            assert(-MAX_AMOUNT <= mean_return <= MAX_AMOUNT);
            assert(-50 * SCALE * MAX_AMOUNT <= 50 * SCALE * mean_return <= 50 * SCALE * MAX_AMOUNT)
                by (nonlinear_arith)
                requires
                    -MAX_AMOUNT <= mean_return <= MAX_AMOUNT,
            ;
            div_toward_zero(50 * (SCALE as i128) * mean_return, heat)
        } else {
            0
        };
        Ok(
            PortfolioMetrics {
                portfolio_heat: heat,
                concentration_score: concentration,
                risk_adjusted_return,
                margin_utilization,
                total_unrealized_pnl: t.unrealized_pnl,
                account_value,
                total_position_value: t.notional,
                average_leverage,
            },
        )
    }

    /// Metrics of each position, in order.
    pub fn calculate_position_metrics(
        &self,
        positions: &[Position],
        account_summary: &AccountSummary,
    ) -> (r: Result<Vec<PositionMetrics>, RiskError>)
        requires
            self.is_valid(),
            valid_positions(positions@),
            account_summary.is_valid(),
        ensures
            match r {
                Ok(ms) => {
                    &&& ms@.len() == positions@.len()
                    &&& forall|i: int|
                        0 <= i < ms@.len() ==> describes_position(
                            #[trigger] ms@[i],
                            positions@[i],
                            total_notional(positions@),
                            account_summary.account_value as int,
                            self.limits,
                        )
                },
                Err(_) => false,
            },
    {
        let n = positions.len();
        let t = sum_totals(positions);
        proof {
            lemma_totals_bounds(positions@);
        }
        let total = t.notional;
        let account_value = account_summary.account_value;
        let mut out: Vec<PositionMetrics> = Vec::new();
        let mut i: usize = 0;
        while i < n
            invariant
                n == positions@.len(),
                i <= n,
                self.is_valid(),
                valid_positions(positions@),
                account_value == account_summary.account_value,
                total == total_notional(positions@),
                out@.len() == i,
                forall|j: int|
                    0 <= j < i ==> describes_position(
                        #[trigger] out@[j],
                        positions@[j],
                        total as int,
                        account_value as int,
                        self.limits,
                    ),
            decreases n - i,
        {
            let p = &positions[i];
            assert(p.is_valid());
            proof {
                lemma_notional_within_total(positions@, i as int);
            }
            let d = self.calculate_distance_to_liquidation(p);
            let ratio = self.calculate_position_size_ratio(p, account_value);
            let score = self.calculate_position_risk_score(p, d, ratio);
            let contribution = if total > 0 {
                let a = notional_of(p);
                assert(0 <= score * a <= HUNDRED * MAX_AMOUNT) by (nonlinear_arith)
                    requires
                        0 <= score <= HUNDRED,
                        0 <= a <= MAX_AMOUNT,
                ;
                score * a / total
            } else {
                0
            };
            out.push(
                PositionMetrics {
                    position: p.duplicate(),
                    distance_to_liquidation: d,
                    position_size_ratio: ratio,
                    risk_score: score,
                    contribution_to_portfolio: contribution,
                },
            );
            i = i + 1;
        }
        Ok(out)
    }
}


/// Total notional of positions that all have notional `a`.
proof fn lemma_equal_total(ps: Seq<Position>, a: int)
    requires
        forall|i: int| 0 <= i < ps.len() ==> notional(#[trigger] ps[i]) == a,
    ensures
        total_notional(ps) == ps.len() * a,
    decreases ps.len(),
{
    if ps.len() > 0 {
        let q = ps.drop_last();
        assert forall|i: int| 0 <= i < q.len() implies notional(#[trigger] q[i]) == a by {
            assert(q[i] == ps[i]);
        }
        lemma_equal_total(q, a);
        assert(ps.last() == ps[ps.len() - 1]);
        assert((q.len() * a) + a == ps.len() * a) by (nonlinear_arith)
            requires
                ps.len() == q.len() + 1,
        ;
    }
}

/// Squared shares of positions that all have notional `a`.
proof fn lemma_equal_squares(ps: Seq<Position>, a: int, total: int)
    requires
        forall|i: int| 0 <= i < ps.len() ==> notional(#[trigger] ps[i]) == a,
    ensures
        squared_shares(ps, total) == ps.len() * (share(a, total) * share(a, total)),
    decreases ps.len(),
{
    if ps.len() > 0 {
        let q = ps.drop_last();
        assert forall|i: int| 0 <= i < q.len() implies notional(#[trigger] q[i]) == a by {
            assert(q[i] == ps[i]);
        }
        lemma_equal_squares(q, a, total);
        assert(ps.last() == ps[ps.len() - 1]);
        let s = share(a, total);
        assert(q.len() * (s * s) + s * s == ps.len() * (s * s)) by (nonlinear_arith)
            requires
                ps.len() == q.len() + 1,
        ;
    }
}

/// The concentration score lies in 0..=100 for every list; a single
/// position scores exactly 100, and two or more positions of equal notional
/// score 0.
pub proof fn lemma_concentration_score(ps: Seq<Position>)
    ensures
        0 <= concentration_score(ps) <= HUNDRED,
        ps.len() == 1 ==> concentration_score(ps) == HUNDRED,
        ps.len() >= 2 && (forall|i: int, j: int|
            0 <= i < ps.len() && 0 <= j < ps.len() ==> notional(#[trigger] ps[i]) == notional(
                #[trigger] ps[j],
            )) ==> concentration_score(ps) == 0,
{
    let n = ps.len() as int;
    let total = total_notional(ps);
    if n >= 2 && (forall|i: int, j: int|
        0 <= i < ps.len() && 0 <= j < ps.len() ==> notional(#[trigger] ps[i]) == notional(
            #[trigger] ps[j],
        )) {
        let a = notional(ps[0]);
        assert forall|i: int| 0 <= i < ps.len() implies notional(#[trigger] ps[i]) == a by {
            assert(notional(ps[i]) == notional(ps[0]));
        }
        lemma_equal_total(ps, a);
        lemma_equal_squares(ps, a, total);
        if total > 0 {
            assert(a > 0) by (nonlinear_arith)
                requires
                    total == n * a,
                    total > 0,
                    n >= 2,
            ;
            vstd::arithmetic::div_mod::lemma_div_multiples_vanish_quotient(a, SCALE as int, n);
            assert(a * (SCALE as int) == SCALE * a && a * n == total) by (nonlinear_arith)
                requires
                    total == n * a,
            ;
            let s = share(a, total);
            assert(s == (SCALE as int) / n);
            vstd::arithmetic::div_mod::lemma_fundamental_div_mod(SCALE as int, n);
            assert(n * s <= SCALE) by {
                vstd::arithmetic::div_mod::lemma_mod_pos_bound(SCALE as int, n);
            }
            assert(n * (n * (s * s)) <= SCALE * SCALE) by (nonlinear_arith)
                requires
                    0 <= n * s <= SCALE,
                    n >= 2,
            ;
        }
    }
}

/// Portfolio heat and every position's risk score lie in 0..=100, whatever
/// the inputs.
pub proof fn lemma_scores_within_range(
    ps: Seq<Position>,
    account_value: int,
    limits: RiskLimits,
    p: Position,
)
    ensures
        0 <= portfolio_heat(ps, margin_utilization(ps, account_value), limits) <= HUNDRED,
        0 <= risk_score(
            p,
            distance_to_liquidation(p),
            position_size_ratio(p, account_value),
            limits,
        ) <= HUNDRED,
{
}

/// Of two positions that differ only in margin type, the isolated one's
/// risk score is at least the cross one's.
pub proof fn lemma_isolated_scores_at_least_cross(
    p: Position,
    account_value: int,
    limits: RiskLimits,
)
    requires
        p.is_valid(),
        limits.is_valid(),
    ensures
        ({
            let c = Position { is_cross: true, ..p };
            let i = Position { is_cross: false, ..p };
            risk_score(i, distance_to_liquidation(i), position_size_ratio(i, account_value), limits)
                >= risk_score(
                c,
                distance_to_liquidation(c),
                position_size_ratio(c, account_value),
                limits,
            )
        }),
{
    let c = Position { is_cross: true, ..p };
    let i = Position { is_cross: false, ..p };
    let d = distance_to_liquidation(c);
    assert(distance_to_liquidation(i) == d);
    let r = position_size_ratio(c, account_value);
    assert(position_size_ratio(i, account_value) == r);
    if account_value > 0 {
        assert(HUNDRED * p.margin_used / account_value >= 0) by (nonlinear_arith)
            requires
                p.margin_used >= 0,
                account_value > 0,
        ;
    }
    assert(r >= 0);
    let lev = p.leverage as int;
    let ml = limits.max_leverage as int;
    assert(35 * SCALE * lev <= 40 * SCALE * lev) by (nonlinear_arith)
        requires
            lev >= 0,
    ;
    vstd::arithmetic::div_mod::lemma_div_is_ordered(35 * SCALE * lev, 40 * SCALE * lev, ml);
    assert(leverage_points(i, limits) >= leverage_points(c, limits));
    let md = limits.min_distance_to_liq as int;
    if d < md {
        assert(35 * SCALE * (md - d) <= 40 * SCALE * (md - d)) by (nonlinear_arith)
            requires
                md - d > 0,
        ;
        vstd::arithmetic::div_mod::lemma_div_is_ordered(
            35 * SCALE * (md - d),
            40 * SCALE * (md - d),
            md,
        );
    }
    assert(distance_points(i, d, limits) >= distance_points(c, d, limits));
    let mp = limits.max_position_pct as int;
    assert(20 * SCALE * r <= 25 * SCALE * r) by (nonlinear_arith)
        requires
            r >= 0,
    ;
    vstd::arithmetic::div_mod::lemma_div_is_ordered(20 * SCALE * r, 25 * SCALE * r, mp);
    assert(size_points(i, r, limits) >= size_points(c, r, limits));
}

/// Portfolio metrics are a function of the positions, account value and
/// limits: two results that both describe the same inputs are equal.
pub proof fn lemma_portfolio_metrics_deterministic(
    m1: PortfolioMetrics,
    m2: PortfolioMetrics,
    ps: Seq<Position>,
    account_value: int,
    limits: RiskLimits,
)
    requires
        describes_portfolio(m1, ps, account_value, limits),
        describes_portfolio(m2, ps, account_value, limits),
    ensures
        m1 == m2,
{
}

/// A position's metrics are a function of the position, the portfolio
/// total, the account value and the limits.
pub proof fn lemma_position_metrics_deterministic(
    k1: PositionMetrics,
    k2: PositionMetrics,
    p: Position,
    total: int,
    account_value: int,
    limits: RiskLimits,
)
    requires
        describes_position(k1, p, total, account_value, limits),
        describes_position(k2, p, total, account_value, limits),
    ensures
        k1 == k2,
{
}

} // verus!
