use vstd::prelude::*;

use crate::margin::{margin_weights, weights};
use crate::text::{fixed_text, push_fixed};
use crate::types::{
    PortfolioMetrics, PositionMetrics, RiskError, RiskLimits, RiskSeverity, RiskWarning,
    RiskWarningType, WarningView, warning_views, SCALE,
};

verus! {

/// `den * x > num * base`, for any `x`, without overflow.
fn exceeds(x: i128, num: i128, den: i128, base: i128) -> (r: bool)
    requires
        1 <= den <= 10,
        0 <= num <= 10,
        0 <= base <= 1_000_000_000_000_000,
    ensures
        r == (den * x > num * base),
{
    assert(0 <= num * base <= 100_000_000_000_000_000) by (nonlinear_arith)
        requires
            0 <= num <= 100,
            0 <= base <= 1_000_000_000_000_000,
    ;
    if x > 1_000_000_000_000_000_000 {
        assert(den * x > 1_000_000_000_000_000_000) by (nonlinear_arith)
            requires
                den >= 1,
                x > 1_000_000_000_000_000_000,
        ;
        true
    } else if x < -1_000_000_000_000_000_000 {
        assert(den * x < -1_000_000_000_000_000_000) by (nonlinear_arith)
            requires
                den >= 1,
                x < -1_000_000_000_000_000_000,
        ;
        false
    } else {
        assert(-100_000_000_000_000_000_000 <= den * x <= 100_000_000_000_000_000_000)
            by (nonlinear_arith)
            requires
                1 <= den <= 100,
                -1_000_000_000_000_000_000 <= x <= 1_000_000_000_000_000_000,
        ;
        den * x > num * base
    }
}

/// `den * x >= num * base`, for any `x`, without overflow.
fn reaches(x: i128, num: i128, den: i128, base: i128) -> (r: bool)
    requires
        1 <= den <= 100,
        0 <= num <= 100,
        0 <= base <= 1_000_000_000_000_000,
    ensures
        r == (den * x >= num * base),
{
    assert(0 <= num * base <= 100_000_000_000_000_000) by (nonlinear_arith)
        requires
            0 <= num <= 100,
            0 <= base <= 1_000_000_000_000_000,
    ;
    if x > 1_000_000_000_000_000_000 {
        assert(den * x > 1_000_000_000_000_000_000) by (nonlinear_arith)
            requires
                den >= 1,
                x > 1_000_000_000_000_000_000,
        ;
        true
    } else if x < -1_000_000_000_000_000_000 {
        assert(den * x < -1_000_000_000_000_000_000) by (nonlinear_arith)
            requires
                den >= 1,
                x < -1_000_000_000_000_000_000,
        ;
        false
    } else {
        assert(-100_000_000_000_000_000_000 <= den * x <= 100_000_000_000_000_000_000)
            by (nonlinear_arith)
            requires
                1 <= den <= 100,
                -1_000_000_000_000_000_000 <= x <= 1_000_000_000_000_000_000,
        ;
        den * x >= num * base
    }
}

/// "cross" or "isolated".
pub open spec fn margin_label(is_cross: bool) -> Seq<char> {
    if is_cross {
        "cross"@
    } else {
        "isolated"@
    }
}

pub open spec fn one(w: WarningView) -> Seq<WarningView> {
    seq![w]
}

pub open spec fn none() -> Seq<WarningView> {
    Seq::<WarningView>::empty()
}

// ---------------------------------------------------------------- portfolio

pub open spec fn margin_message(utilization: int, max: int) -> Seq<char> {
    "Margin utilization is high at "@ + fixed_text(utilization) + "% (threshold: "@ + fixed_text(
        max,
    ) + "%)"@
}

/// Warning on margin utilization above 90% of the maximum: critical at the
/// maximum, high from 95% of it.
pub open spec fn margin_warning(m: PortfolioMetrics, limits: RiskLimits) -> Seq<WarningView> {
    let u = m.margin_utilization as int;
    let max = limits.max_margin_utilization as int;
    if 10 * u > 9 * max {
        one(
            WarningView {
                warning_type: RiskWarningType::MarginUtilizationHigh,
                severity: if u >= max {
                    RiskSeverity::Critical
                } else if 100 * u >= 95 * max {
                    RiskSeverity::High
                } else {
                    RiskSeverity::Medium
                },
                message: margin_message(u, max),
                suggested_action: "Consider reducing position sizes or adding more collateral."@,
                related_position: None,
            },
        )
    } else {
        none()
    }
}

pub open spec fn heat_message(heat: int) -> Seq<char> {
    "Overall portfolio risk is high with a heat score of "@ + fixed_text(heat)
}

/// Warning on heat above 70: critical from 90, high from 80.
pub open spec fn heat_warning(m: PortfolioMetrics) -> Seq<WarningView> {
    let h = m.portfolio_heat as int;
    if h > 70 * SCALE {
        one(
            WarningView {
                warning_type: RiskWarningType::OverallPortfolioRisk,
                severity: if h >= 90 * SCALE {
                    RiskSeverity::Critical
                } else if h >= 80 * SCALE {
                    RiskSeverity::High
                } else {
                    RiskSeverity::Medium
                },
                message: heat_message(h),
                suggested_action: "Reduce leverage or diversify positions to lower overall risk."@,
                related_position: None,
            },
        )
    } else {
        none()
    }
}

pub open spec fn concentration_message(score: int) -> Seq<char> {
    "Portfolio is highly concentrated with a score of "@ + fixed_text(score)
}

/// Medium warning on a concentration score above 80 with a positive total.
pub open spec fn concentration_warning(m: PortfolioMetrics) -> Seq<WarningView> {
    let c = m.concentration_score as int;
    if c > 80 * SCALE && m.total_position_value > 0 {
        one(
            WarningView {
                warning_type: RiskWarningType::HighConcentration,
                severity: RiskSeverity::Medium,
                message: concentration_message(c),
                suggested_action: "Consider diversifying your positions across more assets."@,
                related_position: None,
            },
        )
    } else {
        none()
    }
}

pub open spec fn average_leverage_message(leverage: int, max: int) -> Seq<char> {
    "Average portfolio leverage is high at "@ + fixed_text(leverage) + "x (threshold: "@
        + fixed_text(max) + "x)"@
}

/// Warning on average leverage above 80% of the maximum: high at the
/// maximum.
pub open spec fn average_leverage_warning(m: PortfolioMetrics, limits: RiskLimits) -> Seq<
    WarningView,
> {
    let l = m.average_leverage as int;
    let max = limits.max_leverage as int;
    if 10 * l > 8 * max {
        one(
            WarningView {
                warning_type: RiskWarningType::HighLeverage,
                severity: if l >= max {
                    RiskSeverity::High
                } else {
                    RiskSeverity::Medium
                },
                message: average_leverage_message(l, max),
                suggested_action: "Consider reducing leverage to minimize liquidation risk."@,
                related_position: None,
            },
        )
    } else {
        none()
    }
}

/// Portfolio-level warnings, in the order the checks run.
pub open spec fn portfolio_warnings(m: PortfolioMetrics, limits: RiskLimits) -> Seq<WarningView> {
    margin_warning(m, limits) + heat_warning(m) + concentration_warning(m)
        + average_leverage_warning(m, limits)
}

// ----------------------------------------------------------------- position

pub open spec fn leverage_message(coin: Seq<char>, is_cross: bool, leverage: int, max: int) -> Seq<
    char,
> {
    coin + ": "@ + margin_label(is_cross) + " margin leverage is high at "@ + fixed_text(leverage)
        + "x (threshold: "@ + fixed_text(max) + "x)"@
}

pub open spec fn leverage_action(coin: Seq<char>, is_cross: bool) -> Seq<char> {
    "Consider reducing leverage for "@ + coin + " position or switching to "@ + (if is_cross {
        "lower"@
    } else {
        "cross"@
    }) + " margin."@
}

/// Warning on a position's leverage above its margin type's trigger (80% of
/// the maximum for cross, 70% for isolated): high at the maximum, or for
/// isolated from 90% of it.
pub open spec fn leverage_warning(m: PositionMetrics, limits: RiskLimits) -> Seq<WarningView> {
    let p = m.position;
    let lev = p.leverage as int;
    let max = limits.max_leverage as int;
    if 10 * lev > margin_weights(p.is_cross).leverage_trigger_tenths * max {
        one(
            WarningView {
                warning_type: RiskWarningType::HighLeverage,
                severity: if lev >= max || (!p.is_cross && 10 * lev >= 9 * max) {
                    RiskSeverity::High
                } else {
                    RiskSeverity::Medium
                },
                message: leverage_message(p.coin@, p.is_cross, lev, max),
                suggested_action: leverage_action(p.coin@, p.is_cross),
                related_position: Some(p.coin@),
            },
        )
    } else {
        none()
    }
}

pub open spec fn liquidation_message(
    coin: Seq<char>,
    is_cross: bool,
    distance: int,
    threshold: int,
) -> Seq<char> {
    coin + ": "@ + margin_label(is_cross) + " margin position close to liquidation at "@
        + fixed_text(distance) + "% distance (threshold: "@ + fixed_text(threshold) + "%)"@
}

pub open spec fn liquidation_action(coin: Seq<char>, is_cross: bool) -> Seq<char> {
    "Urgently reduce position size or add margin to the "@ + coin + " position"@ + (if is_cross {
        ""@
    } else {
        " or consider switching to cross margin"@
    }) + "."@
}

/// Warning on a distance to liquidation below its margin type's trigger
/// (the minimum for cross, 1.5 times it for isolated): critical below half
/// the minimum, high below 70% of it, or for isolated below it.
pub open spec fn liquidation_warning(m: PositionMetrics, limits: RiskLimits) -> Seq<WarningView> {
    let p = m.position;
    let d = m.distance_to_liquidation as int;
    let min_d = limits.min_distance_to_liq as int;
    let halves = margin_weights(p.is_cross).distance_trigger_halves;
    if 2 * d < halves * min_d {
        one(
            WarningView {
                warning_type: RiskWarningType::LiquidationRisk,
                severity: if 2 * d < min_d {
                    RiskSeverity::Critical
                } else if 10 * d < 7 * min_d || (!p.is_cross && d < min_d) {
                    RiskSeverity::High
                } else {
                    RiskSeverity::Medium
                },
                message: liquidation_message(p.coin@, p.is_cross, d, halves * min_d / 2),
                suggested_action: liquidation_action(p.coin@, p.is_cross),
                related_position: Some(p.coin@),
            },
        )
    } else {
        none()
    }
}

pub open spec fn size_message(coin: Seq<char>, is_cross: bool, ratio: int, threshold: int) -> Seq<
    char,
> {
    coin + ": "@ + margin_label(is_cross) + " margin position uses "@ + fixed_text(ratio)
        + "% of account value (threshold: "@ + fixed_text(threshold) + "%)"@
}

pub open spec fn size_action(coin: Seq<char>, is_cross: bool) -> Seq<char> {
    "Consider reducing the size of the "@ + coin + " position to improve diversification"@ + (
    if is_cross {
        ""@
    } else {
        " or switching to cross margin"@
    }) + "."@
}

/// Warning on a size ratio above its margin type's trigger (the maximum for
/// cross, 80% of it for isolated): high for isolated above the maximum.
pub open spec fn size_warning(m: PositionMetrics, limits: RiskLimits) -> Seq<WarningView> {
    let p = m.position;
    let r = m.position_size_ratio as int;
    let max = limits.max_position_pct as int;
    let tenths = margin_weights(p.is_cross).size_trigger_tenths;
    if 10 * r > tenths * max {
        one(
            WarningView {
                warning_type: RiskWarningType::PositionSizeExceeded,
                severity: if !p.is_cross && r > max {
                    RiskSeverity::High
                } else {
                    RiskSeverity::Medium
                },
                message: size_message(p.coin@, p.is_cross, r, tenths * max / 10),
                suggested_action: size_action(p.coin@, p.is_cross),
                related_position: Some(p.coin@),
            },
        )
    } else {
        none()
    }
}

pub open spec fn value_message(coin: Seq<char>, value: int, cap: int) -> Seq<char> {
    coin + ": Position value is $"@ + fixed_text(value) + " (threshold: $"@ + fixed_text(cap)
        + ")"@
}

pub open spec fn value_action(coin: Seq<char>) -> Seq<char> {
    "Consider reducing the size of the "@ + coin + " position to stay within USD limits."@
}

/// Medium warning on a notional magnitude above the USD cap.
pub open spec fn value_warning(m: PositionMetrics, limits: RiskLimits) -> Seq<WarningView> {
    let p = m.position;
    let v = if p.position_value < 0 {
        -p.position_value
    } else {
        p.position_value as int
    };
    let cap = limits.max_position_size_usd as int;
    if v > cap {
        one(
            WarningView {
                warning_type: RiskWarningType::PositionSizeExceeded,
                severity: RiskSeverity::Medium,
                message: value_message(p.coin@, v, cap),
                suggested_action: value_action(p.coin@),
                related_position: Some(p.coin@),
            },
        )
    } else {
        none()
    }
}

/// The warnings of one position, in the order the checks run.
pub open spec fn position_warnings(m: PositionMetrics, limits: RiskLimits) -> Seq<WarningView> {
    leverage_warning(m, limits) + liquidation_warning(m, limits) + size_warning(m, limits)
        + value_warning(m, limits)
}

/// The warnings of each position in turn.
pub open spec fn all_position_warnings(ms: Seq<PositionMetrics>, limits: RiskLimits) -> Seq<
    WarningView,
>
    decreases ms.len(),
{
    if ms.len() == 0 {
        none()
    } else {
        all_position_warnings(ms.drop_last(), limits) + position_warnings(ms.last(), limits)
    }
}

/// Every warning the metrics call for, in the order the checks run.
pub open spec fn raw_warnings(
    m: PortfolioMetrics,
    ms: Seq<PositionMetrics>,
    limits: RiskLimits,
) -> Seq<WarningView> {
    portfolio_warnings(m, limits) + all_position_warnings(ms, limits)
}

// ------------------------------------------------------------------ ranking

/// The warnings of severity `s`, in the order they were raised.
pub open spec fn of_severity(ws: Seq<WarningView>, s: RiskSeverity) -> Seq<WarningView>
    decreases ws.len(),
{
    if ws.len() == 0 {
        ws
    } else if ws.last().severity == s {
        of_severity(ws.drop_last(), s).push(ws.last())
    } else {
        of_severity(ws.drop_last(), s)
    }
}

/// The warnings ordered from critical to low; equal severities keep their
/// order.
pub open spec fn by_severity(ws: Seq<WarningView>) -> Seq<WarningView> {
    of_severity(ws, RiskSeverity::Critical) + of_severity(ws, RiskSeverity::High) + of_severity(
        ws,
        RiskSeverity::Medium,
    ) + of_severity(ws, RiskSeverity::Low)
}

/// Every warning that [`of_severity`] keeps has that severity.
pub proof fn lemma_of_severity(ws: Seq<WarningView>, s: RiskSeverity)
    ensures
        forall|i: int|
            0 <= i < of_severity(ws, s).len() ==> (#[trigger] of_severity(ws, s)[i]).severity == s,
    decreases ws.len(),
{
    if ws.len() > 0 {
        lemma_of_severity(ws.drop_last(), s);
    }
}

proof fn lemma_of_severity_partition(ws: Seq<WarningView>)
    ensures
        of_severity(ws, RiskSeverity::Critical).to_multiset().add(
            of_severity(ws, RiskSeverity::High).to_multiset(),
        ).add(of_severity(ws, RiskSeverity::Medium).to_multiset()).add(
            of_severity(ws, RiskSeverity::Low).to_multiset(),
        ) =~= ws.to_multiset(),
    decreases ws.len(),
{
    broadcast use vstd::multiset::group_multiset_axioms;

    if ws.len() == 0 {
        ws.to_multiset_ensures();
        of_severity(ws, RiskSeverity::Critical).to_multiset_ensures();
        of_severity(ws, RiskSeverity::High).to_multiset_ensures();
        of_severity(ws, RiskSeverity::Medium).to_multiset_ensures();
        of_severity(ws, RiskSeverity::Low).to_multiset_ensures();
    } else {
        let q = ws.drop_last();
        let x = ws.last();
        lemma_of_severity_partition(q);
        assert(q.push(x) =~= ws);
        q.to_multiset_ensures();
        of_severity(q, RiskSeverity::Critical).to_multiset_ensures();
        of_severity(q, RiskSeverity::High).to_multiset_ensures();
        of_severity(q, RiskSeverity::Medium).to_multiset_ensures();
        of_severity(q, RiskSeverity::Low).to_multiset_ensures();
    }
}

/// Ranking keeps every warning: the ranked list holds exactly the warnings
/// it was given, each as many times.
pub proof fn lemma_by_severity_keeps_all(ws: Seq<WarningView>)
    ensures
        by_severity(ws).to_multiset() =~= ws.to_multiset(),
        by_severity(ws).len() == ws.len(),
{
    broadcast use vstd::multiset::group_multiset_axioms;

    let c = of_severity(ws, RiskSeverity::Critical);
    let h = of_severity(ws, RiskSeverity::High);
    let m = of_severity(ws, RiskSeverity::Medium);
    let l = of_severity(ws, RiskSeverity::Low);
    lemma_of_severity_partition(ws);
    vstd::seq_lib::lemma_multiset_commutative(c, h);
    vstd::seq_lib::lemma_multiset_commutative(c + h, m);
    vstd::seq_lib::lemma_multiset_commutative(c + h + m, l);
    by_severity(ws).to_multiset_ensures();
    ws.to_multiset_ensures();
}

/// The ranked list never has a warning below one of lower severity.
pub proof fn lemma_by_severity_sorted(ws: Seq<WarningView>)
    ensures
        forall|i: int, j: int|
            0 <= i < j < by_severity(ws).len() ==> (#[trigger] by_severity(ws)[i]).severity.rank()
                >= (#[trigger] by_severity(ws)[j]).severity.rank(),
{
    lemma_of_severity(ws, RiskSeverity::Critical);
    lemma_of_severity(ws, RiskSeverity::High);
    lemma_of_severity(ws, RiskSeverity::Medium);
    lemma_of_severity(ws, RiskSeverity::Low);
    let c = of_severity(ws, RiskSeverity::Critical);
    let h = of_severity(ws, RiskSeverity::High);
    let m = of_severity(ws, RiskSeverity::Medium);
    let l = of_severity(ws, RiskSeverity::Low);
    let r = by_severity(ws);
    assert forall|i: int| 0 <= i < r.len() implies (#[trigger] r[i]).severity.rank() == (if i
        < c.len() {
        3nat
    } else if i < c.len() + h.len() {
        2nat
    } else if i < c.len() + h.len() + m.len() {
        1nat
    } else {
        0nat
    }) by {
        if i < c.len() {
            assert(r[i] == c[i]);
        } else if i < c.len() + h.len() {
            assert(r[i] == h[i - c.len()]);
        } else if i < c.len() + h.len() + m.len() {
            assert(r[i] == m[i - c.len() - h.len()]);
        } else {
            assert(r[i] == l[i - c.len() - h.len() - m.len()]);
        }
    }
}

// ---------------------------------------------------------------- execution

/// The view of an optional warning: empty or one element.
pub open spec fn opt_view(w: Option<RiskWarning>) -> Seq<WarningView> {
    match w {
        Some(w) => seq![w@],
        None => none(),
    }
}

proof fn lemma_append_four(
    s: Seq<WarningView>,
    a: Seq<WarningView>,
    b: Seq<WarningView>,
    c: Seq<WarningView>,
    d: Seq<WarningView>,
)
    ensures
        s + a + b + c + d == s + (a + b + c + d),
{
    assert(s + a + b + c + d =~= s + (a + b + c + d));
}

/// Warnings sorted into one list per severity as they are produced.
struct SeverityBuckets {
    critical: Vec<RiskWarning>,
    high: Vec<RiskWarning>,
    medium: Vec<RiskWarning>,
    low: Vec<RiskWarning>,
    /// Every warning filed so far, in filing order.
    filed: Ghost<Seq<WarningView>>,
}

impl SeverityBuckets {
    spec fn wf(&self) -> bool {
        &&& warning_views(self.critical@) == of_severity(self.filed@, RiskSeverity::Critical)
        &&& warning_views(self.high@) == of_severity(self.filed@, RiskSeverity::High)
        &&& warning_views(self.medium@) == of_severity(self.filed@, RiskSeverity::Medium)
        &&& warning_views(self.low@) == of_severity(self.filed@, RiskSeverity::Low)
    }

    fn new() -> (r: SeverityBuckets)
        ensures
            r.wf(),
            r.filed@ == none(),
    {
        let r = SeverityBuckets {
            critical: Vec::new(),
            high: Vec::new(),
            medium: Vec::new(),
            low: Vec::new(),
            filed: Ghost(none()),
        };
        assert(warning_views(r.critical@) =~= none());
        assert(warning_views(r.high@) =~= none());
        assert(warning_views(r.medium@) =~= none());
        assert(warning_views(r.low@) =~= none());
        r
    }

    fn file(&mut self, w: RiskWarning)
        requires
            old(self).wf(),
        ensures
            final(self).wf(),
            final(self).filed@ == old(self).filed@.push(w@),
    {
        let ghost v = w@;
        let ghost filed = self.filed@.push(v);
        assert(filed.drop_last() =~= self.filed@);
        assert(filed.last() == v);
        match w.severity {
            RiskSeverity::Critical => {
                proof {
                    assert(warning_views(self.critical@.push(w)) =~= warning_views(
                        self.critical@,
                    ).push(v));
                }
                self.critical.push(w);
            },
            RiskSeverity::High => {
                proof {
                    assert(warning_views(self.high@.push(w)) =~= warning_views(self.high@).push(
                        v,
                    ));
                }
                self.high.push(w);
            },
            RiskSeverity::Medium => {
                proof {
                    assert(warning_views(self.medium@.push(w)) =~= warning_views(
                        self.medium@,
                    ).push(v));
                }
                self.medium.push(w);
            },
            RiskSeverity::Low => {
                proof {
                    assert(warning_views(self.low@.push(w)) =~= warning_views(self.low@).push(v));
                }
                self.low.push(w);
            },
        }
        self.filed = Ghost(filed);
    }

    fn file_opt(&mut self, w: Option<RiskWarning>)
        requires
            old(self).wf(),
        ensures
            final(self).wf(),
            final(self).filed@ == old(self).filed@ + opt_view(w),
    {
        match w {
            Some(w) => {
                self.file(w);
                assert(self.filed@ =~= old(self).filed@ + opt_view(Some(w)));
            },
            None => {
                assert(self.filed@ =~= old(self).filed@ + opt_view(None));
            },
        }
    }

    fn into_ranked(self) -> (r: Vec<RiskWarning>)
        requires
            self.wf(),
        ensures
            warning_views(r@) == by_severity(self.filed@),
    {
        let SeverityBuckets { critical, mut high, mut medium, mut low, filed } = self;
        let mut out = critical;
        let ghost c = out@;
        let ghost h = high@;
        let ghost m = medium@;
        let ghost l = low@;
        out.append(&mut high);
        out.append(&mut medium);
        out.append(&mut low);
        assert(out@ =~= c + h + m + l);
        assert(warning_views(c + h + m + l) =~= warning_views(c) + warning_views(h)
            + warning_views(m) + warning_views(l));
        out
    }
}

fn margin_text(u: i128, max: i64) -> (r: String)
    ensures
        r@ == margin_message(u as int, max as int),
{
    let mut s = String::from_str("Margin utilization is high at ");
    push_fixed(&mut s, u);
    s.append("% (threshold: ");
    push_fixed(&mut s, max as i128);
    s.append("%)");
    s
}

fn heat_text(h: i128) -> (r: String)
    ensures
        r@ == heat_message(h as int),
{
    let mut s = String::from_str("Overall portfolio risk is high with a heat score of ");
    push_fixed(&mut s, h);
    s
}

fn concentration_text(c: i128) -> (r: String)
    ensures
        r@ == concentration_message(c as int),
{
    let mut s = String::from_str("Portfolio is highly concentrated with a score of ");
    push_fixed(&mut s, c);
    s
}

fn average_leverage_text(l: i128, max: i64) -> (r: String)
    ensures
        r@ == average_leverage_message(l as int, max as int),
{
    let mut s = String::from_str("Average portfolio leverage is high at ");
    push_fixed(&mut s, l);
    s.append("x (threshold: ");
    push_fixed(&mut s, max as i128);
    s.append("x)");
    s
}

fn label(is_cross: bool) -> (r: &'static str)
    ensures
        r@ == margin_label(is_cross),
{
    if is_cross {
        "cross"
    } else {
        "isolated"
    }
}

fn leverage_text(coin: &String, is_cross: bool, lev: i64, max: i64) -> (r: String)
    ensures
        r@ == leverage_message(coin@, is_cross, lev as int, max as int),
{
    let mut s = coin.clone();
    s.append(": ");
    s.append(label(is_cross));
    s.append(" margin leverage is high at ");
    push_fixed(&mut s, lev as i128);
    s.append("x (threshold: ");
    push_fixed(&mut s, max as i128);
    s.append("x)");
    s
}

fn leverage_advice(coin: &String, is_cross: bool) -> (r: String)
    ensures
        r@ == leverage_action(coin@, is_cross),
{
    let mut s = String::from_str("Consider reducing leverage for ");
    s.append(coin.as_str());
    s.append(" position or switching to ");
    s.append(
        if is_cross {
            "lower"
        } else {
            "cross"
        },
    );
    s.append(" margin.");
    s
}

fn liquidation_text(coin: &String, is_cross: bool, d: i128, threshold: i128) -> (r: String)
    ensures
        r@ == liquidation_message(coin@, is_cross, d as int, threshold as int),
{
    let mut s = coin.clone();
    s.append(": ");
    s.append(label(is_cross));
    s.append(" margin position close to liquidation at ");
    push_fixed(&mut s, d);
    s.append("% distance (threshold: ");
    push_fixed(&mut s, threshold);
    s.append("%)");
    s
}

fn liquidation_advice(coin: &String, is_cross: bool) -> (r: String)
    ensures
        r@ == liquidation_action(coin@, is_cross),
{
    let mut s = String::from_str("Urgently reduce position size or add margin to the ");
    s.append(coin.as_str());
    s.append(" position");
    s.append(
        if is_cross {
            ""
        } else {
            " or consider switching to cross margin"
        },
    );
    s.append(".");
    s
}

fn size_text(coin: &String, is_cross: bool, ratio: i128, threshold: i128) -> (r: String)
    ensures
        r@ == size_message(coin@, is_cross, ratio as int, threshold as int),
{
    let mut s = coin.clone();
    s.append(": ");
    s.append(label(is_cross));
    s.append(" margin position uses ");
    push_fixed(&mut s, ratio);
    s.append("% of account value (threshold: ");
    push_fixed(&mut s, threshold);
    s.append("%)");
    s
}

fn size_advice(coin: &String, is_cross: bool) -> (r: String)
    ensures
        r@ == size_action(coin@, is_cross),
{
    let mut s = String::from_str("Consider reducing the size of the ");
    s.append(coin.as_str());
    s.append(" position to improve diversification");
    s.append(
        if is_cross {
            ""
        } else {
            " or switching to cross margin"
        },
    );
    s.append(".");
    s
}

fn value_text(coin: &String, value: i128, cap: i128) -> (r: String)
    ensures
        r@ == value_message(coin@, value as int, cap as int),
{
    let mut s = coin.clone();
    s.append(": Position value is $");
    push_fixed(&mut s, value);
    s.append(" (threshold: $");
    push_fixed(&mut s, cap);
    s.append(")");
    s
}

fn value_advice(coin: &String) -> (r: String)
    ensures
        r@ == value_action(coin@),
{
    let mut s = String::from_str("Consider reducing the size of the ");
    s.append(coin.as_str());
    s.append(" position to stay within USD limits.");
    s
}

/// Turns metrics into warnings ranked by severity.
pub struct RiskLimiter {
    pub limits: RiskLimits,
}

impl RiskLimiter {
    pub open spec fn is_valid(&self) -> bool {
        self.limits.is_valid()
    }

    pub fn new(limits: RiskLimits) -> (r: RiskLimiter)
        requires
            limits.is_valid(),
        ensures
            r.limits == limits,
            r.is_valid(),
    {
        RiskLimiter { limits }
    }

    /// Replaces the limits.
    pub fn update_config(&mut self, limits: RiskLimits)
        requires
            limits.is_valid(),
        ensures
            final(self).limits == limits,
    {
        self.limits = limits;
    }

    /// Every warning the metrics call for, portfolio-level first and then
    /// each position's, ranked from critical to low with ties in that order.
    pub fn check_thresholds(
        &self,
        portfolio_metrics: &PortfolioMetrics,
        position_metrics: &[PositionMetrics],
    ) -> (r: Result<Vec<RiskWarning>, RiskError>)
        requires
            self.is_valid(),
        ensures
            match r {
                Ok(ws) => warning_views(ws@) == by_severity(
                    raw_warnings(*portfolio_metrics, position_metrics@, self.limits),
                ),
                Err(_) => false,
            },
    {
        let mut buckets = SeverityBuckets::new();
        self.check_portfolio_thresholds(portfolio_metrics, &mut buckets);
        self.check_position_thresholds(position_metrics, &mut buckets);
        assert(buckets.filed@ =~= raw_warnings(
            *portfolio_metrics,
            position_metrics@,
            self.limits,
        ));
        Ok(buckets.into_ranked())
    }

    fn check_portfolio_thresholds(&self, m: &PortfolioMetrics, buckets: &mut SeverityBuckets)
        requires
            self.is_valid(),
            old(buckets).wf(),
        ensures
            final(buckets).wf(),
            final(buckets).filed@ == old(buckets).filed@ + portfolio_warnings(*m, self.limits),
    {
        let w1 = self.margin_check(m);
        buckets.file_opt(w1);
        let w2 = heat_check(m);
        buckets.file_opt(w2);
        let w3 = concentration_check(m);
        buckets.file_opt(w3);
        let w4 = self.average_leverage_check(m);
        buckets.file_opt(w4);
        proof {
            lemma_append_four(
                old(buckets).filed@,
                opt_view(w1),
                opt_view(w2),
                opt_view(w3),
                opt_view(w4),
            );
        }
    }

    fn check_position_thresholds(&self, ms: &[PositionMetrics], buckets: &mut SeverityBuckets)
        requires
            self.is_valid(),
            old(buckets).wf(),
        ensures
            final(buckets).wf(),
            final(buckets).filed@ == old(buckets).filed@ + all_position_warnings(
                ms@,
                self.limits,
            ),
    {
        let n = ms.len();
        let mut i: usize = 0;
        assert(ms@.take(0) =~= Seq::<PositionMetrics>::empty());
        assert(old(buckets).filed@ =~= old(buckets).filed@ + all_position_warnings(
            ms@.take(0),
            self.limits,
        ));
        while i < n
            invariant
                n == ms@.len(),
                i <= n,
                self.is_valid(),
                buckets.wf(),
                buckets.filed@ == old(buckets).filed@ + all_position_warnings(
                    ms@.take(i as int),
                    self.limits,
                ),
            decreases n - i,
        {
            let ghost before = ms@.take(i as int);
            let ghost after = ms@.take(i as int + 1);
            assert(after.drop_last() =~= before);
            assert(after.last() == ms@[i as int]);
            self.check_position(&ms[i], buckets);
            assert(all_position_warnings(after, self.limits) == all_position_warnings(
                before,
                self.limits,
            ) + position_warnings(ms@[i as int], self.limits));
            assert(buckets.filed@ =~= old(buckets).filed@ + all_position_warnings(
                after,
                self.limits,
            ));
            i = i + 1;
        }
        assert(ms@.take(n as int) =~= ms@);
    }

    fn check_position(&self, m: &PositionMetrics, buckets: &mut SeverityBuckets)
        requires
            self.is_valid(),
            old(buckets).wf(),
        ensures
            final(buckets).wf(),
            final(buckets).filed@ == old(buckets).filed@ + position_warnings(*m, self.limits),
    {
        let w1 = self.leverage_check(m);
        buckets.file_opt(w1);
        let w2 = self.liquidation_check(m);
        buckets.file_opt(w2);
        let w3 = self.size_check(m);
        buckets.file_opt(w3);
        let w4 = self.value_check(m);
        buckets.file_opt(w4);
        proof {
            lemma_append_four(
                old(buckets).filed@,
                opt_view(w1),
                opt_view(w2),
                opt_view(w3),
                opt_view(w4),
            );
        }
    }

    fn margin_check(&self, m: &PortfolioMetrics) -> (r: Option<RiskWarning>)
        requires
            self.is_valid(),
        ensures
            opt_view(r) == margin_warning(*m, self.limits),
    {
        let u = m.margin_utilization;
        let max = self.limits.max_margin_utilization;
        if exceeds(u, 9, 10, max as i128) {
            let severity = if reaches(u, 1, 1, max as i128) {
                RiskSeverity::Critical
            } else if reaches(u, 95, 100, max as i128) {
                RiskSeverity::High
            } else {
                RiskSeverity::Medium
            };
            let w = RiskWarning {
                warning_type: RiskWarningType::MarginUtilizationHigh,
                severity,
                message: margin_text(u, max),
                suggested_action: String::from_str(
                    "Consider reducing position sizes or adding more collateral.",
                ),
                related_position: None,
            };
            assert(opt_view(Some(w)) =~= margin_warning(*m, self.limits));
            Some(w)
        } else {
            None
        }
    }

    fn average_leverage_check(&self, m: &PortfolioMetrics) -> (r: Option<RiskWarning>)
        requires
            self.is_valid(),
        ensures
            opt_view(r) == average_leverage_warning(*m, self.limits),
    {
        let l = m.average_leverage;
        let max = self.limits.max_leverage;
        if exceeds(l, 8, 10, max as i128) {
            let severity = if reaches(l, 1, 1, max as i128) {
                RiskSeverity::High
            } else {
                RiskSeverity::Medium
            };
            let w = RiskWarning {
                warning_type: RiskWarningType::HighLeverage,
                severity,
                message: average_leverage_text(l, max),
                suggested_action: String::from_str(
                    "Consider reducing leverage to minimize liquidation risk.",
                ),
                related_position: None,
            };
            assert(opt_view(Some(w)) =~= average_leverage_warning(*m, self.limits));
            Some(w)
        } else {
            None
        }
    }

    fn leverage_check(&self, m: &PositionMetrics) -> (r: Option<RiskWarning>)
        requires
            self.is_valid(),
        ensures
            opt_view(r) == leverage_warning(*m, self.limits),
    {
        let p = &m.position;
        let w = weights(p.is_cross);
        let lev = p.leverage as i128;
        let max = self.limits.max_leverage as i128;
        if 10 * lev > w.leverage_trigger_tenths * max {
            let severity = if lev >= max || (!p.is_cross && 10 * lev >= 9 * max) {
                RiskSeverity::High
            } else {
                RiskSeverity::Medium
            };
            let w = RiskWarning {
                warning_type: RiskWarningType::HighLeverage,
                severity,
                message: leverage_text(&p.coin, p.is_cross, p.leverage, self.limits.max_leverage),
                suggested_action: leverage_advice(&p.coin, p.is_cross),
                related_position: Some(p.coin.clone()),
            };
            assert(opt_view(Some(w)) =~= leverage_warning(*m, self.limits));
            Some(w)
        } else {
            None
        }
    }

    fn liquidation_check(&self, m: &PositionMetrics) -> (r: Option<RiskWarning>)
        requires
            self.is_valid(),
        ensures
            opt_view(r) == liquidation_warning(*m, self.limits),
    {
        let p = &m.position;
        let w = weights(p.is_cross);
        let d = m.distance_to_liquidation;
        let min_d = self.limits.min_distance_to_liq as i128;
        if !reaches(d, w.distance_trigger_halves, 2, min_d) {
            let severity = if !reaches(d, 1, 2, min_d) {
                RiskSeverity::Critical
            } else if !reaches(d, 7, 10, min_d) || (!p.is_cross && !reaches(d, 1, 1, min_d)) {
                RiskSeverity::High
            } else {
                RiskSeverity::Medium
            };
            let threshold = w.distance_trigger_halves * min_d / 2;
            let w = RiskWarning {
                warning_type: RiskWarningType::LiquidationRisk,
                severity,
                message: liquidation_text(&p.coin, p.is_cross, d, threshold),
                suggested_action: liquidation_advice(&p.coin, p.is_cross),
                related_position: Some(p.coin.clone()),
            };
            assert(opt_view(Some(w)) =~= liquidation_warning(*m, self.limits));
            Some(w)
        } else {
            None
        }
    }

    fn size_check(&self, m: &PositionMetrics) -> (r: Option<RiskWarning>)
        requires
            self.is_valid(),
        ensures
            opt_view(r) == size_warning(*m, self.limits),
    {
        let p = &m.position;
        let w = weights(p.is_cross);
        let ratio = m.position_size_ratio;
        let max = self.limits.max_position_pct as i128;
        if exceeds(ratio, w.size_trigger_tenths, 10, max) {
            let severity = if !p.is_cross && exceeds(ratio, 1, 1, max) {
                RiskSeverity::High
            } else {
                RiskSeverity::Medium
            };
            let threshold = w.size_trigger_tenths * max / 10;
            let w = RiskWarning {
                warning_type: RiskWarningType::PositionSizeExceeded,
                severity,
                message: size_text(&p.coin, p.is_cross, ratio, threshold),
                suggested_action: size_advice(&p.coin, p.is_cross),
                related_position: Some(p.coin.clone()),
            };
            assert(opt_view(Some(w)) =~= size_warning(*m, self.limits));
            Some(w)
        } else {
            None
        }
    }

    fn value_check(&self, m: &PositionMetrics) -> (r: Option<RiskWarning>)
        requires
            self.is_valid(),
        ensures
            opt_view(r) == value_warning(*m, self.limits),
    {
        let p = &m.position;
        let v: i128 = if p.position_value < 0 {
            -(p.position_value as i128)
        } else {
            p.position_value as i128
        };
        let cap = self.limits.max_position_size_usd as i128;
        if v > cap {
            let w = RiskWarning {
                warning_type: RiskWarningType::PositionSizeExceeded,
                severity: RiskSeverity::Medium,
                message: value_text(&p.coin, v, cap),
                suggested_action: value_advice(&p.coin),
                related_position: Some(p.coin.clone()),
            };
            assert(opt_view(Some(w)) =~= value_warning(*m, self.limits));
            Some(w)
        } else {
            None
        }
    }
}

/// Whatever the metrics, the list that [`RiskLimiter::check_thresholds`]
/// returns is ordered by non-increasing severity, so no critical warning
/// comes after a medium one, and it holds every warning that a check
/// raised.
pub proof fn lemma_warnings_ranked(
    ws: Seq<RiskWarning>,
    m: PortfolioMetrics,
    ms: Seq<PositionMetrics>,
    limits: RiskLimits,
)
    requires
        warning_views(ws) == by_severity(raw_warnings(m, ms, limits)),
    ensures
        forall|i: int, j: int|
            0 <= i < j < ws.len() ==> (#[trigger] ws[i]).severity.rank() >= (
            #[trigger] ws[j]).severity.rank(),
        warning_views(ws).to_multiset() =~= raw_warnings(m, ms, limits).to_multiset(),
{
    lemma_by_severity_sorted(raw_warnings(m, ms, limits));
    lemma_by_severity_keeps_all(raw_warnings(m, ms, limits));
    assert forall|i: int, j: int| 0 <= i < j < ws.len() implies (#[trigger] ws[i]).severity.rank()
        >= (#[trigger] ws[j]).severity.rank() by {
        assert(warning_views(ws)[i] == ws[i]@);
        assert(warning_views(ws)[j] == ws[j]@);
    }
}

fn heat_check(m: &PortfolioMetrics) -> (r: Option<RiskWarning>)
    ensures
        opt_view(r) == heat_warning(*m),
{
    let h = m.portfolio_heat;
    if h > 70 * (SCALE as i128) {
        let severity = if h >= 90 * (SCALE as i128) {
            RiskSeverity::Critical
        } else if h >= 80 * (SCALE as i128) {
            RiskSeverity::High
        } else {
            RiskSeverity::Medium
        };
        let w = RiskWarning {
            warning_type: RiskWarningType::OverallPortfolioRisk,
            severity,
            message: heat_text(h),
            suggested_action: String::from_str(
                "Reduce leverage or diversify positions to lower overall risk.",
            ),
            related_position: None,
        };
        assert(opt_view(Some(w)) =~= heat_warning(*m));
        Some(w)
    } else {
        None
    }
}

fn concentration_check(m: &PortfolioMetrics) -> (r: Option<RiskWarning>)
    ensures
        opt_view(r) == concentration_warning(*m),
{
    let c = m.concentration_score;
    if c > 80 * (SCALE as i128) && m.total_position_value > 0 {
        let w = RiskWarning {
            warning_type: RiskWarningType::HighConcentration,
            severity: RiskSeverity::Medium,
            message: concentration_text(c),
            suggested_action: String::from_str(
                "Consider diversifying your positions across more assets.",
            ),
            related_position: None,
        };
        assert(opt_view(Some(w)) =~= concentration_warning(*m));
        Some(w)
    } else {
        None
    }
}

} // verus!
