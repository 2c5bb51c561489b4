use vstd::prelude::*;

use crate::calculation::{
    describes_portfolio, describes_position, lemma_portfolio_metrics_deterministic,
    lemma_position_metrics_deterministic, total_notional,
    RiskCalculator,
};
use crate::limits::{by_severity, raw_warnings, RiskLimiter};
use crate::types::{
    AccountSummary, Position, PositionMetrics, PortfolioMetrics, RiskError, RiskLimits,
    RiskWarning, warning_views, valid_positions, SCALE,
};

verus! {

/// One analysis: the positions and everything computed from them.
pub struct RiskAnalysisResult {
    pub positions: Vec<Position>,
    pub portfolio_metrics: PortfolioMetrics,
    pub position_metrics: Vec<PositionMetrics>,
    pub warnings: Vec<RiskWarning>,
}

/// The headline figures of an analysis.
pub struct RiskSummary {
    pub portfolio_heat: i128,
    /// The position with the highest risk score and that score; the first
    /// of them on a tie.
    pub highest_risk_position: Option<(Position, i128)>,
    pub warning_count: usize,
    pub margin_utilization: i128,
    pub account_value: i128,
}

/// A record of one analysis for the persistence sink.
pub struct LogEntry {
    /// Seconds since the Unix epoch.
    pub timestamp: u64,
    pub positions: Vec<Position>,
    pub portfolio_metrics: PortfolioMetrics,
    pub position_metrics: Vec<PositionMetrics>,
    pub warnings: Vec<RiskWarning>,
}

impl LogEntry {
    pub fn new(
        timestamp: u64,
        positions: Vec<Position>,
        portfolio_metrics: PortfolioMetrics,
        position_metrics: Vec<PositionMetrics>,
        warnings: Vec<RiskWarning>,
    ) -> (r: LogEntry)
        ensures
            r.timestamp == timestamp,
            r.positions == positions,
            r.portfolio_metrics == portfolio_metrics,
            r.position_metrics == position_metrics,
            r.warnings == warnings,
    {
        LogEntry { timestamp, positions, portfolio_metrics, position_metrics, warnings }
    }
}

/// `r` is the complete analysis of the positions and account under the
/// limits.
pub open spec fn describes_analysis(
    r: RiskAnalysisResult,
    positions: Seq<Position>,
    account: AccountSummary,
    limits: RiskLimits,
) -> bool {
    let acct = account.account_value as int;
    &&& r.positions@ == positions
    &&& describes_portfolio(r.portfolio_metrics, positions, acct, limits)
    &&& r.position_metrics@.len() == positions.len()
    &&& forall|i: int|
        0 <= i < positions.len() ==> describes_position(
            #[trigger] r.position_metrics@[i],
            positions[i],
            total_notional(positions),
            acct,
            limits,
        )
    &&& warning_views(r.warnings@) == by_severity(
        raw_warnings(r.portfolio_metrics, r.position_metrics@, limits),
    )
}

/// `i` is the first index of a highest risk score.
pub open spec fn is_first_highest(ms: Seq<PositionMetrics>, i: int) -> bool {
    &&& 0 <= i < ms.len()
    &&& forall|j: int| 0 <= j < ms.len() ==> (#[trigger] ms[j]).risk_score <= ms[i].risk_score
    &&& forall|j: int| 0 <= j < i ==> (#[trigger] ms[j]).risk_score < ms[i].risk_score
}

/// `s` summarizes the analysis `r`.
pub open spec fn describes_summary(s: RiskSummary, r: RiskAnalysisResult) -> bool {
    let ms = r.position_metrics@;
    &&& s.portfolio_heat == r.portfolio_metrics.portfolio_heat
    &&& s.warning_count == r.warnings@.len()
    &&& s.margin_utilization == r.portfolio_metrics.margin_utilization
    &&& s.account_value == r.portfolio_metrics.account_value
    &&& match s.highest_risk_position {
        None => ms.len() == 0,
        Some((p, score)) => exists|i: int|
            is_first_highest(ms, i) && p == ms[i].position && score == ms[i].risk_score,
    }
}

/// The positions with a non-zero size, in order.
pub open spec fn open_positions(ps: Seq<Position>) -> Seq<Position>
    decreases ps.len(),
{
    if ps.len() == 0 {
        ps
    } else if ps.last().size != 0 {
        open_positions(ps.drop_last()).push(ps.last())
    } else {
        open_positions(ps.drop_last())
    }
}

/// Drops the positions of size zero, which carry no risk.
pub fn retain_open_positions(positions: &[Position]) -> (r: Vec<Position>)
    ensures
        r@ == open_positions(positions@),
{
    let mut out: Vec<Position> = Vec::new();
    let n = positions.len();
    let mut i: usize = 0;
    assert(positions@.take(0) =~= Seq::<Position>::empty());
    while i < n
        invariant
            n == positions@.len(),
            i <= n,
            out@ == open_positions(positions@.take(i as int)),
        decreases n - i,
    {
        let ghost after = positions@.take(i as int + 1);
        assert(after.drop_last() =~= positions@.take(i as int));
        assert(after.last() == positions@[i as int]);
        if positions[i].size != 0 {
            out.push(positions[i].duplicate());
        }
        i = i + 1;
    }
    assert(positions@.take(n as int) =~= positions@);
    out
}

/// The summary of an analysis; the highest-risk position is the first one
/// with the maximum risk score.
pub fn summarize(analysis: &RiskAnalysisResult) -> (r: RiskSummary)
    ensures
        describes_summary(r, *analysis),
{
    let ms = &analysis.position_metrics;
    let n = ms.len();
    let highest = if n == 0 {
        None
    } else {
        let mut best: usize = 0;
        let mut i: usize = 1;
        while i < n
            invariant
                n == ms@.len(),
                0 <= best < i <= n,
                forall|j: int| 0 <= j < i ==> (#[trigger] ms@[j]).risk_score <= ms@[best as int].risk_score,
                forall|j: int| 0 <= j < best ==> (#[trigger] ms@[j]).risk_score < ms@[best as int].risk_score,
            decreases n - i,
        {
            if ms[i].risk_score > ms[best].risk_score {
                best = i;
            }
            i = i + 1;
        }
        assert(is_first_highest(ms@, best as int));
        Some((ms[best].position.duplicate(), ms[best].risk_score))
    };
    RiskSummary {
        portfolio_heat: analysis.portfolio_metrics.portfolio_heat,
        highest_risk_position: highest,
        warning_count: analysis.warnings.len(),
        margin_utilization: analysis.portfolio_metrics.margin_utilization,
        account_value: analysis.portfolio_metrics.account_value,
    }
}

/// Whether a monitor that polls summaries should run a full analysis: when
/// the heat is above 70 or any warning is present.
pub fn needs_full_analysis(summary: &RiskSummary) -> (r: bool)
    ensures
        r == (summary.portfolio_heat > 70 * SCALE || summary.warning_count > 0),
{
    summary.portfolio_heat > 70 * (SCALE as i128) || summary.warning_count > 0
}

/// The calculator and limiter, sharing one set of limits.
pub struct RiskManagementSystem {
    risk_calculator: RiskCalculator,
    risk_limiter: RiskLimiter,
}

impl RiskManagementSystem {
    /// The limits in force.
    pub closed spec fn limits(&self) -> RiskLimits {
        self.risk_calculator.limits
    }

    pub closed spec fn is_valid(&self) -> bool {
        &&& self.risk_calculator.limits.is_valid()
        &&& self.risk_limiter.limits == self.risk_calculator.limits
    }

    pub fn new(limits: RiskLimits) -> (r: RiskManagementSystem)
        requires
            limits.is_valid(),
        ensures
            r.is_valid(),
            r.limits() == limits,
    {
        RiskManagementSystem {
            risk_calculator: RiskCalculator::new(limits),
            risk_limiter: RiskLimiter::new(limits),
        }
    }

    /// The limits in force.
    pub fn get_config(&self) -> (r: RiskLimits)
        ensures
            r == self.limits(),
    {
        self.risk_calculator.limits
    }

    /// Swaps in new limits if they are valid; otherwise fails with
    /// `InvalidConfiguration` and keeps the old ones.
    pub fn update_settings(&mut self, limits: RiskLimits) -> (r: Result<(), RiskError>)
        requires
            old(self).is_valid(),
        ensures
            final(self).is_valid(),
            limits.is_valid() ==> r is Ok && final(self).limits() == limits,
            !limits.is_valid() ==> r == Err::<(), RiskError>(RiskError::InvalidConfiguration)
                && final(self).limits() == old(self).limits(),
    {
        if !limits.check() {
            return Err(RiskError::InvalidConfiguration);
        }
        self.risk_calculator.update_config(limits);
        self.risk_limiter.update_config(limits);
        Ok(())
    }

    /// Scores the positions against the account they were fetched with and
    /// ranks the warnings.
    pub fn analyze_risk_profile(
        &self,
        positions: Vec<Position>,
        account_summary: &AccountSummary,
    ) -> (r: Result<RiskAnalysisResult, RiskError>)
        requires
            self.is_valid(),
            valid_positions(positions@),
            account_summary.is_valid(),
        ensures
            match r {
                Ok(a) => describes_analysis(a, positions@, *account_summary, self.limits()),
                Err(_) => false,
            },
    {
        let portfolio_metrics = match self.risk_calculator.calculate_portfolio_metrics(
            positions.as_slice(),
            account_summary,
        ) {
            Ok(m) => m,
            Err(e) => return Err(e),
        };
        let position_metrics = match self.risk_calculator.calculate_position_metrics(
            positions.as_slice(),
            account_summary,
        ) {
            Ok(m) => m,
            Err(e) => return Err(e),
        };
        let warnings = match self.risk_limiter.check_thresholds(
            &portfolio_metrics,
            position_metrics.as_slice(),
        ) {
            Ok(w) => w,
            Err(e) => return Err(e),
        };
        Ok(RiskAnalysisResult { positions, portfolio_metrics, position_metrics, warnings })
    }

    /// Analyzes the positions and summarizes the analysis.
    pub fn get_risk_summary(
        &self,
        positions: Vec<Position>,
        account_summary: &AccountSummary,
    ) -> (r: Result<RiskSummary, RiskError>)
        requires
            self.is_valid(),
            valid_positions(positions@),
            account_summary.is_valid(),
        ensures
            match r {
                Ok(s) => exists|a: RiskAnalysisResult|
                    describes_analysis(a, positions@, *account_summary, self.limits())
                        && #[trigger] describes_summary(s, a),
                Err(_) => false,
            },
    {
        let analysis = match self.analyze_risk_profile(positions, account_summary) {
            Ok(a) => a,
            Err(e) => return Err(e),
        };
        let s = summarize(&analysis);
        assert(describes_summary(s, analysis));
        Ok(s)
    }
}

/// Analysis has no hidden state: two analyses of the same positions,
/// account and limits hold identical metrics and identical warnings.
pub proof fn lemma_analysis_deterministic(
    a1: RiskAnalysisResult,
    a2: RiskAnalysisResult,
    positions: Seq<Position>,
    account: AccountSummary,
    limits: RiskLimits,
)
    requires
        describes_analysis(a1, positions, account, limits),
        describes_analysis(a2, positions, account, limits),
    ensures
        a1.portfolio_metrics == a2.portfolio_metrics,
        a1.position_metrics@ == a2.position_metrics@,
        warning_views(a1.warnings@) == warning_views(a2.warnings@),
{
    let acct = account.account_value as int;
    assert forall|i: int| 0 <= i < positions.len() implies a1.position_metrics@[i]
        == a2.position_metrics@[i] by {
        lemma_position_metrics_deterministic(
            a1.position_metrics@[i],
            a2.position_metrics@[i],
            positions[i],
            total_notional(positions),
            acct,
            limits,
        );
    }
    assert(a1.position_metrics@ =~= a2.position_metrics@);
    lemma_portfolio_metrics_deterministic(
        a1.portfolio_metrics,
        a2.portfolio_metrics,
        positions,
        acct,
        limits,
    );
}

/// Notional above which a recorded position's size, value and margin are
/// redacted: one million in fixed point.
pub const REDACTION_THRESHOLD: i64 = 1_000_000_000_000;

/// A position as it may be recorded: one whose notional value exceeds
/// [`REDACTION_THRESHOLD`] has its size, value and margin zeroed.
pub open spec fn redacted(p: Position) -> Position {
    if p.position_value > REDACTION_THRESHOLD {
        Position { size: 0, position_value: 0, margin_used: 0, ..p }
    } else {
        p
    }
}

/// The positions of a record with the large ones redacted.
pub fn sanitize_positions(positions: &[Position]) -> (r: Vec<Position>)
    ensures
        r@.len() == positions@.len(),
        forall|i: int| 0 <= i < positions@.len() ==> #[trigger] r@[i] == redacted(positions@[i]),
{
    let mut out: Vec<Position> = Vec::new();
    let n = positions.len();
    let mut i: usize = 0;
    while i < n
        invariant
            n == positions@.len(),
            i <= n,
            out@.len() == i,
            forall|j: int| 0 <= j < i ==> #[trigger] out@[j] == redacted(positions@[j]),
        decreases n - i,
    {
        let mut p = positions[i].duplicate();
        if p.position_value > REDACTION_THRESHOLD {
            p.size = 0;
            p.position_value = 0;
            p.margin_used = 0;
        }
        out.push(p);
        i = i + 1;
    }
    out
}

} // verus!
