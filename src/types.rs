use vstd::prelude::*;

verus! {

/// Number of fixed-point units in one whole unit: every real-valued field
/// (prices, sizes, USD amounts, ratios, percentages, scores) is stored as
/// `value * SCALE`, truncated to an integer.
pub const SCALE: i64 = 1_000_000;

/// Severity of a warning, ordered `Low < Medium < High < Critical`.
#[derive(Clone, Copy, Debug, PartialEq, Eq, PartialOrd, Ord, Hash, Structural)]
pub enum RiskSeverity {
    Low,
    Medium,
    High,
    Critical,
}

impl RiskSeverity {
    /// Position of the severity in the order `Low < Medium < High < Critical`.
    pub open spec fn rank(self) -> nat {
        match self {
            RiskSeverity::Low => 0,
            RiskSeverity::Medium => 1,
            RiskSeverity::High => 2,
            RiskSeverity::Critical => 3,
        }
    }

    /// Executable form of [`RiskSeverity::rank`].
    pub fn level(&self) -> (r: u8)
        ensures
            r as nat == self.rank(),
    {
        match self {
            RiskSeverity::Low => 0,
            RiskSeverity::Medium => 1,
            RiskSeverity::High => 2,
            RiskSeverity::Critical => 3,
        }
    }
}


/// The largest magnitude an input quantity may have, in fixed-point units
/// (a billion whole units). Inputs within it keep every intermediate result
/// of the scoring inside `i128`.
pub const MAX_AMOUNT: i64 = 1_000_000_000_000_000;

/// The largest number of positions one analysis takes.
pub const MAX_POSITIONS: usize = 1000;

/// One open exposure. Real-valued fields are fixed-point (see [`SCALE`]).
#[derive(Clone, Debug)]
pub struct Position {
    pub coin: String,
    /// Signed size: positive for a long, negative for a short.
    pub size: i64,
    pub entry_price: Option<i64>,
    pub leverage: i64,
    pub liquidation_price: Option<i64>,
    pub unrealized_pnl: i64,
    pub margin_used: i64,
    /// Notional value; its magnitude is what the scoring weighs.
    pub position_value: i64,
    pub return_on_equity: i64,
    /// Cross margin when true, isolated margin when false.
    pub is_cross: bool,
    pub max_leverage: u32,
}

pub open spec fn bounded(x: int) -> bool {
    -MAX_AMOUNT <= x <= MAX_AMOUNT
}

pub open spec fn bounded_opt(x: Option<i64>) -> bool {
    match x {
        Some(v) => bounded(v as int),
        None => true,
    }
}

impl Position {
    /// Every quantity is within [`MAX_AMOUNT`], and margin and leverage are
    /// not negative.
    pub open spec fn is_valid(&self) -> bool {
        &&& bounded(self.size as int)
        &&& bounded_opt(self.entry_price)
        &&& 0 <= self.leverage <= MAX_AMOUNT
        &&& bounded_opt(self.liquidation_price)
        &&& bounded(self.unrealized_pnl as int)
        &&& 0 <= self.margin_used <= MAX_AMOUNT
        &&& bounded(self.position_value as int)
        &&& bounded(self.return_on_equity as int)
    }

    /// Executable form of [`Position::is_valid`].
    pub fn check(&self) -> (r: bool)
        ensures
            r == self.is_valid(),
    {
        let entry_ok = match self.entry_price {
            Some(v) => -MAX_AMOUNT <= v && v <= MAX_AMOUNT,
            None => true,
        };
        let liquidation_ok = match self.liquidation_price {
            Some(v) => -MAX_AMOUNT <= v && v <= MAX_AMOUNT,
            None => true,
        };
        -MAX_AMOUNT <= self.size && self.size <= MAX_AMOUNT && entry_ok && 0 <= self.leverage
            && self.leverage <= MAX_AMOUNT && liquidation_ok && -MAX_AMOUNT <= self.unrealized_pnl
            && self.unrealized_pnl <= MAX_AMOUNT && 0 <= self.margin_used && self.margin_used
            <= MAX_AMOUNT && -MAX_AMOUNT <= self.position_value && self.position_value
            <= MAX_AMOUNT && -MAX_AMOUNT <= self.return_on_equity && self.return_on_equity
            <= MAX_AMOUNT
    }

    /// A field-for-field copy.
    pub fn duplicate(&self) -> (r: Position)
        ensures
            r == *self,
    {
        Position {
            coin: self.coin.clone(),
            size: self.size,
            entry_price: self.entry_price,
            leverage: self.leverage,
            liquidation_price: self.liquidation_price,
            unrealized_pnl: self.unrealized_pnl,
            margin_used: self.margin_used,
            position_value: self.position_value,
            return_on_equity: self.return_on_equity,
            is_cross: self.is_cross,
            max_leverage: self.max_leverage,
        }
    }
}

/// Every position of the list is valid and the list is not too long.
pub open spec fn valid_positions(ps: Seq<Position>) -> bool {
    &&& ps.len() <= MAX_POSITIONS
    &&& forall|i: int| 0 <= i < ps.len() ==> (#[trigger] ps[i]).is_valid()
}

/// Executable form of [`valid_positions`].
pub fn check_positions(ps: &[Position]) -> (r: bool)
    ensures
        r == valid_positions(ps@),
{
    let n = ps.len();
    if n > MAX_POSITIONS {
        return false;
    }
    let mut i: usize = 0;
    while i < n
        invariant
            n == ps@.len(),
            i <= n,
            forall|j: int| 0 <= j < i ==> (#[trigger] ps@[j]).is_valid(),
        decreases n - i,
    {
        if !ps[i].check() {
            return false;
        }
        i = i + 1;
    }
    true
}

/// Account-wide figures fetched together with the positions.
#[derive(Clone, Copy, Debug, PartialEq, Eq, Structural)]
pub struct AccountSummary {
    pub account_value: i64,
    pub margin_used: i64,
    pub total_position_notional: i64,
    pub withdrawable: i64,
}

impl AccountSummary {
    pub open spec fn is_valid(&self) -> bool {
        bounded(self.account_value as int)
    }

    /// Executable form of [`AccountSummary::is_valid`].
    pub fn check(&self) -> (r: bool)
        ensures
            r == self.is_valid(),
    {
        -MAX_AMOUNT <= self.account_value && self.account_value <= MAX_AMOUNT
    }
}

/// Portfolio-wide metrics. Percentages and scores are fixed-point, so a
/// heat of 100 is `100 * SCALE`.
#[derive(Clone, Copy, Debug, PartialEq, Eq, Structural)]
pub struct PortfolioMetrics {
    pub portfolio_heat: i128,
    pub concentration_score: i128,
    pub risk_adjusted_return: i128,
    pub margin_utilization: i128,
    pub total_unrealized_pnl: i128,
    pub account_value: i128,
    pub total_position_value: i128,
    pub average_leverage: i128,
}

/// Metrics of one position, with the position they describe.
#[derive(Clone, Debug)]
pub struct PositionMetrics {
    pub position: Position,
    pub distance_to_liquidation: i128,
    pub position_size_ratio: i128,
    pub risk_score: i128,
    pub contribution_to_portfolio: i128,
}

/// Kinds of warning.
#[derive(Clone, Copy, Debug, PartialEq, Eq, Hash, Structural)]
pub enum RiskWarningType {
    HighLeverage,
    LiquidationRisk,
    PositionSizeExceeded,
    HighConcentration,
    MarginUtilizationHigh,
    MaxDrawdownExceeded,
    OverallPortfolioRisk,
}

/// A threshold that was crossed.
#[derive(Clone, Debug)]
pub struct RiskWarning {
    pub warning_type: RiskWarningType,
    pub severity: RiskSeverity,
    pub message: String,
    pub suggested_action: String,
    /// Coin of the position concerned; `None` for portfolio-wide warnings.
    pub related_position: Option<String>,
}

/// The content of a [`RiskWarning`], with its texts as character sequences.
pub struct WarningView {
    pub warning_type: RiskWarningType,
    pub severity: RiskSeverity,
    pub message: Seq<char>,
    pub suggested_action: Seq<char>,
    pub related_position: Option<Seq<char>>,
}

impl View for RiskWarning {
    type V = WarningView;

    open spec fn view(&self) -> WarningView {
        WarningView {
            warning_type: self.warning_type,
            severity: self.severity,
            message: self.message@,
            suggested_action: self.suggested_action@,
            related_position: match self.related_position {
                Some(c) => Some(c@),
                None => None,
            },
        }
    }
}

/// The views of a list of warnings, in order.
pub open spec fn warning_views(ws: Seq<RiskWarning>) -> Seq<WarningView> {
    ws.map_values(|w: RiskWarning| w@)
}

/// Risk thresholds. Amounts and percentages are fixed-point.
#[derive(Clone, Copy, Debug, PartialEq, Eq, Structural)]
pub struct RiskLimits {
    pub max_position_size_usd: i64,
    pub max_leverage: i64,
    pub max_drawdown_pct: i64,
    pub max_position_pct: i64,
    pub min_distance_to_liq: i64,
    pub max_correlation: i64,
    pub max_margin_utilization: i64,
}

impl RiskLimits {
    /// Each threshold lies in `0..=MAX_AMOUNT`, and those that divide are
    /// positive.
    pub open spec fn is_valid(&self) -> bool {
        &&& 0 <= self.max_position_size_usd <= MAX_AMOUNT
        &&& 0 < self.max_leverage <= MAX_AMOUNT
        &&& 0 <= self.max_drawdown_pct <= MAX_AMOUNT
        &&& 0 < self.max_position_pct <= MAX_AMOUNT
        &&& 0 < self.min_distance_to_liq <= MAX_AMOUNT
        &&& 0 <= self.max_correlation <= MAX_AMOUNT
        &&& 0 < self.max_margin_utilization <= MAX_AMOUNT
    }

    /// Executable form of [`RiskLimits::is_valid`].
    pub fn check(&self) -> (r: bool)
        ensures
            r == self.is_valid(),
    {
        0 <= self.max_position_size_usd && self.max_position_size_usd <= MAX_AMOUNT
            && 0 < self.max_leverage && self.max_leverage <= MAX_AMOUNT
            && 0 <= self.max_drawdown_pct && self.max_drawdown_pct <= MAX_AMOUNT
            && 0 < self.max_position_pct && self.max_position_pct <= MAX_AMOUNT
            && 0 < self.min_distance_to_liq && self.min_distance_to_liq <= MAX_AMOUNT
            && 0 <= self.max_correlation && self.max_correlation <= MAX_AMOUNT
            && 0 < self.max_margin_utilization && self.max_margin_utilization <= MAX_AMOUNT
    }
}

impl Default for RiskLimits {
    /// USD cap 100000, leverage 50, drawdown 15%, position 20% of the
    /// account, liquidation distance 10%, correlation 0.7, margin
    /// utilization 80%.
    fn default() -> (r: RiskLimits)
        ensures
            r.max_position_size_usd == 100_000 * SCALE,
            r.max_leverage == 50 * SCALE,
            r.max_drawdown_pct == 15 * SCALE,
            r.max_position_pct == 20 * SCALE,
            r.min_distance_to_liq == 10 * SCALE,
            r.max_correlation == 700_000,
            r.max_margin_utilization == 80 * SCALE,
            r.is_valid(),
    {
        RiskLimits {
            max_position_size_usd: 100_000 * SCALE,
            max_leverage: 50 * SCALE,
            max_drawdown_pct: 15 * SCALE,
            max_position_pct: 20 * SCALE,
            min_distance_to_liq: 10 * SCALE,
            max_correlation: 700_000,
            max_margin_utilization: 80 * SCALE,
        }
    }
}


/// Failures surfaced by the library.
#[derive(Clone, Copy, Debug, PartialEq, Eq, Structural)]
pub enum RiskError {
    /// Positions or account summary could not be fetched.
    SourceUnavailable,
    /// The snapshot could not be reached in time.
    LockTimeout,
    /// New limits were rejected; the previous ones stay in force.
    InvalidConfiguration,
    /// A record or query of the persistence sink failed.
    PersistenceFailure,
}

} // verus!
