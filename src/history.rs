use vstd::prelude::*;

use crate::system::LogEntry;
use crate::text::{parse_unsigned, unsigned_number};
use crate::types::{PortfolioMetrics, PositionMetrics};

verus! {

/// Whether two strings hold the same characters.
pub fn same_text(a: &str, b: &str) -> (r: bool)
    ensures
        r == (a@ == b@),
{
    let n = a.unicode_len();
    if n != b.unicode_len() {
        return false;
    }
    let mut i: usize = 0;
    while i < n
        invariant
            n == a@.len() == b@.len(),
            i <= n,
            forall|k: int| 0 <= k < i ==> a@[k] == b@[k],
        decreases n - i,
    {
        if a.get_char(i) != b.get_char(i) {
            return false;
        }
        i = i + 1;
    }
    assert(a@ =~= b@);
    true
}

// ------------------------------------------------------------ metric names

/// A portfolio metric that a history query can ask for.
#[derive(Clone, Copy, Debug, PartialEq, Eq, Structural)]
pub enum PortfolioMetricName {
    PortfolioHeat,
    ConcentrationScore,
    RiskAdjustedReturn,
    MarginUtilization,
    TotalUnrealizedPnl,
    AccountValue,
    TotalPositionValue,
    AverageLeverage,
}

/// The portfolio metric with the given name, if any.
pub open spec fn portfolio_metric_named(s: Seq<char>) -> Option<PortfolioMetricName> {
    if s == "portfolio_heat"@ {
        Some(PortfolioMetricName::PortfolioHeat)
    } else if s == "concentration_score"@ {
        Some(PortfolioMetricName::ConcentrationScore)
    } else if s == "risk_adjusted_return"@ {
        Some(PortfolioMetricName::RiskAdjustedReturn)
    } else if s == "margin_utilization"@ {
        Some(PortfolioMetricName::MarginUtilization)
    } else if s == "total_unrealized_pnl"@ {
        Some(PortfolioMetricName::TotalUnrealizedPnl)
    } else if s == "account_value"@ {
        Some(PortfolioMetricName::AccountValue)
    } else if s == "total_position_value"@ {
        Some(PortfolioMetricName::TotalPositionValue)
    } else if s == "average_leverage"@ {
        Some(PortfolioMetricName::AverageLeverage)
    } else {
        None
    }
}

impl PortfolioMetricName {
    pub fn parse(name: &str) -> (r: Option<PortfolioMetricName>)
        ensures
            r == portfolio_metric_named(name@),
    {
        if same_text(name, "portfolio_heat") {
            Some(PortfolioMetricName::PortfolioHeat)
        } else if same_text(name, "concentration_score") {
            Some(PortfolioMetricName::ConcentrationScore)
        } else if same_text(name, "risk_adjusted_return") {
            Some(PortfolioMetricName::RiskAdjustedReturn)
        } else if same_text(name, "margin_utilization") {
            Some(PortfolioMetricName::MarginUtilization)
        } else if same_text(name, "total_unrealized_pnl") {
            Some(PortfolioMetricName::TotalUnrealizedPnl)
        } else if same_text(name, "account_value") {
            Some(PortfolioMetricName::AccountValue)
        } else if same_text(name, "total_position_value") {
            Some(PortfolioMetricName::TotalPositionValue)
        } else if same_text(name, "average_leverage") {
            Some(PortfolioMetricName::AverageLeverage)
        } else {
            None
        }
    }

    pub open spec fn value_of(self, m: PortfolioMetrics) -> i128 {
        match self {
            PortfolioMetricName::PortfolioHeat => m.portfolio_heat,
            PortfolioMetricName::ConcentrationScore => m.concentration_score,
            PortfolioMetricName::RiskAdjustedReturn => m.risk_adjusted_return,
            PortfolioMetricName::MarginUtilization => m.margin_utilization,
            PortfolioMetricName::TotalUnrealizedPnl => m.total_unrealized_pnl,
            PortfolioMetricName::AccountValue => m.account_value,
            PortfolioMetricName::TotalPositionValue => m.total_position_value,
            PortfolioMetricName::AverageLeverage => m.average_leverage,
        }
    }

    pub fn value(&self, m: &PortfolioMetrics) -> (r: i128)
        ensures
            r == self.value_of(*m),
    {
        match self {
            PortfolioMetricName::PortfolioHeat => m.portfolio_heat,
            PortfolioMetricName::ConcentrationScore => m.concentration_score,
            PortfolioMetricName::RiskAdjustedReturn => m.risk_adjusted_return,
            PortfolioMetricName::MarginUtilization => m.margin_utilization,
            PortfolioMetricName::TotalUnrealizedPnl => m.total_unrealized_pnl,
            PortfolioMetricName::AccountValue => m.account_value,
            PortfolioMetricName::TotalPositionValue => m.total_position_value,
            PortfolioMetricName::AverageLeverage => m.average_leverage,
        }
    }
}

/// A per-position metric that a history query can ask for.
#[derive(Clone, Copy, Debug, PartialEq, Eq, Structural)]
pub enum PositionMetricName {
    Size,
    UnrealizedPnl,
    MarginUsed,
    PositionValue,
    ReturnOnEquity,
    Leverage,
    DistanceToLiquidation,
    PositionSizeRatio,
    RiskScore,
    ContributionToPortfolio,
}

/// The position metric with the given name, if any.
pub open spec fn position_metric_named(s: Seq<char>) -> Option<PositionMetricName> {
    if s == "size"@ {
        Some(PositionMetricName::Size)
    } else if s == "unrealized_pnl"@ {
        Some(PositionMetricName::UnrealizedPnl)
    } else if s == "margin_used"@ {
        Some(PositionMetricName::MarginUsed)
    } else if s == "position_value"@ {
        Some(PositionMetricName::PositionValue)
    } else if s == "return_on_equity"@ {
        Some(PositionMetricName::ReturnOnEquity)
    } else if s == "leverage"@ {
        Some(PositionMetricName::Leverage)
    } else if s == "distance_to_liquidation"@ {
        Some(PositionMetricName::DistanceToLiquidation)
    } else if s == "position_size_ratio"@ {
        Some(PositionMetricName::PositionSizeRatio)
    } else if s == "risk_score"@ {
        Some(PositionMetricName::RiskScore)
    } else if s == "contribution_to_portfolio"@ {
        Some(PositionMetricName::ContributionToPortfolio)
    } else {
        None
    }
}

impl PositionMetricName {
    pub fn parse(name: &str) -> (r: Option<PositionMetricName>)
        ensures
            r == position_metric_named(name@),
    {
        if same_text(name, "size") {
            Some(PositionMetricName::Size)
        } else if same_text(name, "unrealized_pnl") {
            Some(PositionMetricName::UnrealizedPnl)
        } else if same_text(name, "margin_used") {
            Some(PositionMetricName::MarginUsed)
        } else if same_text(name, "position_value") {
            Some(PositionMetricName::PositionValue)
        } else if same_text(name, "return_on_equity") {
            Some(PositionMetricName::ReturnOnEquity)
        } else if same_text(name, "leverage") {
            Some(PositionMetricName::Leverage)
        } else if same_text(name, "distance_to_liquidation") {
            Some(PositionMetricName::DistanceToLiquidation)
        } else if same_text(name, "position_size_ratio") {
            Some(PositionMetricName::PositionSizeRatio)
        } else if same_text(name, "risk_score") {
            Some(PositionMetricName::RiskScore)
        } else if same_text(name, "contribution_to_portfolio") {
            Some(PositionMetricName::ContributionToPortfolio)
        } else {
            None
        }
    }

    pub open spec fn value_of(self, m: PositionMetrics) -> i128 {
        match self {
            PositionMetricName::Size => m.position.size as i128,
            PositionMetricName::UnrealizedPnl => m.position.unrealized_pnl as i128,
            PositionMetricName::MarginUsed => m.position.margin_used as i128,
            PositionMetricName::PositionValue => m.position.position_value as i128,
            PositionMetricName::ReturnOnEquity => m.position.return_on_equity as i128,
            PositionMetricName::Leverage => m.position.leverage as i128,
            PositionMetricName::DistanceToLiquidation => m.distance_to_liquidation,
            PositionMetricName::PositionSizeRatio => m.position_size_ratio,
            PositionMetricName::RiskScore => m.risk_score,
            PositionMetricName::ContributionToPortfolio => m.contribution_to_portfolio,
        }
    }

    pub fn value(&self, m: &PositionMetrics) -> (r: i128)
        ensures
            r == self.value_of(*m),
    {
        match self {
            PositionMetricName::Size => m.position.size as i128,
            PositionMetricName::UnrealizedPnl => m.position.unrealized_pnl as i128,
            PositionMetricName::MarginUsed => m.position.margin_used as i128,
            PositionMetricName::PositionValue => m.position.position_value as i128,
            PositionMetricName::ReturnOnEquity => m.position.return_on_equity as i128,
            PositionMetricName::Leverage => m.position.leverage as i128,
            PositionMetricName::DistanceToLiquidation => m.distance_to_liquidation,
            PositionMetricName::PositionSizeRatio => m.position_size_ratio,
            PositionMetricName::RiskScore => m.risk_score,
            PositionMetricName::ContributionToPortfolio => m.contribution_to_portfolio,
        }
    }
}

// ---------------------------------------------------------------- ordering

/// Where a sample stamped `t` goes in samples sorted by time: after every
/// sample stamped `t` or earlier.
pub open spec fn insertion_point<T>(sorted: Seq<(u64, T)>, t: u64) -> int
    decreases sorted.len(),
{
    if sorted.len() == 0 {
        0
    } else if sorted.last().0 <= t {
        sorted.len() as int
    } else {
        insertion_point(sorted.drop_last(), t)
    }
}

/// The samples ordered by time, oldest first; samples with equal stamps
/// keep their order.
pub open spec fn by_time<T>(s: Seq<(u64, T)>) -> Seq<(u64, T)>
    decreases s.len(),
{
    if s.len() == 0 {
        s
    } else {
        let r = by_time(s.drop_last());
        r.insert(insertion_point(r, s.last().0), s.last())
    }
}

pub open spec fn is_by_time<T>(s: Seq<(u64, T)>) -> bool {
    forall|i: int, j: int| 0 <= i < j < s.len() ==> (#[trigger] s[i]).0 <= (#[trigger] s[j]).0
}

proof fn lemma_insertion_point_splits<T>(r: Seq<(u64, T)>, t: u64)
    requires
        is_by_time(r),
    ensures
        0 <= insertion_point(r, t) <= r.len(),
        forall|k: int| 0 <= k < insertion_point(r, t) ==> (#[trigger] r[k]).0 <= t,
        forall|k: int| insertion_point(r, t) <= k < r.len() ==> (#[trigger] r[k]).0 > t,
    decreases r.len(),
{
    if r.len() > 0 {
        let q = r.drop_last();
        assert(is_by_time(q)) by {
            assert forall|i: int, j: int| 0 <= i < j < q.len() implies (#[trigger] q[i]).0 <= (
            #[trigger] q[j]).0 by {
                assert(q[i] == r[i] && q[j] == r[j]);
            }
        }
        lemma_insertion_point_splits(q, t);
        if r.last().0 <= t {
            assert forall|k: int| 0 <= k < r.len() implies (#[trigger] r[k]).0 <= t by {
                if k < r.len() - 1 {
                    assert(r[k].0 <= r[r.len() - 1].0);
                }
            }
        } else {
            assert forall|k: int| 0 <= k < insertion_point(r, t) implies (#[trigger] r[k]).0
                <= t by {
                assert(q[k] == r[k]);
            }
            assert forall|k: int| insertion_point(r, t) <= k < r.len() implies (#[trigger] r[k]).0
                > t by {
                if k < r.len() - 1 {
                    assert(q[k] == r[k]);
                }
            }
        }
    }
}

/// [`by_time`] orders samples oldest first and keeps all of them.
pub proof fn lemma_by_time_sorted<T>(s: Seq<(u64, T)>)
    ensures
        is_by_time(by_time(s)),
        by_time(s).len() == s.len(),
    decreases s.len(),
{
    if s.len() > 0 {
        let r = by_time(s.drop_last());
        lemma_by_time_sorted(s.drop_last());
        let x = s.last();
        let p = insertion_point(r, x.0);
        lemma_insertion_point_splits(r, x.0);
        let out = r.insert(p, x);
        assert(out.len() == r.len() + 1);
        assert forall|i: int, j: int| 0 <= i < j < out.len() implies (#[trigger] out[i]).0 <= (
        #[trigger] out[j]).0 by {
            let ri = if i < p {
                i
            } else {
                i - 1
            };
            let rj = if j < p {
                j
            } else {
                j - 1
            };
            if i == p {
                assert(out[i] == x);
                assert(out[j] == r[rj]);
            } else if j == p {
                assert(out[j] == x);
                assert(out[i] == r[ri]);
            } else {
                assert(out[i] == r[ri]);
                assert(out[j] == r[rj]);
            }
        }
    }
}

/// The last `limit` samples.
pub open spec fn latest<T>(s: Seq<(u64, T)>, limit: nat) -> Seq<(u64, T)> {
    if s.len() <= limit {
        s
    } else {
        s.skip(s.len() - limit)
    }
}

proof fn lemma_insertion_point_prefix<T>(s: Seq<(u64, T)>, t: u64, j: int)
    requires
        0 <= j <= s.len(),
        forall|k: int| j <= k < s.len() ==> (#[trigger] s[k]).0 > t,
    ensures
        insertion_point(s, t) == insertion_point(s.take(j), t),
    decreases s.len() - j,
{
    if j < s.len() {
        let q = s.drop_last();
        assert(forall|k: int| j <= k < q.len() ==> #[trigger] q[k] == s[k]);
        lemma_insertion_point_prefix(q, t, j);
        assert(q.take(j) =~= s.take(j));
    } else {
        assert(s.take(j) =~= s);
    }
}

/// Orders samples by time, oldest first, keeping the order of equal stamps.
pub fn sort_by_time<T>(samples: Vec<(u64, T)>) -> (r: Vec<(u64, T)>)
    ensures
        r@ == by_time(samples@),
{
    let ghost all = samples@;
    let mut rest = samples;
    let mut out: Vec<(u64, T)> = Vec::new();
    let n = rest.len();
    let mut i: usize = 0;
    assert(all.take(0) =~= Seq::<(u64, T)>::empty());
    while i < n
        invariant
            n == all.len(),
            i <= n,
            rest@ == all.skip(i as int),
            out@ == by_time(all.take(i as int)),
        decreases n - i,
    {
        let x = rest.remove(0);
        assert(x == all[i as int]);
        assert(rest@ =~= all.skip(i as int + 1));
        let t = x.0;
        let mut j = out.len();
        while j > 0 && out[j - 1].0 > t
            invariant
                j <= out@.len(),
                forall|k: int| j <= k < out@.len() ==> (#[trigger] out@[k]).0 > t,
            decreases j,
        {
            j = j - 1;
        }
        proof {
            lemma_insertion_point_prefix(out@, t, j as int);
            if j > 0 {
                assert(out@.take(j as int).last() == out@[j - 1]);
            }
            let after = all.take(i as int + 1);
            assert(after.drop_last() =~= all.take(i as int));
            assert(after.last() == x);
        }
        out.insert(j, x);
        i = i + 1;
    }
    assert(all.take(n as int) =~= all);
    out
}

/// The last `limit` items of a vector.
fn keep_latest<T>(v: Vec<(u64, T)>, limit: usize) -> (r: Vec<(u64, T)>)
    ensures
        r@ == latest(v@, limit as nat),
{
    let n = v.len();
    if n <= limit {
        return v;
    }
    let ghost whole = v@;
    let mut v = v;
    let tail = v.split_off(n - limit);
    assert(tail@ =~= latest(whole, limit as nat));
    tail
}

/// The `limit` most recent samples, oldest first; of equal timestamps the
/// later samples count as more recent.
pub fn most_recent<T>(samples: Vec<(u64, T)>, limit: usize) -> (r: Vec<(u64, T)>)
    ensures
        r@ == latest(by_time(samples@), limit as nat),
{
    keep_latest(sort_by_time(samples), limit)
}

// ------------------------------------------------------------------ series

/// `(timestamp, value)` of a portfolio metric in each record, in order.
pub open spec fn portfolio_samples(entries: Seq<LogEntry>, metric: PortfolioMetricName) -> Seq<
    (u64, i128),
> {
    entries.map_values(|e: LogEntry| (e.timestamp, metric.value_of(e.portfolio_metrics)))
}

/// The series of a portfolio metric over the `limit` most recent records,
/// oldest first. Of records with equal timestamps the later ones count as
/// more recent.
pub fn metric_series(entries: &[LogEntry], metric: PortfolioMetricName, limit: usize) -> (r: Vec<
    (u64, i128),
>)
    ensures
        r@ == latest(by_time(portfolio_samples(entries@, metric)), limit as nat),
{
    let mut samples: Vec<(u64, i128)> = Vec::new();
    let n = entries.len();
    let mut i: usize = 0;
    while i < n
        invariant
            n == entries@.len(),
            i <= n,
            samples@ == portfolio_samples(entries@.take(i as int), metric),
        decreases n - i,
    {
        let e = &entries[i];
        samples.push((e.timestamp, metric.value(&e.portfolio_metrics)));
        assert(portfolio_samples(entries@.take(i as int + 1), metric) =~= portfolio_samples(
            entries@.take(i as int),
            metric,
        ).push((e.timestamp, metric.value_of(e.portfolio_metrics))));
        i = i + 1;
    }
    assert(entries@.take(n as int) =~= entries@);
    most_recent(samples, limit)
}

/// The metrics of the first position of the given coin, if any.
pub open spec fn first_of_coin(ms: Seq<PositionMetrics>, coin: Seq<char>) -> Option<
    PositionMetrics,
>
    decreases ms.len(),
{
    if ms.len() == 0 {
        None
    } else if ms[0].position.coin@ == coin {
        Some(ms[0])
    } else {
        first_of_coin(ms.drop_first(), coin)
    }
}

/// A position metric of one coin in one record, if the coin is there.
pub open spec fn coin_value(e: LogEntry, coin: Seq<char>, metric: PositionMetricName) -> Option<
    i128,
> {
    match first_of_coin(e.position_metrics@, coin) {
        Some(m) => Some(metric.value_of(m)),
        None => None,
    }
}

/// `(timestamp, value)` of a position metric in each record, in order.
pub open spec fn position_samples(
    entries: Seq<LogEntry>,
    coin: Seq<char>,
    metric: PositionMetricName,
) -> Seq<(u64, Option<i128>)> {
    entries.map_values(|e: LogEntry| (e.timestamp, coin_value(e, coin, metric)))
}

/// The samples that have a value.
pub open spec fn present(s: Seq<(u64, Option<i128>)>) -> Seq<(u64, i128)>
    decreases s.len(),
{
    if s.len() == 0 {
        Seq::<(u64, i128)>::empty()
    } else {
        match s.last().1 {
            Some(v) => present(s.drop_last()).push((s.last().0, v)),
            None => present(s.drop_last()),
        }
    }
}

fn find_coin<'a>(ms: &'a [PositionMetrics], coin: &str) -> (r: Option<&'a PositionMetrics>)
    ensures
        match r {
            Some(m) => first_of_coin(ms@, coin@) == Some(*m),
            None => first_of_coin(ms@, coin@) is None,
        },
{
    let n = ms.len();
    let mut i: usize = 0;
    assert(ms@.skip(0) =~= ms@);
    while i < n
        invariant
            n == ms@.len(),
            i <= n,
            first_of_coin(ms@, coin@) == first_of_coin(ms@.skip(i as int), coin@),
        decreases n - i,
    {
        assert(ms@.skip(i as int)[0] == ms@[i as int]);
        assert(ms@.skip(i as int).drop_first() =~= ms@.skip(i as int + 1));
        if same_text(ms[i].position.coin.as_str(), coin) {
            return Some(&ms[i]);
        }
        i = i + 1;
    }
    None
}

/// The series of one position's metric over the `limit` most recent
/// records, oldest first; records without the coin are left out.
pub fn position_series(
    entries: &[LogEntry],
    coin: &str,
    metric: PositionMetricName,
    limit: usize,
) -> (r: Vec<(u64, i128)>)
    ensures
        r@ == present(latest(by_time(position_samples(entries@, coin@, metric)), limit as nat)),
{
    let mut samples: Vec<(u64, Option<i128>)> = Vec::new();
    let n = entries.len();
    let mut i: usize = 0;
    while i < n
        invariant
            n == entries@.len(),
            i <= n,
            samples@ == position_samples(entries@.take(i as int), coin@, metric),
        decreases n - i,
    {
        let e = &entries[i];
        let value = match find_coin(e.position_metrics.as_slice(), coin) {
            Some(m) => Some(metric.value(m)),
            None => None,
        };
        samples.push((e.timestamp, value));
        assert(position_samples(entries@.take(i as int + 1), coin@, metric) =~= position_samples(
            entries@.take(i as int),
            coin@,
            metric,
        ).push((e.timestamp, coin_value(*e, coin@, metric))));
        i = i + 1;
    }
    assert(entries@.take(n as int) =~= entries@);
    let chosen = most_recent(samples, limit);
    let mut out: Vec<(u64, i128)> = Vec::new();
    let m = chosen.len();
    let mut j: usize = 0;
    while j < m
        invariant
            m == chosen@.len(),
            j <= m,
            out@ == present(chosen@.take(j as int)),
        decreases m - j,
    {
        let ghost after = chosen@.take(j as int + 1);
        assert(after.drop_last() =~= chosen@.take(j as int));
        assert(after.last() == chosen@[j as int]);
        let (t, v) = chosen[j];
        if let Some(x) = v {
            out.push((t, x));
        }
        j = j + 1;
    }
    assert(chosen@.take(m as int) =~= chosen@);
    out
}

// ------------------------------------------------------------------ limits

/// Why a requested number of history records was refused.
#[derive(Clone, Copy, Debug, PartialEq, Eq, Structural)]
pub enum LimitError {
    /// The text is not an unsigned integer.
    NotANumber,
    /// The number is outside `1..=MAX_HISTORY_LIMIT`.
    OutOfRange,
}

/// Records a history query covers when it names no limit.
pub const DEFAULT_HISTORY_LIMIT: usize = 100;

/// The most records a portfolio metric query may ask for.
pub const MAX_HISTORY_LIMIT: usize = 1000;

/// The limit of a portfolio metric query: the default when absent,
/// otherwise a number in `1..=MAX_HISTORY_LIMIT`.
pub open spec fn metric_history_limit_of(text: Option<Seq<char>>) -> Result<usize, LimitError> {
    match text {
        None => Ok(DEFAULT_HISTORY_LIMIT),
        Some(t) => match unsigned_number(t, usize::MAX as int) {
            None => Err(LimitError::NotANumber),
            Some(n) => if 1 <= n <= MAX_HISTORY_LIMIT {
                Ok(n as usize)
            } else {
                Err(LimitError::OutOfRange)
            },
        },
    }
}

pub fn metric_history_limit(text: Option<&str>) -> (r: Result<usize, LimitError>)
    ensures
        r == metric_history_limit_of(
            match text {
                Some(t) => Some(t@),
                None => None,
            },
        ),
{
    match text {
        None => Ok(DEFAULT_HISTORY_LIMIT),
        Some(t) => match parse_unsigned(t, usize::MAX as u64) {
            None => Err(LimitError::NotANumber),
            Some(n) => {
                if 1 <= n && n <= MAX_HISTORY_LIMIT as u64 {
                    Ok(n as usize)
                } else {
                    Err(LimitError::OutOfRange)
                }
            },
        },
    }
}

/// The limit of a position metric query: the number given, or the default
/// when it is absent or not a number.
pub open spec fn position_history_limit_of(text: Option<Seq<char>>) -> usize {
    match text {
        Some(t) => match unsigned_number(t, usize::MAX as int) {
            Some(n) => n as usize,
            None => DEFAULT_HISTORY_LIMIT,
        },
        None => DEFAULT_HISTORY_LIMIT,
    }
}

pub fn position_history_limit(text: Option<&str>) -> (r: usize)
    ensures
        r == position_history_limit_of(
            match text {
                Some(t) => Some(t@),
                None => None,
            },
        ),
{
    match text {
        Some(t) => match parse_unsigned(t, usize::MAX as u64) {
            Some(n) => n as usize,
            None => DEFAULT_HISTORY_LIMIT,
        },
        None => DEFAULT_HISTORY_LIMIT,
    }
}

} // verus!
