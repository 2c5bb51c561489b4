use risk_management::cache::{ReadDecision, SnapshotCache};
use risk_management::system::{
    retain_open_positions, summarize, LogEntry, RiskAnalysisResult, RiskManagementSystem,
};
use risk_management::types::{
    AccountSummary, Position, PortfolioMetrics, PositionMetrics, RiskError, RiskLimits, SCALE,
};

const S: i64 = SCALE;

fn position(coin: &str, size: i64, value: i64, leverage: i64) -> Position {
    Position {
        coin: coin.to_string(),
        size,
        entry_price: Some(100 * S),
        leverage,
        liquidation_price: Some(50 * S),
        unrealized_pnl: 0,
        margin_used: S,
        position_value: value,
        return_on_equity: 0,
        is_cross: true,
        max_leverage: 50,
    }
}

fn account() -> AccountSummary {
    AccountSummary {
        account_value: 10_000 * S,
        margin_used: 0,
        total_position_notional: 0,
        withdrawable: 0,
    }
}

fn zero_metrics() -> PortfolioMetrics {
    PortfolioMetrics {
        portfolio_heat: 0,
        concentration_score: 0,
        risk_adjusted_return: 0,
        margin_utilization: 0,
        total_unrealized_pnl: 0,
        account_value: 0,
        total_position_value: 0,
        average_leverage: 0,
    }
}

fn scored(coin: &str, score: i128) -> PositionMetrics {
    PositionMetrics {
        position: position(coin, S, S, S),
        distance_to_liquidation: 0,
        position_size_ratio: 0,
        risk_score: score,
        contribution_to_portfolio: 0,
    }
}

fn empty_analysis() -> RiskAnalysisResult {
    RiskAnalysisResult {
        positions: vec![],
        portfolio_metrics: zero_metrics(),
        position_metrics: vec![],
        warnings: vec![],
    }
}

#[test]
fn zero_size_positions_are_dropped() {
    let ps = vec![
        position("A", S, S, S),
        position("B", 0, S, S),
        position("C", -S, S, S),
    ];
    let open = retain_open_positions(&ps);
    let coins: Vec<&str> = open.iter().map(|p| p.coin.as_str()).collect();
    assert_eq!(coins, vec!["A", "C"]);
}

#[test]
fn analysis_bundles_metrics_and_warnings() {
    let sys = RiskManagementSystem::new(RiskLimits::default());
    let ps = vec![position("A", S, 600 * S, 45 * S), position("B", S, 400 * S, S)];
    let a = sys.analyze_risk_profile(ps, &account()).unwrap();
    assert_eq!(a.positions.len(), 2);
    assert_eq!(a.position_metrics.len(), 2);
    assert_eq!(a.position_metrics[0].position.coin, "A");
    assert_eq!(a.portfolio_metrics.total_position_value, 1000 * SCALE as i128);
    assert_eq!(a.warnings.len(), 1);
    assert_eq!(a.warnings[0].related_position, Some("A".to_string()));
}

#[test]
fn summary_projects_the_analysis() {
    let sys = RiskManagementSystem::new(RiskLimits::default());
    let ps = vec![position("A", S, 600 * S, 45 * S), position("B", S, 400 * S, S)];
    let s = sys.get_risk_summary(ps, &account()).unwrap();
    assert_eq!(s.warning_count, 1);
    assert_eq!(s.account_value, 10_000 * SCALE as i128);
    let (p, score) = s.highest_risk_position.unwrap();
    assert_eq!(p.coin, "A");
    assert!(score > 0);
}

#[test]
fn highest_risk_tie_goes_to_first() {
    let mut a = empty_analysis();
    a.position_metrics = vec![scored("A", 5), scored("B", 9), scored("C", 9), scored("D", 1)];
    let s = summarize(&a);
    let (p, score) = s.highest_risk_position.unwrap();
    assert_eq!(p.coin, "B");
    assert_eq!(score, 9);
}

#[test]
fn summary_of_no_positions_has_no_highest() {
    let s = summarize(&empty_analysis());
    assert!(s.highest_risk_position.is_none());
    assert_eq!(s.warning_count, 0);
}

#[test]
fn invalid_limits_are_rejected_and_old_ones_kept() {
    let mut sys = RiskManagementSystem::new(RiskLimits::default());
    let mut bad = RiskLimits::default();
    bad.max_leverage = 0;
    assert_eq!(sys.update_settings(bad), Err(RiskError::InvalidConfiguration));
    assert_eq!(sys.get_config(), RiskLimits::default());
    let mut good = RiskLimits::default();
    good.max_leverage = 20 * S;
    assert_eq!(sys.update_settings(good), Ok(()));
    assert_eq!(sys.get_config().max_leverage, 20 * S);
}

#[test]
fn limits_validation() {
    assert!(RiskLimits::default().check());
    let mut l = RiskLimits::default();
    l.min_distance_to_liq = -1;
    assert!(!l.check());
}

#[test]
fn log_entry_keeps_its_parts() {
    let e = LogEntry::new(42, vec![], zero_metrics(), vec![], vec![]);
    assert_eq!(e.timestamp, 42);
    assert!(e.positions.is_empty());
}

#[test]
fn second_refresh_is_skipped_while_first_runs() {
    let mut c = SnapshotCache::new(60);
    assert!(c.try_begin_refresh());
    assert!(!c.try_begin_refresh());
    c.finish_refresh(Some(empty_analysis()), 100);
    assert!(c.try_begin_refresh());
    c.finish_refresh(None, 200);
    assert!(c.try_begin_refresh());
}

#[test]
fn abandoned_refresh_keeps_snapshot_and_clears_flag() {
    let mut c = SnapshotCache::new(60);
    assert!(c.try_begin_refresh());
    c.finish_refresh(Some(empty_analysis()), 100);
    assert!(c.try_begin_refresh());
    c.finish_refresh(None, 130);
    assert!(c.is_fresh(159));
    assert!(!c.is_fresh(160));
}

#[test]
fn reads_serve_fresh_snapshot_without_lock() {
    let mut c = SnapshotCache::new(60);
    assert!(c.cached(0).is_none());
    c.finish_refresh(Some(empty_analysis()), 1000);
    assert!(c.cached(1059).is_some());
    assert_eq!(c.decide_read(1059, false), ReadDecision::ServeCached);
    assert!(c.cached(1060).is_none());
    assert!(c.cached(999).is_none());
}

#[test]
fn stale_read_without_lock_is_busy() {
    let mut c = SnapshotCache::new(60);
    assert_eq!(c.decide_read(5, false), ReadDecision::Busy);
    assert_eq!(c.decide_read(5, true), ReadDecision::Recompute);
    c.finish_refresh(Some(empty_analysis()), 10);
    assert_eq!(c.decide_read(100, false), ReadDecision::Busy);
    assert_eq!(c.decide_read(100, true), ReadDecision::Recompute);
}

#[test]
fn reader_store_keeps_refresh_flag() {
    let mut c = SnapshotCache::new(30);
    assert!(c.try_begin_refresh());
    c.store(empty_analysis(), 50);
    assert!(c.is_fresh(79));
    assert!(!c.try_begin_refresh());
}
