use risk_management::calculation::RiskCalculator;
use risk_management::limits::RiskLimiter;
use risk_management::types::{
    AccountSummary, Position, PortfolioMetrics, PositionMetrics, RiskLimits, RiskSeverity,
    RiskWarningType, SCALE,
};

const S: i64 = SCALE;
const SI: i128 = SCALE as i128;

fn quiet_portfolio() -> PortfolioMetrics {
    PortfolioMetrics {
        portfolio_heat: 10 * SI,
        concentration_score: 10 * SI,
        risk_adjusted_return: 0,
        margin_utilization: 10 * SI,
        total_unrealized_pnl: 0,
        account_value: 1000 * SI,
        total_position_value: 100 * SI,
        average_leverage: SI,
    }
}

fn position(coin: &str, is_cross: bool) -> Position {
    Position {
        coin: coin.to_string(),
        size: S,
        entry_price: Some(100 * S),
        leverage: S,
        liquidation_price: Some(50 * S),
        unrealized_pnl: 0,
        margin_used: S,
        position_value: 100 * S,
        return_on_equity: 0,
        is_cross,
        max_leverage: 50,
    }
}

fn metrics(p: Position, distance: i128, ratio: i128) -> PositionMetrics {
    PositionMetrics {
        position: p,
        distance_to_liquidation: distance,
        position_size_ratio: ratio,
        risk_score: 0,
        contribution_to_portfolio: 0,
    }
}

fn limiter() -> RiskLimiter {
    RiskLimiter::new(RiskLimits::default())
}

#[test]
fn quiet_metrics_raise_no_warning() {
    let ws = limiter()
        .check_thresholds(&quiet_portfolio(), &[metrics(position("A", true), 50 * SI, SI)])
        .unwrap();
    assert!(ws.is_empty());
}

#[test]
fn margin_utilization_severities() {
    let l = limiter();
    let mut m = quiet_portfolio();
    m.margin_utilization = 72 * SI;
    assert!(l.check_thresholds(&m, &[]).unwrap().is_empty());
    m.margin_utilization = 73 * SI;
    let ws = l.check_thresholds(&m, &[]).unwrap();
    assert_eq!(ws.len(), 1);
    assert_eq!(ws[0].warning_type, RiskWarningType::MarginUtilizationHigh);
    assert_eq!(ws[0].severity, RiskSeverity::Medium);
    assert_eq!(ws[0].message, "Margin utilization is high at 73.00% (threshold: 80.00%)");
    assert_eq!(
        ws[0].suggested_action,
        "Consider reducing position sizes or adding more collateral."
    );
    assert_eq!(ws[0].related_position, None);
    m.margin_utilization = 76 * SI;
    assert_eq!(l.check_thresholds(&m, &[]).unwrap()[0].severity, RiskSeverity::High);
    m.margin_utilization = 80 * SI;
    assert_eq!(l.check_thresholds(&m, &[]).unwrap()[0].severity, RiskSeverity::Critical);
}

#[test]
fn heat_severities() {
    let l = limiter();
    let mut m = quiet_portfolio();
    m.portfolio_heat = 70 * SI;
    assert!(l.check_thresholds(&m, &[]).unwrap().is_empty());
    m.portfolio_heat = 75 * SI;
    let ws = l.check_thresholds(&m, &[]).unwrap();
    assert_eq!(ws[0].warning_type, RiskWarningType::OverallPortfolioRisk);
    assert_eq!(ws[0].severity, RiskSeverity::Medium);
    assert_eq!(ws[0].message, "Overall portfolio risk is high with a heat score of 75.00");
    m.portfolio_heat = 80 * SI;
    assert_eq!(l.check_thresholds(&m, &[]).unwrap()[0].severity, RiskSeverity::High);
    m.portfolio_heat = 90 * SI;
    assert_eq!(l.check_thresholds(&m, &[]).unwrap()[0].severity, RiskSeverity::Critical);
}

#[test]
fn concentration_needs_positive_total() {
    let l = limiter();
    let mut m = quiet_portfolio();
    m.concentration_score = 100 * SI;
    let ws = l.check_thresholds(&m, &[]).unwrap();
    assert_eq!(ws.len(), 1);
    assert_eq!(ws[0].warning_type, RiskWarningType::HighConcentration);
    assert_eq!(ws[0].severity, RiskSeverity::Medium);
    assert_eq!(ws[0].message, "Portfolio is highly concentrated with a score of 100.00");
    m.total_position_value = 0;
    assert!(l.check_thresholds(&m, &[]).unwrap().is_empty());
}

#[test]
fn average_leverage_severities() {
    let l = limiter();
    let mut m = quiet_portfolio();
    m.average_leverage = 40 * SI;
    assert!(l.check_thresholds(&m, &[]).unwrap().is_empty());
    m.average_leverage = 41 * SI;
    let ws = l.check_thresholds(&m, &[]).unwrap();
    assert_eq!(ws[0].warning_type, RiskWarningType::HighLeverage);
    assert_eq!(ws[0].severity, RiskSeverity::Medium);
    assert_eq!(ws[0].message, "Average portfolio leverage is high at 41.00x (threshold: 50.00x)");
    m.average_leverage = 50 * SI;
    assert_eq!(l.check_thresholds(&m, &[]).unwrap()[0].severity, RiskSeverity::High);
}

#[test]
fn position_leverage_triggers_differ_by_margin_type() {
    let l = limiter();
    let mut cross = position("BTC", true);
    cross.leverage = 38 * S;
    let mut isolated = position("ETH", false);
    isolated.leverage = 38 * S;
    let ws = l
        .check_thresholds(
            &quiet_portfolio(),
            &[metrics(cross, 50 * SI, SI), metrics(isolated, 50 * SI, SI)],
        )
        .unwrap();
    assert_eq!(ws.len(), 1);
    assert_eq!(ws[0].warning_type, RiskWarningType::HighLeverage);
    assert_eq!(ws[0].severity, RiskSeverity::Medium);
    assert_eq!(ws[0].related_position, Some("ETH".to_string()));
    assert_eq!(
        ws[0].message,
        "ETH: isolated margin leverage is high at 38.00x (threshold: 50.00x)"
    );
    assert_eq!(
        ws[0].suggested_action,
        "Consider reducing leverage for ETH position or switching to cross margin."
    );
}

#[test]
fn position_leverage_high_severity() {
    let l = limiter();
    let mut cross = position("BTC", true);
    cross.leverage = 50 * S;
    let mut isolated = position("ETH", false);
    isolated.leverage = 45 * S;
    let ws = l
        .check_thresholds(
            &quiet_portfolio(),
            &[metrics(cross, 50 * SI, SI), metrics(isolated, 50 * SI, SI)],
        )
        .unwrap();
    assert_eq!(ws.len(), 2);
    assert_eq!(ws[0].severity, RiskSeverity::High);
    assert_eq!(ws[1].severity, RiskSeverity::High);
    assert_eq!(
        ws[0].suggested_action,
        "Consider reducing leverage for BTC position or switching to lower margin."
    );
}

#[test]
fn liquidation_severities() {
    let l = limiter();
    let cases: [(bool, i128, Option<RiskSeverity>); 7] = [
        (true, 10 * SI, None),
        (true, 9 * SI, Some(RiskSeverity::Medium)),
        (true, 6 * SI, Some(RiskSeverity::High)),
        (true, 4 * SI, Some(RiskSeverity::Critical)),
        (false, 15 * SI, None),
        (false, 12 * SI, Some(RiskSeverity::Medium)),
        (false, 9 * SI, Some(RiskSeverity::High)),
    ];
    for (is_cross, d, expected) in cases {
        let ws = l
            .check_thresholds(&quiet_portfolio(), &[metrics(position("SOL", is_cross), d, SI)])
            .unwrap();
        match expected {
            None => assert!(ws.is_empty()),
            Some(s) => {
                assert_eq!(ws.len(), 1);
                assert_eq!(ws[0].warning_type, RiskWarningType::LiquidationRisk);
                assert_eq!(ws[0].severity, s);
            },
        }
    }
}

#[test]
fn liquidation_message_uses_adjusted_threshold() {
    let l = limiter();
    let ws = l
        .check_thresholds(&quiet_portfolio(), &[metrics(position("SOL", false), 12 * SI, SI)])
        .unwrap();
    assert_eq!(
        ws[0].message,
        "SOL: isolated margin position close to liquidation at 12.00% distance (threshold: 15.00%)"
    );
    assert_eq!(
        ws[0].suggested_action,
        "Urgently reduce position size or add margin to the SOL position or consider switching to cross margin."
    );
}

#[test]
fn size_ratio_triggers() {
    let l = limiter();
    let q = quiet_portfolio();
    let ws = l.check_thresholds(&q, &[metrics(position("A", true), 50 * SI, 20 * SI)]).unwrap();
    assert!(ws.is_empty());
    let ws = l.check_thresholds(&q, &[metrics(position("A", true), 50 * SI, 21 * SI)]).unwrap();
    assert_eq!(ws[0].warning_type, RiskWarningType::PositionSizeExceeded);
    assert_eq!(ws[0].severity, RiskSeverity::Medium);
    assert_eq!(
        ws[0].message,
        "A: cross margin position uses 21.00% of account value (threshold: 20.00%)"
    );
    let ws = l.check_thresholds(&q, &[metrics(position("B", false), 50 * SI, 17 * SI)]).unwrap();
    assert_eq!(ws[0].severity, RiskSeverity::Medium);
    assert_eq!(
        ws[0].message,
        "B: isolated margin position uses 17.00% of account value (threshold: 16.00%)"
    );
    let ws = l.check_thresholds(&q, &[metrics(position("B", false), 50 * SI, 21 * SI)]).unwrap();
    assert_eq!(ws[0].severity, RiskSeverity::High);
    assert_eq!(
        ws[0].suggested_action,
        "Consider reducing the size of the B position to improve diversification or switching to cross margin."
    );
}

#[test]
fn usd_cap_warning() {
    let l = limiter();
    let mut p = position("BTC", true);
    p.position_value = -150_000 * S;
    let ws = l.check_thresholds(&quiet_portfolio(), &[metrics(p, 50 * SI, SI)]).unwrap();
    assert_eq!(ws.len(), 1);
    assert_eq!(ws[0].warning_type, RiskWarningType::PositionSizeExceeded);
    assert_eq!(ws[0].severity, RiskSeverity::Medium);
    assert_eq!(ws[0].message, "BTC: Position value is $150000.00 (threshold: $100000.00)");
    assert_eq!(
        ws[0].suggested_action,
        "Consider reducing the size of the BTC position to stay within USD limits."
    );
}

#[test]
fn warnings_are_ranked_by_severity_with_stable_ties() {
    let l = limiter();
    let mut m = quiet_portfolio();
    m.average_leverage = 41 * SI;
    m.portfolio_heat = 95 * SI;
    m.concentration_score = 90 * SI;
    let mut p = position("X", true);
    p.leverage = 50 * S;
    let ws = l.check_thresholds(&m, &[metrics(p, 4 * SI, 30 * SI)]).unwrap();
    let kinds: Vec<(RiskSeverity, RiskWarningType)> =
        ws.iter().map(|w| (w.severity, w.warning_type)).collect();
    assert_eq!(
        kinds,
        vec![
            (RiskSeverity::Critical, RiskWarningType::OverallPortfolioRisk),
            (RiskSeverity::Critical, RiskWarningType::LiquidationRisk),
            (RiskSeverity::High, RiskWarningType::HighLeverage),
            (RiskSeverity::Medium, RiskWarningType::HighConcentration),
            (RiskSeverity::Medium, RiskWarningType::HighLeverage),
            (RiskSeverity::Medium, RiskWarningType::PositionSizeExceeded),
        ]
    );
    for pair in ws.windows(2) {
        assert!(pair[0].severity >= pair[1].severity);
    }
}

#[test]
fn single_cross_position_scenario_warnings() {
    let c = RiskCalculator::new(RiskLimits::default());
    let p = Position {
        coin: "BTC".to_string(),
        size: 10 * S,
        entry_price: Some(100 * S),
        leverage: 5 * S,
        liquidation_price: Some(80 * S),
        unrealized_pnl: 0,
        margin_used: 200 * S,
        position_value: 1000 * S,
        return_on_equity: 0,
        is_cross: true,
        max_leverage: 50,
    };
    let acct = AccountSummary {
        account_value: 1000 * S,
        margin_used: 200 * S,
        total_position_notional: 1000 * S,
        withdrawable: 800 * S,
    };
    let ps = vec![p];
    let pm = c.calculate_portfolio_metrics(&ps, &acct).unwrap();
    let km = c.calculate_position_metrics(&ps, &acct).unwrap();
    let ws = limiter().check_thresholds(&pm, &km).unwrap();
    // No liquidation, margin, leverage or size warning; a lone position is
    // fully concentrated, which the concentration check reports.
    assert_eq!(ws.len(), 1);
    assert_eq!(ws[0].warning_type, RiskWarningType::HighConcentration);
    assert_eq!(ws[0].severity, RiskSeverity::Medium);
}

#[test]
fn severity_order() {
    assert!(RiskSeverity::Low < RiskSeverity::Medium);
    assert!(RiskSeverity::Medium < RiskSeverity::High);
    assert!(RiskSeverity::High < RiskSeverity::Critical);
    assert_eq!(RiskSeverity::Critical.level(), 3);
    assert_eq!(RiskSeverity::Low.level(), 0);
}
