use risk_management::calculation::{RiskCalculator, HUNDRED};
use risk_management::types::{AccountSummary, Position, RiskLimits, SCALE};

const S: i64 = SCALE;

fn position(coin: &str, value: i64, leverage: i64, is_cross: bool) -> Position {
    Position {
        coin: coin.to_string(),
        size: S,
        entry_price: None,
        leverage,
        liquidation_price: None,
        unrealized_pnl: 0,
        margin_used: 0,
        position_value: value,
        return_on_equity: 0,
        is_cross,
        max_leverage: 50,
    }
}

fn account(value: i64) -> AccountSummary {
    AccountSummary {
        account_value: value,
        margin_used: 0,
        total_position_notional: 0,
        withdrawable: 0,
    }
}

fn calculator() -> RiskCalculator {
    RiskCalculator::new(RiskLimits::default())
}

fn scenario_position() -> Position {
    Position {
        coin: "BTC".to_string(),
        size: 10 * S,
        entry_price: Some(100 * S),
        leverage: 5 * S,
        liquidation_price: Some(80 * S),
        unrealized_pnl: 0,
        margin_used: 200 * S,
        position_value: 1000 * S,
        return_on_equity: 0,
        is_cross: true,
        max_leverage: 50,
    }
}

#[test]
fn single_cross_position_scenario_metrics() {
    let c = calculator();
    let ps = vec![scenario_position()];
    let acct = account(1000 * S);
    let pm = c.calculate_position_metrics(&ps, &acct).unwrap();
    assert_eq!(pm.len(), 1);
    assert_eq!(pm[0].distance_to_liquidation, 20 * S as i128);
    assert_eq!(pm[0].position_size_ratio, 20 * S as i128);
    // leverage 35 * 5 / 50 = 3.5, distance 0, size 20 * 20 / 20 = 20
    assert_eq!(pm[0].risk_score, 23_500_000);
    assert!(pm[0].risk_score < 50 * S as i128);
    assert_eq!(pm[0].contribution_to_portfolio, 23_500_000);

    let m = c.calculate_portfolio_metrics(&ps, &acct).unwrap();
    assert_eq!(m.margin_utilization, 20 * S as i128);
    assert_eq!(m.concentration_score, HUNDRED);
    assert_eq!(m.average_leverage, 5 * S as i128);
    assert_eq!(m.total_position_value, 1000 * S as i128);
    // leverage 2.5 + margin 10 + concentration 20 + liquidation 0
    assert_eq!(m.portfolio_heat, 32_500_000);
    assert_eq!(m.risk_adjusted_return, 0);
    assert_eq!(m.account_value, 1000 * S as i128);
}

#[test]
fn empty_portfolio_is_all_zero_but_account_value() {
    let c = calculator();
    let m = c.calculate_portfolio_metrics(&[], &account(1234 * S)).unwrap();
    assert_eq!(m.portfolio_heat, 0);
    assert_eq!(m.concentration_score, 0);
    assert_eq!(m.risk_adjusted_return, 0);
    assert_eq!(m.margin_utilization, 0);
    assert_eq!(m.total_unrealized_pnl, 0);
    assert_eq!(m.total_position_value, 0);
    assert_eq!(m.average_leverage, 0);
    assert_eq!(m.account_value, 1234 * S as i128);
    assert!(c.calculate_position_metrics(&[], &account(S)).unwrap().is_empty());
}

#[test]
fn concentration_single_position_is_hundred() {
    let c = calculator();
    assert_eq!(c.calculate_concentration_score(&[position("A", 5 * S, S, true)]), HUNDRED);
}

#[test]
fn concentration_equal_split_is_zero() {
    let c = calculator();
    let ps = vec![
        position("A", 300 * S, S, true),
        position("B", -300 * S, S, false),
        position("C", 300 * S, S, true),
    ];
    assert_eq!(c.calculate_concentration_score(&ps), 0);
}

#[test]
fn concentration_three_to_one_is_twenty_five() {
    let c = calculator();
    let ps = vec![position("A", 3000 * S, S, true), position("B", 1000 * S, S, true)];
    // shares 0.75 and 0.25: HHI 0.625, normalized (0.625 - 0.5) / 0.5
    assert_eq!(c.calculate_concentration_score(&ps), 25 * S as i128);
}

#[test]
fn concentration_zero_total_is_zero() {
    let c = calculator();
    let ps = vec![position("A", 0, S, true), position("B", 0, S, true)];
    assert_eq!(c.calculate_concentration_score(&ps), 0);
}

#[test]
fn concentration_stays_in_range() {
    let c = calculator();
    let ps = vec![
        position("A", 999_999 * S, S, true),
        position("B", 1, S, true),
        position("C", 7, S, false),
    ];
    let score = c.calculate_concentration_score(&ps);
    assert!(score >= 0 && score <= HUNDRED);
    assert!(score > 99 * S as i128);
}

#[test]
fn distance_long_and_short() {
    let c = calculator();
    let mut p = scenario_position();
    assert_eq!(c.calculate_distance_to_liquidation(&p), 20 * S as i128);
    p.size = -10 * S;
    p.liquidation_price = Some(110 * S);
    assert_eq!(c.calculate_distance_to_liquidation(&p), 10 * S as i128);
}

#[test]
fn distance_fallbacks_are_hundred() {
    let c = calculator();
    let mut p = scenario_position();
    p.liquidation_price = Some(120 * S);
    assert_eq!(c.calculate_distance_to_liquidation(&p), HUNDRED);
    p.liquidation_price = None;
    assert_eq!(c.calculate_distance_to_liquidation(&p), HUNDRED);
    let mut q = scenario_position();
    q.size = 0;
    assert_eq!(c.calculate_distance_to_liquidation(&q), HUNDRED);
    let mut r = scenario_position();
    r.size = -S;
    assert_eq!(c.calculate_distance_to_liquidation(&r), HUNDRED);
}

#[test]
fn size_ratio_needs_positive_account() {
    let c = calculator();
    let p = scenario_position();
    assert_eq!(c.calculate_position_size_ratio(&p, 1000 * S), 20 * S as i128);
    assert_eq!(c.calculate_position_size_ratio(&p, 0), 0);
    assert_eq!(c.calculate_position_size_ratio(&p, -5 * S), 0);
}

#[test]
fn risk_score_is_clamped_for_extreme_leverage() {
    let c = calculator();
    let mut p = scenario_position();
    p.leverage = 1_000_000 * S;
    let score = c.calculate_position_risk_score(&p, 0, 1000 * S as i128);
    assert_eq!(score, HUNDRED);
}

#[test]
fn isolated_scores_higher_than_cross() {
    let c = calculator();
    let mut p = scenario_position();
    p.leverage = 10 * S;
    let cross = c.calculate_position_risk_score(&p, 5 * S as i128, 10 * S as i128);
    p.is_cross = false;
    let isolated = c.calculate_position_risk_score(&p, 5 * S as i128, 10 * S as i128);
    // cross: 35 * 10 / 50 + 35 * (1 - 5 / 10) + 20 * 10 / 20 = 7 + 17.5 + 10
    assert_eq!(cross, 34_500_000);
    // isolated: 40 * 10 / 50 + 40 * 0.5 + 25 * 10 / 20 = 8 + 20 + 12.5
    assert_eq!(isolated, 40_500_000);
    assert!(isolated >= cross);
}

#[test]
fn heat_stays_in_range_for_extreme_inputs() {
    let c = calculator();
    let mut p = scenario_position();
    p.leverage = 900_000 * S;
    p.margin_used = 900_000 * S;
    p.liquidation_price = Some(99 * S);
    let m = c.calculate_portfolio_metrics(&[p], &account(S)).unwrap();
    // leverage 30 (capped) + margin 40 (capped) + concentration 20 +
    // liquidation 8 * (1 - 1 / 10)
    assert_eq!(m.portfolio_heat, 97_200_000);
    assert!(m.portfolio_heat <= HUNDRED);
}

#[test]
fn heat_liquidation_factor_split_by_margin_type() {
    let c = calculator();
    let mut a = position("A", 500 * S, 0, true);
    a.entry_price = Some(100 * S);
    a.liquidation_price = Some(95 * S);
    let mut b = position("B", 500 * S, 0, false);
    b.entry_price = Some(100 * S);
    b.liquidation_price = Some(95 * S);
    // distances 5%: cross 8 * 0.5 = 4, isolated 10 * 0.5 = 5, each times a
    // half share; concentration 0
    let heat = c.calculate_portfolio_heat(&[a, b], 0, 0);
    assert_eq!(heat, 4_500_000);
}

#[test]
fn risk_adjusted_return_normalizes_by_heat() {
    let c = calculator();
    let mut p = scenario_position();
    p.return_on_equity = S / 2;
    let m = c.calculate_portfolio_metrics(&[p], &account(1000 * S)).unwrap();
    // 0.5 / (32.5 / 50)
    assert_eq!(m.portfolio_heat, 32_500_000);
    assert_eq!(m.risk_adjusted_return, 769_230);
}

#[test]
fn negative_return_rounds_toward_zero() {
    let c = calculator();
    let mut p = scenario_position();
    p.return_on_equity = -S / 2;
    let m = c.calculate_portfolio_metrics(&[p], &account(1000 * S)).unwrap();
    assert_eq!(m.risk_adjusted_return, -769_230);
}

#[test]
fn calculator_is_deterministic() {
    let c = calculator();
    let ps = vec![scenario_position(), position("ETH", 400 * S, 3 * S, false)];
    let acct = account(2000 * S);
    let m1 = c.calculate_portfolio_metrics(&ps, &acct).unwrap();
    let m2 = c.calculate_portfolio_metrics(&ps, &acct).unwrap();
    assert_eq!(m1, m2);
    let k1 = c.calculate_position_metrics(&ps, &acct).unwrap();
    let k2 = c.calculate_position_metrics(&ps, &acct).unwrap();
    for (a, b) in k1.iter().zip(k2.iter()) {
        assert_eq!(a.risk_score, b.risk_score);
        assert_eq!(a.distance_to_liquidation, b.distance_to_liquidation);
        assert_eq!(a.position_size_ratio, b.position_size_ratio);
        assert_eq!(a.contribution_to_portfolio, b.contribution_to_portfolio);
    }
}

#[test]
fn totals_sum_unrealized_pnl_and_weighted_leverage() {
    let c = calculator();
    let mut a = position("A", 300 * S, 2 * S, true);
    a.unrealized_pnl = 7 * S;
    let mut b = position("B", -100 * S, 10 * S, false);
    b.unrealized_pnl = -3 * S;
    let m = c.calculate_portfolio_metrics(&[a, b], &account(1000 * S)).unwrap();
    assert_eq!(m.total_unrealized_pnl, 4 * S as i128);
    assert_eq!(m.total_position_value, 400 * S as i128);
    // (2 * 300 + 10 * 100) / 400
    assert_eq!(m.average_leverage, 4 * S as i128);
}

#[test]
fn largest_inputs_stay_in_range() {
    let c = calculator();
    let big = risk_management::types::MAX_AMOUNT;
    let ps: Vec<Position> = (0..risk_management::types::MAX_POSITIONS)
        .map(|i| Position {
            coin: format!("C{}", i),
            size: -big,
            entry_price: Some(big),
            leverage: big,
            liquidation_price: Some(-big),
            unrealized_pnl: -big,
            margin_used: big,
            position_value: if i % 2 == 0 { big } else { -big },
            return_on_equity: -big,
            is_cross: i % 3 == 0,
            max_leverage: u32::MAX,
        })
        .collect();
    let acct = account(1);
    let m = c.calculate_portfolio_metrics(&ps, &acct).unwrap();
    // leverage 30 and margin 40, both capped; an even split; the
    // liquidation prices are on the wrong side, so no liquidation points
    assert_eq!(m.portfolio_heat, 70 * S as i128);
    assert_eq!(m.concentration_score, 0);
    assert_eq!(m.total_position_value, 1000 * big as i128);
    assert_eq!(m.total_unrealized_pnl, -1000 * big as i128);
    assert_eq!(m.average_leverage, big as i128);
    let k = c.calculate_position_metrics(&ps, &acct).unwrap();
    assert_eq!(k.len(), 1000);
    assert!(k.iter().all(|x| x.risk_score == HUNDRED));
}
