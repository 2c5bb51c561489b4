use risk_management::history::{
    metric_history_limit, metric_series, most_recent, position_history_limit, position_series,
    same_text, sort_by_time, LimitError, PortfolioMetricName, PositionMetricName,
};
use risk_management::text::parse_unsigned;
use risk_management::system::LogEntry;
use risk_management::types::{Position, PortfolioMetrics, PositionMetrics};

fn metrics(heat: i128) -> PortfolioMetrics {
    PortfolioMetrics {
        portfolio_heat: heat,
        concentration_score: 0,
        risk_adjusted_return: 0,
        margin_utilization: 0,
        total_unrealized_pnl: 0,
        account_value: 0,
        total_position_value: 0,
        average_leverage: 0,
    }
}

fn position_metrics(coin: &str, score: i128) -> PositionMetrics {
    PositionMetrics {
        position: Position {
            coin: coin.to_string(),
            size: 1,
            entry_price: None,
            leverage: 1,
            liquidation_price: None,
            unrealized_pnl: 0,
            margin_used: 0,
            position_value: 0,
            return_on_equity: 0,
            is_cross: true,
            max_leverage: 1,
        },
        distance_to_liquidation: 0,
        position_size_ratio: 0,
        risk_score: score,
        contribution_to_portfolio: 0,
    }
}

fn entry(timestamp: u64, heat: i128, coins: &[(&str, i128)]) -> LogEntry {
    LogEntry::new(
        timestamp,
        vec![],
        metrics(heat),
        coins.iter().map(|(c, s)| position_metrics(c, *s)).collect(),
        vec![],
    )
}

#[test]
fn metric_names_parse() {
    assert_eq!(PortfolioMetricName::parse("portfolio_heat"), Some(PortfolioMetricName::PortfolioHeat));
    assert_eq!(
        PortfolioMetricName::parse("average_leverage"),
        Some(PortfolioMetricName::AverageLeverage)
    );
    assert_eq!(PortfolioMetricName::parse("heat"), None);
    assert_eq!(PositionMetricName::parse("risk_score"), Some(PositionMetricName::RiskScore));
    assert_eq!(PositionMetricName::parse("portfolio_heat"), None);
    assert!(same_text("abc", "abc"));
    assert!(!same_text("abc", "abd"));
    assert!(!same_text("abc", "ab"));
}

#[test]
fn sorting_by_time_is_stable() {
    let sorted = sort_by_time(vec![(3, 'a'), (1, 'b'), (3, 'c'), (2, 'd'), (1, 'e')]);
    assert_eq!(sorted, vec![(1, 'b'), (1, 'e'), (2, 'd'), (3, 'a'), (3, 'c')]);
    assert_eq!(most_recent(vec![(5, 'x'), (1, 'y'), (9, 'z')], 2), vec![(5, 'x'), (9, 'z')]);
    assert_eq!(most_recent(vec![(5, 'x')], 10), vec![(5, 'x')]);
}

#[test]
fn metric_series_keeps_latest_oldest_first() {
    let entries = vec![entry(30, 3, &[]), entry(10, 1, &[]), entry(40, 4, &[]), entry(20, 2, &[])];
    let s = metric_series(&entries, PortfolioMetricName::PortfolioHeat, 3);
    assert_eq!(s, vec![(20, 2), (30, 3), (40, 4)]);
    let all = metric_series(&entries, PortfolioMetricName::PortfolioHeat, 100);
    assert_eq!(all.len(), 4);
    assert!(metric_series(&entries, PortfolioMetricName::PortfolioHeat, 0).is_empty());
}

#[test]
fn position_series_skips_records_without_the_coin() {
    let entries = vec![
        entry(10, 0, &[("BTC", 5), ("ETH", 7)]),
        entry(20, 0, &[("ETH", 8)]),
        entry(30, 0, &[("BTC", 6), ("BTC", 99)]),
    ];
    let s = position_series(&entries, "BTC", PositionMetricName::RiskScore, 10);
    assert_eq!(s, vec![(10, 5), (30, 6)]);
    let recent = position_series(&entries, "BTC", PositionMetricName::RiskScore, 2);
    assert_eq!(recent, vec![(30, 6)]);
    let size = position_series(&entries, "ETH", PositionMetricName::Size, 10);
    assert_eq!(size, vec![(10, 1), (20, 1)]);
}

#[test]
fn history_limits() {
    assert_eq!(metric_history_limit(None), Ok(100));
    assert_eq!(metric_history_limit(Some("1")), Ok(1));
    assert_eq!(metric_history_limit(Some("1000")), Ok(1000));
    assert_eq!(metric_history_limit(Some("0")), Err(LimitError::OutOfRange));
    assert_eq!(metric_history_limit(Some("1001")), Err(LimitError::OutOfRange));
    assert_eq!(metric_history_limit(Some("abc")), Err(LimitError::NotANumber));
    assert_eq!(metric_history_limit(Some("-5")), Err(LimitError::NotANumber));
    assert_eq!(metric_history_limit(Some("99999999999999999999999")), Err(LimitError::NotANumber));
    assert_eq!(position_history_limit(None), 100);
    assert_eq!(position_history_limit(Some("7")), 7);
    assert_eq!(position_history_limit(Some("0")), 0);
    assert_eq!(position_history_limit(Some("x")), 100);
}

#[test]
fn unsigned_parsing_matches_std() {
    for text in ["0", "+7", "18446744073709551615", "18446744073709551616", "", "+", "1 ", "٣"] {
        assert_eq!(parse_unsigned(text, u64::MAX), text.parse::<u64>().ok(), "{}", text);
    }
    assert_eq!(parse_unsigned("256", 255), None);
    assert_eq!(parse_unsigned("255", 255), Some(255));
}
