use risk_management::settings::{check_wallet_address, UserSettings};
use risk_management::system::{needs_full_analysis, sanitize_positions, RiskSummary};
use risk_management::types::{
    check_positions, AccountSummary, Position, RiskError, RiskLimits, MAX_AMOUNT, SCALE,
};

const S: i64 = SCALE;

fn position(value: i64) -> Position {
    Position {
        coin: "BTC".to_string(),
        size: 3 * S,
        entry_price: Some(100 * S),
        leverage: 2 * S,
        liquidation_price: None,
        unrealized_pnl: S,
        margin_used: 50 * S,
        position_value: value,
        return_on_equity: 0,
        is_cross: true,
        max_leverage: 50,
    }
}

#[test]
fn wallet_addresses() {
    assert!(check_wallet_address("0x00000000000000000000000000000000000000aB"));
    assert!(check_wallet_address("00000000000000000000000000000000000000ab"));
    assert!(!check_wallet_address("0x00000000000000000000000000000000000000a"));
    assert!(!check_wallet_address("0x00000000000000000000000000000000000000ag"));
    assert!(!check_wallet_address(""));
    assert!(!check_wallet_address("0X00000000000000000000000000000000000000ab"));
}

#[test]
fn settings_validation() {
    let good = UserSettings {
        wallet_address: "0x1234567890abcdef1234567890ABCDEF12345678".to_string(),
        risk_limits: RiskLimits::default(),
    };
    assert_eq!(good.validate(), Ok(()));
    let mut bad_address = good.clone();
    bad_address.wallet_address = "0x12".to_string();
    assert_eq!(bad_address.validate(), Err(RiskError::InvalidConfiguration));
    let mut bad_limits = good.clone();
    bad_limits.risk_limits.max_margin_utilization = 0;
    assert_eq!(bad_limits.validate(), Err(RiskError::InvalidConfiguration));
}

#[test]
fn large_positions_are_redacted_for_records() {
    let ps = vec![position(2_000_000 * S), position(1_000_000 * S)];
    let out = sanitize_positions(&ps);
    assert_eq!(out.len(), 2);
    assert_eq!(out[0].size, 0);
    assert_eq!(out[0].position_value, 0);
    assert_eq!(out[0].margin_used, 0);
    assert_eq!(out[0].unrealized_pnl, S);
    assert_eq!(out[1].size, 3 * S);
    assert_eq!(out[1].position_value, 1_000_000 * S);
}

#[test]
fn validity_checks() {
    assert!(check_positions(&[position(S), position(-S)]));
    let mut negative_margin = position(S);
    negative_margin.margin_used = -1;
    assert!(!check_positions(&[position(S), negative_margin]));
    let mut huge = position(S);
    huge.position_value = MAX_AMOUNT + 1;
    assert!(!huge.check());
    let too_many: Vec<Position> = (0..1001).map(|_| position(S)).collect();
    assert!(!check_positions(&too_many));
    let acct = AccountSummary {
        account_value: -MAX_AMOUNT - 1,
        margin_used: 0,
        total_position_notional: 0,
        withdrawable: 0,
    };
    assert!(!acct.check());
}

#[test]
fn monitor_escalates_on_heat_or_warnings() {
    let mut s = RiskSummary {
        portfolio_heat: 70 * S as i128,
        highest_risk_position: None,
        warning_count: 0,
        margin_utilization: 0,
        account_value: 0,
    };
    assert!(!needs_full_analysis(&s));
    s.portfolio_heat += 1;
    assert!(needs_full_analysis(&s));
    s.portfolio_heat = 0;
    s.warning_count = 1;
    assert!(needs_full_analysis(&s));
}
