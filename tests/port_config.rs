use risk_management::port_config::{
    check_render_configuration, parse_port, port_binding_advice, port_from_setting,
    DEFAULT_PORT,
};
use risk_management::text::fixed_string;

#[test]
fn test_get_port_default() {
    assert_eq!(port_from_setting(None), 8080);
}

#[test]
fn test_get_port_from_env() {
    assert_eq!(port_from_setting(Some("9000")), 9000);
}

#[test]
fn malformed_port_falls_back_to_default() {
    assert_eq!(port_from_setting(Some("abc")), DEFAULT_PORT);
    assert_eq!(port_from_setting(Some("")), DEFAULT_PORT);
    assert_eq!(port_from_setting(Some("70000")), DEFAULT_PORT);
    assert_eq!(port_from_setting(Some(" 80")), DEFAULT_PORT);
    assert_eq!(port_from_setting(Some("-80")), DEFAULT_PORT);
}

#[test]
fn port_parsing_matches_u16_rules() {
    for text in ["0", "80", "+80", "0080", "65535", "65536", "+", "", "1a", "999999999999"] {
        assert_eq!(parse_port(text), text.parse::<u16>().ok(), "{}", text);
    }
}

#[test]
fn render_configuration_reports_each_problem() {
    let all = check_render_configuration(None, Some("3000".to_string()), true);
    assert_eq!(
        all,
        vec![
            "PORT environment variable is not set. Render sets this automatically, but it's missing in your current environment.".to_string(),
            "HOST environment variable is set. Make sure your application binds to 0.0.0.0, not localhost or 127.0.0.1.".to_string(),
        ]
    );
    let conflict =
        check_render_configuration(Some("10000".to_string()), Some("3000".to_string()), false);
    assert_eq!(
        conflict,
        vec!["DASHBOARD_PORT (3000) differs from PORT (10000). This may cause issues on Render."
            .to_string()]
    );
    let fine =
        check_render_configuration(Some("3000".to_string()), Some("3000".to_string()), false);
    assert!(fine.is_empty());
}

#[test]
fn binding_advice_names_all_interfaces() {
    let advice = port_binding_advice();
    assert!(advice.starts_with("\nIMPORTANT: For Render deployment"));
    assert!(advice.contains("0.0.0.0"));
    assert!(advice.contains("6. Axum:"));
}

#[test]
fn fixed_point_text() {
    assert_eq!(fixed_string(12_345_678), "12.34");
    assert_eq!(fixed_string(-1_500_000), "-1.50");
    assert_eq!(fixed_string(0), "0.00");
    assert_eq!(fixed_string(-5_000), "0.00");
    assert_eq!(fixed_string(100_000_000), "100.00");
    assert_eq!(fixed_string(7_050_000), "7.05");
}
