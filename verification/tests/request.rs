use ax_exchange_sdk::auth_gateway_client::AuthGatewayConfig;
use ax_exchange_sdk::request::{
    filtered_history_params, history_query_params, live_token, order_filter_params, with_query,
};
use std::time::Duration;

#[test]
fn history_query_orders_parameters() {
    let filters = vec![("symbol".to_string(), "BTC-PERP".to_string())];
    let params = history_query_params(
        Some(10),
        Some(20),
        Some("2024-01-01T00:00:00+00:00"),
        None,
        &filters,
    );
    assert_eq!(
        with_query("fills?username=alice", "&", &params),
        "fills?username=alice&limit=10&offset=20&start_time=2024-01-01T00:00:00+00:00&symbol=BTC-PERP"
    );
}

#[test]
fn query_without_parameters_is_the_path() {
    let params = history_query_params(None, None, None, None, &vec![]);
    assert!(params.is_empty());
    assert_eq!(
        with_query("orders/api/v1/orders/history", "?", &params),
        "orders/api/v1/orders/history"
    );
}

#[test]
fn order_filters_come_first() {
    let params = filtered_history_params(
        Some("BTC-PERP"),
        None,
        Some("FILLED"),
        Some("LIMIT"),
        Some(5),
        None,
        None,
        Some("2024-02-01T00:00:00+00:00"),
    );
    assert_eq!(
        with_query("orders/api/v1/orders/history", "?", &params),
        "orders/api/v1/orders/history?symbol=BTC-PERP&status=FILLED&order_type=LIMIT&limit=5&end_time=2024-02-01T00:00:00+00:00"
    );
}

#[test]
fn live_token_checks_expiry() {
    assert_eq!(live_token(Some(("tok", (100, 0))), (99, 999)), Some("tok".to_string()));
    assert_eq!(live_token(Some(("tok", (100, 5))), (100, 4)), Some("tok".to_string()));
    assert_eq!(live_token(Some(("tok", (100, 5))), (100, 5)), None);
    assert_eq!(live_token(Some(("tok", (100, 0))), (101, 0)), None);
    assert_eq!(live_token(None, (0, 0)), None);
}

#[test]
fn auth_gateway_config_checks() {
    let config = AuthGatewayConfig::from_env_values(Some("http://auth".to_string()), None).unwrap();
    assert_eq!(config.timeout_seconds, 10);
    assert_eq!(config.max_retries, 3);
    assert_eq!(config.pool_max_idle_per_host, 10);
    assert_eq!(config.timeout(), Duration::from_secs(10));
    assert!(config.validate().is_ok());
    let empty = AuthGatewayConfig {
        base_url: String::new(),
        ..config
    };
    assert_eq!(empty.validate().unwrap_err(), "base_url cannot be empty");
    assert_eq!(
        AuthGatewayConfig::from_env_values(None, None).unwrap_err(),
        "AUTH_GATEWAY_URL environment variable not set"
    );
}

#[test]
fn order_filters_alone() {
    let params = order_filter_params(None, Some("BUY"), None, None);
    assert_eq!(params, vec![("side".to_string(), "BUY".to_string())]);
}
