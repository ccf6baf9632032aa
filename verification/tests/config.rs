use flowsurface::config::Config;

#[test]
fn default_config_points_at_the_local_feed() {
    let config = Config::new();
    assert_eq!(config.server_address, "ws://localhost:8080");
    assert_eq!(config.symbols, vec!["AAPL".to_string(), "GOOGL".to_string()]);
}
