use ctrader_bot::config::{parse_symbol_list, Config, ConfigError, EnvVars};

fn env() -> EnvVars {
    EnvVars {
        client_id: Some("id".to_string()),
        client_secret: Some("secret".to_string()),
        access_token: Some("token".to_string()),
        refresh_token: None,
        account_id: Some("1234".to_string()),
        host: None,
        port: None,
        api_addr: None,
        subscribe_symbols: None,
    }
}

#[test]
fn parses_comma_separated_list() {
    assert_eq!(
        parse_symbol_list("EURUSD,ETHEREUM,GBPJPY"),
        vec!["EURUSD", "ETHEREUM", "GBPJPY"]
    );
}

#[test]
fn trims_whitespace_and_uppercases() {
    assert_eq!(
        parse_symbol_list(" eurusd ,  ETHEREUM , gbpjpy"),
        vec!["EURUSD", "ETHEREUM", "GBPJPY"]
    );
}

#[test]
fn drops_empty_fragments() {
    assert_eq!(
        parse_symbol_list(",EURUSD,,ETHEREUM,"),
        vec!["EURUSD", "ETHEREUM"]
    );
}

#[test]
fn dedupes_preserving_first_occurrence() {
    assert_eq!(
        parse_symbol_list("EURUSD,ethereum,EURUSD"),
        vec!["EURUSD", "ETHEREUM"]
    );
}

#[test]
fn empty_input_returns_empty() {
    assert!(parse_symbol_list("").is_empty());
    assert!(parse_symbol_list("   ").is_empty());
}

#[test]
fn list_reads_back() {
    let names = parse_symbol_list("b, a ,B,\tc\u{a0},,\u{fc}x");
    assert_eq!(names, vec!["B", "A", "C", "\u{fc}X"]);
    assert_eq!(parse_symbol_list(&names.join(",")), names);
}

#[test]
fn defaults_fill_in() {
    let c = Config::from_env(env(), true).unwrap();
    assert_eq!(c.client_id, "id");
    assert_eq!(c.client_secret, "secret");
    assert_eq!(c.access_token, "token");
    assert_eq!(c.refresh_token, None);
    assert_eq!(c.account_id, 1234);
    assert_eq!(c.host, "demo.ctraderapi.com");
    assert_eq!(c.port, 5035);
    assert_eq!(c.api_addr, "127.0.0.1:3000");
    assert!(c.subscribe_symbols.is_empty());
}

#[test]
fn given_values_are_taken() {
    let mut e = env();
    e.refresh_token = Some("rt".to_string());
    e.host = Some("live.ctraderapi.com".to_string());
    e.port = Some("+65535".to_string());
    e.api_addr = Some("0.0.0.0:80".to_string());
    e.account_id = Some("-5".to_string());
    e.subscribe_symbols = Some("eurusd, gbpusd".to_string());
    let c = Config::from_env(e, true).unwrap();
    assert_eq!(c.refresh_token, Some("rt".to_string()));
    assert_eq!(c.host, "live.ctraderapi.com");
    assert_eq!(c.port, 65535);
    assert_eq!(c.api_addr, "0.0.0.0:80");
    assert_eq!(c.account_id, -5);
    assert_eq!(c.subscribe_symbols, vec!["EURUSD", "GBPUSD"]);
}

#[test]
fn placeholder_refresh_token_is_none() {
    let mut e = env();
    e.refresh_token = Some("your_refresh_token_here".to_string());
    assert_eq!(Config::from_env(e, true).unwrap().refresh_token, None);
    let mut e = env();
    e.refresh_token = Some(String::new());
    assert_eq!(Config::from_env(e, true).unwrap().refresh_token, None);
}

#[test]
fn missing_values_are_named_in_order() {
    let mut e = env();
    e.port = Some("x".to_string());
    assert_eq!(Config::from_env(e, true).unwrap_err(), ConfigError::InvalidPort);
    let mut e = env();
    e.port = Some("65536".to_string());
    e.account_id = Some("12a".to_string());
    assert_eq!(Config::from_env(e, true).unwrap_err(), ConfigError::InvalidAccountId);
    let mut e = env();
    e.account_id = None;
    assert_eq!(Config::from_env(e, true).unwrap_err(), ConfigError::MissingAccountId);
    let mut e = env();
    e.account_id = None;
    e.access_token = None;
    assert_eq!(Config::from_env(e, true).unwrap_err(), ConfigError::MissingAccessToken);
    let mut e = env();
    e.access_token = None;
    e.client_secret = None;
    assert_eq!(Config::from_env(e, true).unwrap_err(), ConfigError::MissingClientSecret);
    let mut e = env();
    e.client_id = None;
    e.client_secret = None;
    assert_eq!(Config::from_env(e, true).unwrap_err(), ConfigError::MissingClientId);
}

#[test]
fn api_addr_has_to_be_one() {
    assert_eq!(env().api_addr_text(), "127.0.0.1:3000");
    let mut e = env();
    e.api_addr = Some("localhost".to_string());
    assert_eq!(e.api_addr_text(), "localhost");
    assert_eq!(Config::from_env(e, false).unwrap_err(), ConfigError::InvalidApiAddr);
    let mut e = env();
    e.api_addr = Some("[::1]:8080".to_string());
    assert_eq!(Config::from_env(e, true).unwrap().api_addr, "[::1]:8080");
    let mut e = env();
    e.port = Some("x".to_string());
    assert_eq!(Config::from_env(e, false).unwrap_err(), ConfigError::InvalidPort);
}
