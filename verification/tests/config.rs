use trade_processor::config::{parse_decimal, resolve, Config, ConfigError, Settings};

fn nothing_set() -> Settings {
    Settings {
        broker: None,
        store_url: None,
        cache_url: None,
        group_id: None,
        topic: None,
        window_size: None,
        max_batch_size: None,
        batch_timeout: None,
    }
}

#[test]
fn configuration_without_a_store_is_refused() {
    assert_eq!(resolve(nothing_set()), Err(ConfigError::MissingStoreUrl));
    let mut settings = nothing_set();
    settings.broker = Some("kafka:9092".to_string());
    settings.window_size = Some("five".to_string());
    assert_eq!(resolve(settings), Err(ConfigError::MissingStoreUrl));
}

#[test]
fn configuration_takes_defaults_for_what_is_not_set() {
    let mut settings = nothing_set();
    settings.store_url = Some("postgres://store/trades".to_string());
    assert_eq!(
        resolve(settings),
        Ok(Config {
            broker: "localhost:9094".to_string(),
            store_url: "postgres://store/trades".to_string(),
            cache_url: "redis://127.0.0.1:6379".to_string(),
            group_id: "crypto-proccesor-group".to_string(),
            topic: "trades".to_string(),
            window_size: 10,
            max_batch_size: 100,
            batch_timeout: 500,
        })
    );
}

#[test]
fn configuration_takes_what_is_set() {
    let settings = Settings {
        broker: Some("kafka:9092".to_string()),
        store_url: Some("postgres://db".to_string()),
        cache_url: Some("redis://cache".to_string()),
        group_id: Some("group".to_string()),
        topic: Some("ticks".to_string()),
        window_size: Some("20".to_string()),
        max_batch_size: Some("0".to_string()),
        batch_timeout: Some("250".to_string()),
    };
    assert_eq!(
        resolve(settings),
        Ok(Config {
            broker: "kafka:9092".to_string(),
            store_url: "postgres://db".to_string(),
            cache_url: "redis://cache".to_string(),
            group_id: "group".to_string(),
            topic: "ticks".to_string(),
            window_size: 20,
            max_batch_size: 0,
            batch_timeout: 250,
        })
    );
}

#[test]
fn configuration_with_a_number_that_is_none_is_refused() {
    let mut settings = nothing_set();
    settings.store_url = Some("postgres://db".to_string());
    settings.window_size = Some("ten".to_string());
    settings.max_batch_size = Some("-1".to_string());
    settings.batch_timeout = Some("".to_string());
    assert_eq!(resolve(settings.clone()), Err(ConfigError::InvalidWindowSize));
    settings.window_size = Some("7".to_string());
    assert_eq!(resolve(settings.clone()), Err(ConfigError::InvalidMaxBatchSize));
    settings.max_batch_size = None;
    assert_eq!(resolve(settings.clone()), Err(ConfigError::InvalidBatchTimeout));
    settings.batch_timeout = Some("18446744073709551616".to_string());
    assert_eq!(resolve(settings.clone()), Err(ConfigError::InvalidBatchTimeout));
    settings.batch_timeout = Some("18446744073709551615".to_string());
    let config = resolve(settings).unwrap();
    assert_eq!(config.window_size, 7);
    assert_eq!(config.max_batch_size, 100);
    assert_eq!(config.batch_timeout, u64::MAX);
}

#[test]
fn decimal_numbers_are_digits_and_nothing_else() {
    assert_eq!(parse_decimal("0"), Some(0));
    assert_eq!(parse_decimal("7"), Some(7));
    assert_eq!(parse_decimal("500"), Some(500));
    assert_eq!(parse_decimal("000500"), Some(500));
    assert_eq!(parse_decimal("18446744073709551615"), Some(u64::MAX));
    assert_eq!(parse_decimal("18446744073709551616"), None);
    assert_eq!(parse_decimal("99999999999999999999999"), None);
    assert_eq!(parse_decimal("18446744073709551615x"), None);
    assert_eq!(parse_decimal(""), None);
    assert_eq!(parse_decimal("+5"), None);
    assert_eq!(parse_decimal("-5"), None);
    assert_eq!(parse_decimal(" 5"), None);
    assert_eq!(parse_decimal("5 "), None);
    assert_eq!(parse_decimal("5.0"), None);
    assert_eq!(parse_decimal("1e3"), None);
    assert_eq!(parse_decimal("١٢٣"), None);
    assert_eq!(parse_decimal("12é"), None);
    assert_eq!(parse_decimal("/"), None);
    assert_eq!(parse_decimal(":"), None);
    for n in [1u64, 9, 10, 11, 99, 100, 4294967295, 4294967296].iter() {
        assert_eq!(parse_decimal(&n.to_string()), Some(*n));
    }
}
