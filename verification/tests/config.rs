use multistorageclient::config::{BackendConfig, ConfigValue};
use multistorageclient::error::{ExceptionKind, StorageError};
use multistorageclient::options::{
    build_gcs_store, build_s3_store, client_options, create_store, effective, get_timeout_secs,
    parse_provider, provider_kind, read_settings, switch_option, text_option, ClientOptions,
    ClientSettings, ProviderKind, RawEntry, StoreOptions, DEFAULT_CONNECT_TIMEOUT,
    DEFAULT_MAX_CONCURRENCY, DEFAULT_MULTIPART_CHUNKSIZE, DEFAULT_POOL_CONNECTIONS,
    DEFAULT_POOL_IDLE_TIMEOUT, DEFAULT_READ_TIMEOUT,
};

fn text(config: &BackendConfig, key: &str) -> Option<String> {
    config.get(key).map(|v| v.to_string())
}

fn raw(key: &str, as_bool: Option<bool>, as_int: Option<i64>, as_text: Option<&str>) -> RawEntry {
    RawEntry { key: key.to_string(), as_bool, as_int, as_text: as_text.map(|s| s.to_string()) }
}

#[test]
fn test_get_timeout_secs() {
    let mut configs = BackendConfig::new();

    // Test with Number values
    configs.insert("read_timeout".to_string(), ConfigValue::Number(600));
    configs.insert("connect_timeout".to_string(), ConfigValue::Number(120));
    assert_eq!(get_timeout_secs(&configs, "read_timeout", DEFAULT_READ_TIMEOUT), 600);
    assert_eq!(get_timeout_secs(&configs, "connect_timeout", DEFAULT_CONNECT_TIMEOUT), 120);

    // Test with String values
    configs.insert("read_timeout".to_string(), ConfigValue::String("300".to_string()));
    configs.insert("connect_timeout".to_string(), ConfigValue::String("90".to_string()));
    assert_eq!(get_timeout_secs(&configs, "read_timeout", DEFAULT_READ_TIMEOUT), 300);
    assert_eq!(get_timeout_secs(&configs, "connect_timeout", DEFAULT_CONNECT_TIMEOUT), 90);

    // Test with invalid String values (should use defaults)
    configs.insert("read_timeout".to_string(), ConfigValue::String("invalid".to_string()));
    configs.insert("connect_timeout".to_string(), ConfigValue::String("bad".to_string()));
    assert_eq!(get_timeout_secs(&configs, "read_timeout", DEFAULT_READ_TIMEOUT), DEFAULT_READ_TIMEOUT);
    assert_eq!(get_timeout_secs(&configs, "connect_timeout", DEFAULT_CONNECT_TIMEOUT), DEFAULT_CONNECT_TIMEOUT);

    // Test without values (should use defaults)
    configs.clear();
    assert_eq!(get_timeout_secs(&configs, "read_timeout", DEFAULT_READ_TIMEOUT), DEFAULT_READ_TIMEOUT);
    assert_eq!(get_timeout_secs(&configs, "connect_timeout", DEFAULT_CONNECT_TIMEOUT), DEFAULT_CONNECT_TIMEOUT);
}

#[test]
fn timeouts_read_decimal_text_only() {
    let mut configs = BackendConfig::new();
    for (value, expected) in [
        ("+45", 45u64),
        ("007", 7),
        ("18446744073709551615", u64::MAX),
        ("18446744073709551616", 9),
        ("", 9),
        ("+", 9),
        ("-1", 9),
        (" 5", 9),
        ("5 ", 9),
        ("1_000", 9),
        ("0x10", 9),
    ] {
        configs.insert("t".to_string(), ConfigValue::String(value.to_string()));
        assert_eq!(get_timeout_secs(&configs, "t", 9), expected, "value {:?}", value);
    }
    configs.insert("t".to_string(), ConfigValue::Boolean(true));
    assert_eq!(get_timeout_secs(&configs, "t", 9), 9);
    configs.insert("t".to_string(), ConfigValue::Number(-1));
    assert_eq!(get_timeout_secs(&configs, "t", 9), u64::MAX);
    configs.insert("t".to_string(), ConfigValue::Number(0));
    assert_eq!(get_timeout_secs(&configs, "t", 9), 0);
}

#[test]
fn values_render_as_text() {
    assert_eq!(ConfigValue::String("abc".to_string()).to_string(), "abc");
    assert_eq!(ConfigValue::Number(0).to_string(), "0");
    assert_eq!(ConfigValue::Number(1203).to_string(), "1203");
    assert_eq!(ConfigValue::Number(-45).to_string(), "-45");
    assert_eq!(ConfigValue::Number(i64::MIN).to_string(), "-9223372036854775808");
    assert_eq!(ConfigValue::Boolean(true).to_string(), "true");
    assert_eq!(ConfigValue::Boolean(false).to_string(), "false");
}

#[test]
fn switches() {
    assert!(ConfigValue::Boolean(true).is_switched_on());
    assert!(!ConfigValue::Boolean(false).is_switched_on());
    assert!(ConfigValue::String("true".to_string()).is_switched_on());
    assert!(!ConfigValue::String("True".to_string()).is_switched_on());
    assert!(!ConfigValue::String("false".to_string()).is_switched_on());
    assert!(!ConfigValue::String("1".to_string()).is_switched_on());
    assert!(!ConfigValue::Number(1).is_switched_on());
}

#[test]
fn a_configuration_keeps_one_entry_per_key_in_order() {
    let mut config = BackendConfig::new();
    assert_eq!(config.len(), 0);
    assert!(config.get("bucket").is_none());
    assert!(config.insert("bucket".to_string(), ConfigValue::String("b1".to_string())).is_none());
    assert!(config.insert("region_name".to_string(), ConfigValue::String("r".to_string())).is_none());
    match config.insert("bucket".to_string(), ConfigValue::Number(2)) {
        Some(ConfigValue::String(s)) => assert_eq!(s, "b1"),
        _ => panic!("expected the former value"),
    }
    assert_eq!(config.len(), 2);
    assert_eq!(text(&config, "bucket"), Some("2".to_string()));
    assert_eq!(text(&config, "region_name"), Some("r".to_string()));
    assert_eq!(text(&config, "Bucket"), None);
    let copy = config.duplicate();
    config.clear();
    assert_eq!(config.len(), 0);
    assert_eq!(copy.len(), 2);
    assert_eq!(text(&copy, "bucket"), Some("2".to_string()));
}

#[test]
fn provider_names() {
    assert_eq!(provider_kind("s3"), Some(ProviderKind::S3));
    assert_eq!(provider_kind("s8k"), Some(ProviderKind::S3));
    assert_eq!(provider_kind("gcs_s3"), Some(ProviderKind::S3));
    assert_eq!(provider_kind("gcs"), Some(ProviderKind::Gcs));
    assert_eq!(provider_kind("S3"), None);
    assert_eq!(provider_kind("azure"), None);
    assert_eq!(provider_kind(""), None);
    assert!(matches!(parse_provider("S3"), Ok(ProviderKind::S3)));
    assert!(matches!(parse_provider("GcS"), Ok(ProviderKind::Gcs)));
    match parse_provider("Azure") {
        Err(StorageError::ConfigError(m)) => assert_eq!(
            m,
            "Unsupported provider type: 'azure'. Supported providers are: s3, s8k, gcs_s3, gcs"
        ),
        _ => panic!("expected a configuration error"),
    }
}

#[test]
fn s3_options_are_read_from_the_configuration() {
    let mut config = BackendConfig::new();
    config.insert("bucket".to_string(), ConfigValue::String("my-bucket".to_string()));
    config.insert("region_name".to_string(), ConfigValue::String("us-east-1".to_string()));
    config.insert("endpoint_url".to_string(), ConfigValue::String("http://localhost:9000".to_string()));
    config.insert("access_key".to_string(), ConfigValue::String("AK".to_string()));
    config.insert("secret_key".to_string(), ConfigValue::Number(42));
    config.insert("skip_signature".to_string(), ConfigValue::String("true".to_string()));
    config.insert("allow_http".to_string(), ConfigValue::Boolean(true));
    config.insert("connect_timeout".to_string(), ConfigValue::Number(5));
    let options = match build_s3_store(Some(&config)) {
        Ok(o) => o,
        Err(_) => panic!("expected options"),
    };
    assert_eq!(options.bucket, "my-bucket");
    assert_eq!(options.region, Some("us-east-1".to_string()));
    assert_eq!(options.endpoint, Some("http://localhost:9000".to_string()));
    assert_eq!(options.access_key, Some("AK".to_string()));
    assert_eq!(options.secret_key, Some("42".to_string()));
    assert_eq!(options.token, None);
    assert!(options.skip_signature);
    assert_eq!(
        options.client,
        ClientOptions {
            connect_timeout_secs: 5,
            read_timeout_secs: DEFAULT_READ_TIMEOUT,
            allow_http: true,
            pool_idle_timeout_secs: DEFAULT_POOL_IDLE_TIMEOUT,
        }
    );
}

#[test]
fn gcs_options_are_read_from_the_configuration() {
    let mut config = BackendConfig::new();
    config.insert("bucket".to_string(), ConfigValue::String("gb".to_string()));
    config.insert("service_account_path".to_string(), ConfigValue::String("/sa.json".to_string()));
    config.insert("proxy_url".to_string(), ConfigValue::String("http://proxy".to_string()));
    config.insert("allow_http".to_string(), ConfigValue::Boolean(true));
    config.insert("read_timeout".to_string(), ConfigValue::String("33".to_string()));
    let options = match build_gcs_store(Some(&config)) {
        Ok(o) => o,
        Err(_) => panic!("expected options"),
    };
    assert_eq!(options.bucket, Some("gb".to_string()));
    assert_eq!(options.service_account_key, None);
    assert_eq!(options.service_account_path, Some("/sa.json".to_string()));
    assert_eq!(options.application_credentials, None);
    assert!(!options.skip_signature);
    assert_eq!(options.proxy_url, Some("http://proxy".to_string()));
    assert_eq!(options.proxy_ca_certificate, None);
    assert_eq!(options.proxy_excludes, None);
    assert_eq!(options.url, None);
    // Plain HTTP is an option of S3-compatible backends only.
    assert_eq!(
        options.client,
        ClientOptions {
            connect_timeout_secs: DEFAULT_CONNECT_TIMEOUT,
            read_timeout_secs: 33,
            allow_http: false,
            pool_idle_timeout_secs: 30,
        }
    );
    assert_eq!(client_options(&config, true).allow_http, true);
    assert_eq!(text_option(&config, "bucket"), Some("gb".to_string()));
    assert_eq!(text_option(&config, "nothing"), None);
    assert!(switch_option(&config, "allow_http"));
    assert!(!switch_option(&config, "bucket"));
    assert!(!switch_option(&config, "nothing"));
}

#[test]
fn options_need_a_configuration_and_a_known_provider() {
    match build_s3_store(None) {
        Err(StorageError::ConfigError(m)) => {
            assert_eq!(m, "Configuration dictionary is required for S3 provider.")
        }
        _ => panic!("expected a configuration error"),
    }
    match build_gcs_store(None) {
        Err(StorageError::ConfigError(m)) => {
            assert_eq!(m, "Configuration dictionary is required for GCS provider.")
        }
        _ => panic!("expected a configuration error"),
    }
    let mut config = BackendConfig::new();
    config.insert("bucket".to_string(), ConfigValue::String("b".to_string()));
    assert!(matches!(create_store("S8K", Some(&config)), Ok(StoreOptions::S3(_))));
    assert!(matches!(create_store("gcs", Some(&config)), Ok(StoreOptions::Gcs(_))));
    assert!(matches!(create_store("gcs", None), Err(StorageError::ConfigError(_))));
    match create_store("ftp", Some(&config)) {
        Err(StorageError::ConfigError(m)) => assert!(m.starts_with("Unsupported provider type: 'ftp'")),
        _ => panic!("expected a configuration error"),
    }
}

#[test]
fn options_without_a_bucket_fail_at_once() {
    let mut config = BackendConfig::new();
    config.insert("region_name".to_string(), ConfigValue::String("us-east-1".to_string()));
    match build_s3_store(Some(&config)) {
        Err(StorageError::ConfigError(m)) => assert_eq!(m, "Bucket name is required for S3 provider."),
        _ => panic!("expected a configuration error"),
    }
    match build_gcs_store(Some(&config)) {
        Err(StorageError::ConfigError(m)) => {
            assert_eq!(m, "Bucket name is required for GCS provider.")
        }
        _ => panic!("expected a configuration error"),
    }
    match create_store("s3", Some(&config)) {
        Err(e) => {
            let (kind, message) = e.into_exception();
            assert_eq!(kind, ExceptionKind::Value);
            assert_eq!(message, "Bucket name is required for S3 provider.");
        }
        Ok(_) => panic!("expected a configuration error"),
    }
    assert!(matches!(create_store("gcs", Some(&config)), Err(StorageError::ConfigError(_))));
    // A URL names the bucket of a Google Cloud Storage backend as well.
    config.insert("url".to_string(), ConfigValue::String("gs://b/path".to_string()));
    match build_gcs_store(Some(&config)) {
        Ok(o) => {
            assert_eq!(o.bucket, None);
            assert_eq!(o.url, Some("gs://b/path".to_string()));
        }
        Err(_) => panic!("expected options"),
    }
    assert!(matches!(build_s3_store(Some(&config)), Err(StorageError::ConfigError(_))));
    // Any value under the key counts, rendered as text.
    config.insert("bucket".to_string(), ConfigValue::Number(7));
    match build_s3_store(Some(&config)) {
        Ok(o) => assert_eq!(o.bucket, "7"),
        Err(_) => panic!("expected options"),
    }
}

#[test]
fn settings_are_split_from_the_backend_configuration() {
    let entries = vec![
        raw("bucket", None, None, Some("b")),
        raw("max_concurrency", None, Some(16), None),
        raw("allow_http", Some(true), Some(1), None),
        raw("retries", None, Some(3), None),
        raw("multipart_chunksize", None, None, Some("big")),
        raw("max_pool_connections", None, Some(64), None),
        raw("unreadable", None, None, None),
        raw("bucket", None, None, Some("b2")),
        raw("max_concurrency", None, Some(4), None),
    ];
    let (settings, config) = read_settings(entries);
    assert_eq!(
        settings,
        ClientSettings {
            max_concurrency: 4,
            max_pool_connections: 64,
            multipart_chunksize: DEFAULT_MULTIPART_CHUNKSIZE,
        }
    );
    assert_eq!(config.len(), 3);
    assert_eq!(text(&config, "bucket"), Some("b2".to_string()));
    assert!(matches!(config.get("allow_http"), Some(ConfigValue::Boolean(true))));
    assert!(matches!(config.get("retries"), Some(ConfigValue::Number(3))));
    assert!(config.get("max_concurrency").is_none());
    assert!(config.get("multipart_chunksize").is_none());
    assert!(config.get("unreadable").is_none());
}

#[test]
fn settings_default_without_entries() {
    let (settings, config) = read_settings(Vec::new());
    assert_eq!(settings.max_concurrency, DEFAULT_MAX_CONCURRENCY);
    assert_eq!(settings.max_pool_connections, DEFAULT_POOL_CONNECTIONS);
    assert_eq!(settings.multipart_chunksize, 32 * 1024 * 1024);
    assert_eq!(DEFAULT_MAX_CONCURRENCY, 8);
    assert_eq!(DEFAULT_POOL_CONNECTIONS, 32);
    assert_eq!(DEFAULT_CONNECT_TIMEOUT, 60);
    assert_eq!(DEFAULT_READ_TIMEOUT, 120);
    assert_eq!(config.len(), 0);
    assert_eq!(effective(None, 8), 8);
    assert_eq!(effective(Some(2), 8), 2);
}

#[test]
fn a_negative_setting_is_reinterpreted_as_unsigned() {
    let (settings, _) = read_settings(vec![raw("max_concurrency", None, Some(-1), None)]);
    assert_eq!(settings.max_concurrency, usize::MAX);
}
