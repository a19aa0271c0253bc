//! Typed options for building a backend, read from its configuration.

use crate::config::{with_entry, BackendConfig, ConfigValue};
use crate::error::StorageError;
use crate::text::{decimal_u64, lowercased, parse_u64, str_eq, to_lowercase};
use vstd::prelude::*;
use vstd::string::StringExecFns;

verus! {

/// Bytes per part of a multipart transfer, unless the configuration says
/// otherwise: 32 MiB.
pub const DEFAULT_MULTIPART_CHUNKSIZE: usize = 33554432;

/// Requests in flight per transfer, unless the configuration says otherwise.
pub const DEFAULT_MAX_CONCURRENCY: usize = 8;

/// Seconds allowed for connecting.
pub const DEFAULT_CONNECT_TIMEOUT: u64 = 60;

/// Seconds allowed for a request.
pub const DEFAULT_READ_TIMEOUT: u64 = 120;

/// Seconds after which an idle pooled connection is closed.
pub const DEFAULT_POOL_IDLE_TIMEOUT: u64 = 30;

/// Requests that the backend serves at once, unless the configuration says
/// otherwise.
pub const DEFAULT_POOL_CONNECTIONS: usize = 32;

/// The seconds that a configuration value stands for: a number as it is
/// (reinterpreted as unsigned), a text that writes a `u64` in decimal as that
/// number, and anything else as `default`.
pub open spec fn timeout_secs(value: Option<ConfigValue>, default: u64) -> u64 {
    match value {
        Some(ConfigValue::Number(n)) => n as u64,
        Some(ConfigValue::String(s)) => match decimal_u64(s@) {
            Some(v) => v,
            None => default,
        },
        _ => default,
    }
}

/// Reads a timeout, in seconds, from the configuration.
pub fn get_timeout_secs(configs: &BackendConfig, key: &str, default: u64) -> (secs: u64)
    ensures
        secs == timeout_secs(configs.lookup(key@), default),
{
    match configs.get(key) {
        Some(ConfigValue::Number(n)) => #[verifier::truncate] (*n as u64),
        Some(ConfigValue::String(s)) => match parse_u64(s.as_str()) {
            Some(v) => v,
            None => default,
        },
        _ => default,
    }
}

/// The family of backends that a provider name selects.
#[derive(Clone, Copy, Debug, PartialEq, Eq, Structural)]
pub enum ProviderKind {
    /// Amazon S3 and the stores that speak its protocol.
    S3,
    /// Google Cloud Storage.
    Gcs,
}

/// The backend family that a lower-case provider name selects.
pub open spec fn provider_of(name: Seq<char>) -> Option<ProviderKind> {
    if name == "s3"@ || name == "s8k"@ || name == "gcs_s3"@ {
        Some(ProviderKind::S3)
    } else if name == "gcs"@ {
        Some(ProviderKind::Gcs)
    } else {
        None
    }
}

/// The text of the error for a provider name that selects no backend.
pub open spec fn unsupported_provider_text(name: Seq<char>) -> Seq<char> {
    "Unsupported provider type: '"@ + name
        + "'. Supported providers are: s3, s8k, gcs_s3, gcs"@
}

/// Selects the backend family by a provider name in lower case.
pub fn provider_kind(name: &str) -> (kind: Option<ProviderKind>)
    ensures
        kind == provider_of(name@),
{
    if str_eq(name, "s3") || str_eq(name, "s8k") || str_eq(name, "gcs_s3") {
        Some(ProviderKind::S3)
    } else if str_eq(name, "gcs") {
        Some(ProviderKind::Gcs)
    } else {
        None
    }
}

/// Selects the backend family by a provider name in any case. A name that
/// selects none is a configuration error.
pub fn parse_provider(raw: &str) -> (kind: Result<ProviderKind, StorageError>)
    ensures
        match kind {
            Ok(k) => provider_of(lowercased(raw@)) == Some(k),
            Err(e) => {
                &&& provider_of(lowercased(raw@)) is None
                &&& e matches StorageError::ConfigError(m)
                &&& m@ == unsupported_provider_text(lowercased(raw@))
            },
        },
{
    let name = to_lowercase(raw);
    match provider_kind(name.as_str()) {
        Some(k) => Ok(k),
        None => {
            let text = String::from_str("Unsupported provider type: '").concat(
                name.as_str(),
            ).concat("'. Supported providers are: s3, s8k, gcs_s3, gcs");
            Err(StorageError::ConfigError(text))
        },
    }
}

/// The text of the value that is set for `key`, if any.
pub open spec fn text_of(configs: &BackendConfig, key: Seq<char>) -> Option<Seq<char>> {
    match configs.lookup(key) {
        Some(v) => Some(v.text()),
        None => None,
    }
}

/// `key` is set to a value that switches on.
pub open spec fn switched_on(configs: &BackendConfig, key: Seq<char>) -> bool {
    configs.lookup(key) matches Some(v) && v.switches_on()
}

/// The view of an optional text.
pub open spec fn text_view(text: Option<String>) -> Option<Seq<char>> {
    match text {
        Some(t) => Some(t@),
        None => None,
    }
}

/// Reads the value that is set for `key` as text.
pub fn text_option(configs: &BackendConfig, key: &str) -> (text: Option<String>)
    ensures
        text_view(text) == text_of(configs, key@),
{
    match configs.get(key) {
        Some(v) => Some(v.to_string()),
        None => None,
    }
}

/// Reads the value that is set for `key` as a switch, which is off where the
/// key is not set.
pub fn switch_option(configs: &BackendConfig, key: &str) -> (on: bool)
    ensures
        on == switched_on(configs, key@),
{
    match configs.get(key) {
        Some(v) => v.is_switched_on(),
        None => false,
    }
}

/// Options of the HTTP client under a backend.
#[derive(Clone, Copy, Debug, PartialEq, Eq, Structural)]
pub struct ClientOptions {
    pub connect_timeout_secs: u64,
    pub read_timeout_secs: u64,
    pub allow_http: bool,
    pub pool_idle_timeout_secs: u64,
}

/// Options of an S3-compatible backend. The bucket is required; any other
/// field is `None` where the configuration does not set it.
#[derive(Debug)]
pub struct S3Options {
    pub bucket: String,
    pub region: Option<String>,
    pub endpoint: Option<String>,
    pub access_key: Option<String>,
    pub secret_key: Option<String>,
    pub token: Option<String>,
    pub skip_signature: bool,
    pub client: ClientOptions,
}

/// Options of a Google Cloud Storage backend. The bucket has to be given,
/// by its name or by a URL that names it; any field is `None` where the
/// configuration does not set it.
#[derive(Debug)]
pub struct GcsOptions {
    pub bucket: Option<String>,
    pub service_account_key: Option<String>,
    pub service_account_path: Option<String>,
    pub application_credentials: Option<String>,
    pub skip_signature: bool,
    pub proxy_url: Option<String>,
    pub proxy_ca_certificate: Option<String>,
    pub proxy_excludes: Option<String>,
    pub url: Option<String>,
    pub client: ClientOptions,
}

/// Options of a backend of either family.
#[derive(Debug)]
pub enum StoreOptions {
    S3(S3Options),
    Gcs(GcsOptions),
}

/// The client options that a configuration stands for. Plain HTTP is allowed
/// only where `with_allow_http` says that the key `allow_http` is read.
pub open spec fn client_options_of(configs: &BackendConfig, with_allow_http: bool) -> ClientOptions {
    ClientOptions {
        connect_timeout_secs: timeout_secs(
            configs.lookup("connect_timeout"@),
            DEFAULT_CONNECT_TIMEOUT,
        ),
        read_timeout_secs: timeout_secs(configs.lookup("read_timeout"@), DEFAULT_READ_TIMEOUT),
        allow_http: with_allow_http && switched_on(configs, "allow_http"@),
        pool_idle_timeout_secs: DEFAULT_POOL_IDLE_TIMEOUT,
    }
}

/// Reads the client options from a configuration.
pub fn client_options(configs: &BackendConfig, with_allow_http: bool) -> (options: ClientOptions)
    ensures
        options == client_options_of(configs, with_allow_http),
{
    let connect_timeout_secs = get_timeout_secs(configs, "connect_timeout", DEFAULT_CONNECT_TIMEOUT);
    let read_timeout_secs = get_timeout_secs(configs, "read_timeout", DEFAULT_READ_TIMEOUT);
    let allow_http = with_allow_http && switch_option(configs, "allow_http");
    ClientOptions {
        connect_timeout_secs,
        read_timeout_secs,
        allow_http,
        pool_idle_timeout_secs: DEFAULT_POOL_IDLE_TIMEOUT,
    }
}

impl S3Options {
    /// The options are those that `configs` stands for.
    pub open spec fn reads(&self, configs: &BackendConfig) -> bool {
        &&& text_of(configs, "bucket"@) == Some(self.bucket@)
        &&& text_view(self.region) == text_of(configs, "region_name"@)
        &&& text_view(self.endpoint) == text_of(configs, "endpoint_url"@)
        &&& text_view(self.access_key) == text_of(configs, "access_key"@)
        &&& text_view(self.secret_key) == text_of(configs, "secret_key"@)
        &&& text_view(self.token) == text_of(configs, "token"@)
        &&& self.skip_signature == switched_on(configs, "skip_signature"@)
        &&& self.client == client_options_of(configs, true)
    }
}

impl GcsOptions {
    /// The options are those that `configs` stands for.
    pub open spec fn reads(&self, configs: &BackendConfig) -> bool {
        &&& self.bucket is Some || self.url is Some
        &&& text_view(self.bucket) == text_of(configs, "bucket"@)
        &&& text_view(self.service_account_key) == text_of(configs, "service_account_key"@)
        &&& text_view(self.service_account_path) == text_of(configs, "service_account_path"@)
        &&& text_view(self.application_credentials) == text_of(
            configs,
            "application_credentials"@,
        )
        &&& self.skip_signature == switched_on(configs, "skip_signature"@)
        &&& text_view(self.proxy_url) == text_of(configs, "proxy_url"@)
        &&& text_view(self.proxy_ca_certificate) == text_of(configs, "proxy_ca_certificate"@)
        &&& text_view(self.proxy_excludes) == text_of(configs, "proxy_excludes"@)
        &&& text_view(self.url) == text_of(configs, "url"@)
        &&& self.client == client_options_of(configs, false)
    }
}

/// Why the options of an S3-compatible backend cannot be read, if they
/// cannot: there is no configuration, or it names no bucket.
pub open spec fn s3_options_error(configs: Option<&BackendConfig>) -> Option<Seq<char>> {
    match configs {
        None => Some("Configuration dictionary is required for S3 provider."@),
        Some(c) => if text_of(c, "bucket"@) is None {
            Some("Bucket name is required for S3 provider."@)
        } else {
            None
        },
    }
}

/// Why the options of a Google Cloud Storage backend cannot be read, if they
/// cannot: there is no configuration, or it names no bucket, neither under
/// `bucket` nor by a `url`.
pub open spec fn gcs_options_error(configs: Option<&BackendConfig>) -> Option<Seq<char>> {
    match configs {
        None => Some("Configuration dictionary is required for GCS provider."@),
        Some(c) => if text_of(c, "bucket"@) is None && text_of(c, "url"@) is None {
            Some("Bucket name is required for GCS provider."@)
        } else {
            None
        },
    }
}

/// Reads the options of an S3-compatible backend. It fails, with a
/// configuration error, exactly where there is no configuration or the
/// configuration names no bucket.
pub fn build_s3_store(configs: Option<&BackendConfig>) -> (options: Result<S3Options, StorageError>)
    ensures
        match options {
            Ok(o) => {
                &&& s3_options_error(configs) is None
                &&& configs matches Some(c)
                &&& o.reads(c)
            },
            Err(e) => {
                &&& e matches StorageError::ConfigError(m)
                &&& s3_options_error(configs) == Some(m@)
            },
        },
{
    match configs {
        None => Err(
            StorageError::ConfigError(
                String::from_str("Configuration dictionary is required for S3 provider."),
            ),
        ),
        Some(c) => match text_option(c, "bucket") {
            None => Err(
                StorageError::ConfigError(
                    String::from_str("Bucket name is required for S3 provider."),
                ),
            ),
            Some(bucket) => Ok(
                S3Options {
                    bucket,
                    region: text_option(c, "region_name"),
                    endpoint: text_option(c, "endpoint_url"),
                    access_key: text_option(c, "access_key"),
                    secret_key: text_option(c, "secret_key"),
                    token: text_option(c, "token"),
                    skip_signature: switch_option(c, "skip_signature"),
                    client: client_options(c, true),
                },
            ),
        },
    }
}

/// Reads the options of a Google Cloud Storage backend. It fails, with a
/// configuration error, exactly where there is no configuration or the
/// configuration names no bucket, neither under `bucket` nor by a `url`.
pub fn build_gcs_store(configs: Option<&BackendConfig>) -> (options: Result<
    GcsOptions,
    StorageError,
>)
    ensures
        match options {
            Ok(o) => {
                &&& gcs_options_error(configs) is None
                &&& configs matches Some(c)
                &&& o.reads(c)
            },
            Err(e) => {
                &&& e matches StorageError::ConfigError(m)
                &&& gcs_options_error(configs) == Some(m@)
            },
        },
{
    match configs {
        None => Err(
            StorageError::ConfigError(
                String::from_str("Configuration dictionary is required for GCS provider."),
            ),
        ),
        Some(c) => {
            let bucket = text_option(c, "bucket");
            let url = text_option(c, "url");
            if bucket.is_none() && url.is_none() {
                return Err(
                    StorageError::ConfigError(
                        String::from_str("Bucket name is required for GCS provider."),
                    ),
                );
            }
            Ok(
                GcsOptions {
                    bucket,
                    service_account_key: text_option(c, "service_account_key"),
                    service_account_path: text_option(c, "service_account_path"),
                    application_credentials: text_option(c, "application_credentials"),
                    skip_signature: switch_option(c, "skip_signature"),
                    proxy_url: text_option(c, "proxy_url"),
                    proxy_ca_certificate: text_option(c, "proxy_ca_certificate"),
                    proxy_excludes: text_option(c, "proxy_excludes"),
                    url,
                    client: client_options(c, false),
                },
            )
        },
    }
}

/// Why the options of the backend that a lower-case provider name selects
/// cannot be read, if they cannot: the name selects no backend, there is no
/// configuration, or the configuration names no bucket.
pub open spec fn store_options_error(name: Seq<char>, configs: Option<&BackendConfig>) -> Option<
    Seq<char>,
> {
    match provider_of(name) {
        None => Some(unsupported_provider_text(name)),
        Some(ProviderKind::S3) => s3_options_error(configs),
        Some(ProviderKind::Gcs) => gcs_options_error(configs),
    }
}

/// Reads the options of the backend that `provider` names, in any case, from
/// `configs`. It fails, with a configuration error, exactly where the name
/// selects no backend, there is no configuration, or the configuration names
/// no bucket.
pub fn create_store(provider: &str, configs: Option<&BackendConfig>) -> (options: Result<
    StoreOptions,
    StorageError,
>)
    ensures
        match options {
            Ok(StoreOptions::S3(o)) => {
                &&& provider_of(lowercased(provider@)) == Some(ProviderKind::S3)
                &&& store_options_error(lowercased(provider@), configs) is None
                &&& configs matches Some(c)
                &&& o.reads(c)
            },
            Ok(StoreOptions::Gcs(o)) => {
                &&& provider_of(lowercased(provider@)) == Some(ProviderKind::Gcs)
                &&& store_options_error(lowercased(provider@), configs) is None
                &&& configs matches Some(c)
                &&& o.reads(c)
            },
            Err(e) => {
                &&& e matches StorageError::ConfigError(m)
                &&& store_options_error(lowercased(provider@), configs) == Some(m@)
            },
        },
{
    match parse_provider(provider) {
        Err(e) => Err(e),
        Ok(ProviderKind::S3) => match build_s3_store(configs) {
            Ok(o) => Ok(StoreOptions::S3(o)),
            Err(e) => Err(e),
        },
        Ok(ProviderKind::Gcs) => match build_gcs_store(configs) {
            Ok(o) => Ok(StoreOptions::Gcs(o)),
            Err(e) => Err(e),
        },
    }
}

/// One entry of the caller's loosely typed configuration: its key, and what
/// the value gives when it is read as a boolean, as an integer and as text.
#[derive(Debug)]
pub struct RawEntry {
    pub key: String,
    pub as_bool: Option<bool>,
    pub as_int: Option<i64>,
    pub as_text: Option<String>,
}

/// The settings of a client that are not handed to the backend.
#[derive(Clone, Copy, Debug, PartialEq, Eq, Structural)]
pub struct ClientSettings {
    /// Requests in flight per transfer.
    pub max_concurrency: usize,
    /// Requests that the backend serves at once.
    pub max_pool_connections: usize,
    /// Bytes per part of a multipart transfer.
    pub multipart_chunksize: usize,
}

/// The key names a client setting, not a backend option.
pub open spec fn is_setting_key(key: Seq<char>) -> bool {
    key == "max_concurrency"@ || key == "max_pool_connections"@ || key == "multipart_chunksize"@
}

/// The configuration value of an entry: a boolean if it reads as one, else an
/// integer if it reads as one, else text if it reads as text.
pub open spec fn value_of(entry: RawEntry) -> Option<ConfigValue> {
    if entry.as_bool is Some {
        Some(ConfigValue::Boolean(entry.as_bool->0))
    } else if entry.as_int is Some {
        Some(ConfigValue::Number(entry.as_int->0))
    } else if entry.as_text is Some {
        Some(ConfigValue::String(entry.as_text->0))
    } else {
        None
    }
}

/// The settings after one entry: a setting key with an integer value sets
/// its setting (the integer reinterpreted as unsigned), every other entry
/// leaves the settings as they are.
pub open spec fn settings_with(settings: ClientSettings, entry: RawEntry) -> ClientSettings {
    if entry.as_int is None {
        settings
    } else if entry.key@ == "max_concurrency"@ {
        ClientSettings { max_concurrency: entry.as_int->0 as usize, ..settings }
    } else if entry.key@ == "max_pool_connections"@ {
        ClientSettings { max_pool_connections: entry.as_int->0 as usize, ..settings }
    } else if entry.key@ == "multipart_chunksize"@ {
        ClientSettings { multipart_chunksize: entry.as_int->0 as usize, ..settings }
    } else {
        settings
    }
}

/// The backend configuration after one entry: an entry whose key names no
/// setting and whose value can be read is set, every other entry is dropped.
pub open spec fn config_with(entries: Seq<(String, ConfigValue)>, entry: RawEntry) -> Seq<
    (String, ConfigValue),
> {
    if !is_setting_key(entry.key@) && value_of(entry) is Some {
        with_entry(entries, entry.key, value_of(entry)->0)
    } else {
        entries
    }
}

/// The settings that a list of entries gives, later entries overriding
/// earlier ones.
pub open spec fn settings_of(entries: Seq<RawEntry>) -> ClientSettings
    decreases entries.len(),
{
    if entries.len() == 0 {
        ClientSettings {
            max_concurrency: DEFAULT_MAX_CONCURRENCY,
            max_pool_connections: DEFAULT_POOL_CONNECTIONS,
            multipart_chunksize: DEFAULT_MULTIPART_CHUNKSIZE,
        }
    } else {
        settings_with(settings_of(entries.drop_last()), entries.last())
    }
}

/// The backend configuration that a list of entries gives, later entries
/// overriding earlier ones.
pub open spec fn config_of(entries: Seq<RawEntry>) -> Seq<(String, ConfigValue)>
    decreases entries.len(),
{
    if entries.len() == 0 {
        Seq::empty()
    } else {
        config_with(config_of(entries.drop_last()), entries.last())
    }
}

/// Sorts the caller's configuration into client settings and backend
/// configuration.
pub fn read_settings(entries: Vec<RawEntry>) -> (read: (ClientSettings, BackendConfig))
    ensures
        read.0 == settings_of(entries@),
        read.1.wf(),
        read.1.entries() == config_of(entries@),
{
    let mut settings = ClientSettings {
        max_concurrency: DEFAULT_MAX_CONCURRENCY,
        max_pool_connections: DEFAULT_POOL_CONNECTIONS,
        multipart_chunksize: DEFAULT_MULTIPART_CHUNKSIZE,
    };
    let mut config = BackendConfig::new();
    let ghost src = entries@;
    proof {
        assert(src.take(0) =~= Seq::<RawEntry>::empty());
    }
    for entry in it: entries.into_iter()
        invariant
            it.seq() == src,
            settings == settings_of(src.take(it.index() as int)),
            config.wf(),
            config.entries() == config_of(src.take(it.index() as int)),
    {
        proof {
            let i = it.index() as int;
            assert(src.take(i + 1).drop_last() =~= src.take(i));
            assert(src.take(i + 1).last() == entry);
        }
        let RawEntry { key, as_bool, as_int, as_text } = entry;
        if str_eq(key.as_str(), "max_concurrency") {
            match as_int {
                Some(v) => {
                    settings.max_concurrency = #[verifier::truncate] (v as usize);
                },
                None => {},
            }
        } else if str_eq(key.as_str(), "max_pool_connections") {
            match as_int {
                Some(v) => {
                    settings.max_pool_connections = #[verifier::truncate] (v as usize);
                },
                None => {},
            }
        } else if str_eq(key.as_str(), "multipart_chunksize") {
            match as_int {
                Some(v) => {
                    settings.multipart_chunksize = #[verifier::truncate] (v as usize);
                },
                None => {},
            }
        } else {
            match (as_bool, as_int, as_text) {
                (Some(b), _, _) => {
                    config.insert(key, ConfigValue::Boolean(b));
                },
                (None, Some(n), _) => {
                    config.insert(key, ConfigValue::Number(n));
                },
                (None, None, Some(t)) => {
                    config.insert(key, ConfigValue::String(t));
                },
                (None, None, None) => {},
            }
        }
    }
    proof {
        assert(src.take(src.len() as int) =~= src);
    }
    (settings, config)
}

/// The value for one call: the caller's, where one is given, else the
/// client's setting.
pub fn effective(given: Option<usize>, setting: usize) -> (value: usize)
    ensures
        value == match given {
            Some(v) => v,
            None => setting,
        },
{
    match given {
        Some(v) => v,
        None => setting,
    }
}

} // verus!
