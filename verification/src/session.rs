//! The live connection to a backend: the handle, the configuration that it
//! was built from, and the instant at which its credentials expire. The three
//! are replaced together, never one by one.

use crate::config::{position_of, BackendConfig, ConfigValue};
use crate::credentials::DEFAULT_REFRESH_CREDENTIALS_THRESHOLD;
use crate::error::{ExceptionKind, StorageError};
use crate::time::{instant_of, parse_instant, Timestamp};
use vstd::prelude::*;
use vstd::string::StringExecFns;

verus! {

/// The fields of a credential as they could be read from the provider; a
/// field is `None` where the provider gave none or gave something that is not
/// text.
#[derive(Debug)]
pub struct ExtractedCredentials {
    pub access_key: Option<String>,
    pub secret_key: Option<String>,
    pub token: Option<String>,
    pub expiration: Option<String>,
}

/// The value of `key` after an optional text was laid over it: the text
/// where there is one, else what was set before.
pub open spec fn overlaid(former: Option<ConfigValue>, text: Option<String>) -> Option<ConfigValue> {
    match text {
        Some(t) => Some(ConfigValue::String(t)),
        None => former,
    }
}

/// Lays one optional field over the configuration.
fn overlay_field(configs_map: &mut BackendConfig, key: &str, text: Option<String>)
    requires
        old(configs_map).wf(),
    ensures
        final(configs_map).wf(),
        final(configs_map).lookup(key@) == overlaid(old(configs_map).lookup(key@), text),
        forall|other: Seq<char>|
            other != key@ ==> final(configs_map).lookup(other) == old(configs_map).lookup(other),
{
    match text {
        Some(t) => {
            configs_map.insert(String::from_str(key), ConfigValue::String(t));
        },
        None => {},
    }
}

/// The expiry that an optional expiration text stands for: the instant that
/// it denotes, and none where there is no text or it cannot be read.
pub open spec fn expiry_from(expiration: Option<String>) -> Option<Timestamp> {
    match expiration {
        Some(t) => instant_of(t@),
        None => None,
    }
}

/// Lays the credential's fields over the configuration, under the keys
/// `access_key`, `secret_key`, `token` and `expiration`, and reads the expiry.
/// A field that is absent leaves its key as it is, and no other key is
/// touched.
pub fn extract_credentials_from_provider(
    credentials: ExtractedCredentials,
    configs_map: &mut BackendConfig,
) -> (expire_time: Option<Timestamp>)
    requires
        old(configs_map).wf(),
    ensures
        final(configs_map).wf(),
        final(configs_map).lookup("access_key"@) == overlaid(
            old(configs_map).lookup("access_key"@),
            credentials.access_key,
        ),
        final(configs_map).lookup("secret_key"@) == overlaid(
            old(configs_map).lookup("secret_key"@),
            credentials.secret_key,
        ),
        final(configs_map).lookup("token"@) == overlaid(
            old(configs_map).lookup("token"@),
            credentials.token,
        ),
        final(configs_map).lookup("expiration"@) == overlaid(
            old(configs_map).lookup("expiration"@),
            credentials.expiration,
        ),
        forall|other: Seq<char>|
            other != "access_key"@ && other != "secret_key"@ && other != "token"@ && other
                != "expiration"@ ==> final(configs_map).lookup(other) == old(configs_map).lookup(
                other,
            ),
        expire_time == expiry_from(credentials.expiration),
{
    proof {
        reveal_strlit("access_key");
        reveal_strlit("secret_key");
        reveal_strlit("token");
        reveal_strlit("expiration");
        assert("access_key"@[0] == 'a' && "secret_key"@[0] == 's' && "expiration"@[0] == 'e'
            && "token"@.len() == 5 && "access_key"@.len() == 10);
    }
    let expire_time = match &credentials.expiration {
        Some(t) => parse_instant(t.as_str()),
        None => None,
    };
    overlay_field(configs_map, "access_key", credentials.access_key);
    overlay_field(configs_map, "secret_key", credentials.secret_key);
    overlay_field(configs_map, "token", credentials.token);
    overlay_field(configs_map, "expiration", credentials.expiration);
    expire_time
}

/// The state of a session, as the contracts see it.
pub struct SessionState<B> {
    pub config: Seq<(String, ConfigValue)>,
    pub backend: B,
    pub expire_at: Option<Timestamp>,
    /// Whether a credentials provider stands behind the session. Without
    /// one the credentials are static.
    pub has_credentials_provider: bool,
    /// How often the backend was replaced.
    pub generation: nat,
}

impl<B> SessionState<B> {
    /// The credentials have to be renewed at `now`: a provider stands behind
    /// the session, an expiry is known, and `now` lies less than the threshold
    /// before it.
    pub open spec fn refresh_due(self, now: Timestamp) -> bool {
        self.has_credentials_provider && self.expire_at is Some && now.is_after_seconds_before(
            self.expire_at->0,
            DEFAULT_REFRESH_CREDENTIALS_THRESHOLD as int,
        )
    }
}

/// What the driver does before a transfer.
#[derive(Clone, Copy, Debug, PartialEq, Eq, Structural)]
pub enum RefreshDecision {
    /// Use the session as it is; the provider is not asked.
    Keep,
    /// Refresh the credentials, build a new backend and install it.
    Rebuild,
}

/// The connection of one client to its backend.
pub struct BackendSession<B> {
    config: BackendConfig,
    backend: B,
    expire_at: Option<Timestamp>,
    has_credentials_provider: bool,
    generation: u64,
}

impl<B> View for BackendSession<B> {
    type V = SessionState<B>;

    closed spec fn view(&self) -> SessionState<B> {
        SessionState {
            config: self.config.entries(),
            backend: self.backend,
            expire_at: self.expire_at,
            has_credentials_provider: self.has_credentials_provider,
            generation: self.generation as nat,
        }
    }
}

impl<B> BackendSession<B> {
    /// The session's invariant: no key occurs twice in its configuration.
    pub closed spec fn wf(&self) -> bool {
        self.config.wf()
    }

    /// A session around a backend that was built from `config`.
    pub fn new(
        config: BackendConfig,
        backend: B,
        expire_at: Option<Timestamp>,
        has_credentials_provider: bool,
    ) -> (session: BackendSession<B>)
        requires
            config.wf(),
        ensures
            session.wf(),
            session@ == (SessionState {
                config: config.entries(),
                backend,
                expire_at,
                has_credentials_provider,
                generation: 0,
            }),
    {
        BackendSession { config, backend, expire_at, has_credentials_provider, generation: 0 }
    }

    /// The backend in use and the configuration that it was built from.
    pub fn current_handle(&self) -> (handle: (&B, &BackendConfig))
        ensures
            *handle.0 == self@.backend,
            handle.1.entries() == self@.config,
            self.wf() ==> handle.1.wf(),
    {
        (&self.backend, &self.config)
    }

    /// The instant at which the credentials in use expire, where it is known.
    pub fn expire_at(&self) -> (t: Option<Timestamp>)
        ensures
            t == self@.expire_at,
    {
        self.expire_at
    }

    /// How often the backend was replaced.
    pub fn generation(&self) -> (n: u64)
        ensures
            n == self@.generation,
    {
        self.generation
    }

    /// Decides, before a transfer, whether the credentials have to be renewed.
    /// The session is left as it is either way.
    pub fn refresh_store_if_needed(&self, now: Timestamp) -> (decision: RefreshDecision)
        ensures
            decision == (if self@.refresh_due(now) {
                RefreshDecision::Rebuild
            } else {
                RefreshDecision::Keep
            }),
    {
        if !self.has_credentials_provider {
            return RefreshDecision::Keep;
        }
        match &self.expire_at {
            Some(e) => {
                if now.later_than_seconds_before(e, DEFAULT_REFRESH_CREDENTIALS_THRESHOLD) {
                    RefreshDecision::Rebuild
                } else {
                    RefreshDecision::Keep
                }
            },
            None => RefreshDecision::Keep,
        }
    }

    /// The configuration for the next backend: the one in use, with the
    /// refreshed credential laid over it, and the expiry that the credential
    /// gives. The session is left as it is.
    pub fn next_config(&self, credentials: ExtractedCredentials) -> (next: (
        BackendConfig,
        Option<Timestamp>,
    ))
        requires
            self.wf(),
        ensures
            next.0.wf(),
            next.0.lookup("access_key"@) == overlaid(
                position_value(self@.config, "access_key"@),
                credentials.access_key,
            ),
            next.0.lookup("secret_key"@) == overlaid(
                position_value(self@.config, "secret_key"@),
                credentials.secret_key,
            ),
            next.0.lookup("token"@) == overlaid(
                position_value(self@.config, "token"@),
                credentials.token,
            ),
            next.0.lookup("expiration"@) == overlaid(
                position_value(self@.config, "expiration"@),
                credentials.expiration,
            ),
            forall|other: Seq<char>|
                other != "access_key"@ && other != "secret_key"@ && other != "token"@ && other
                    != "expiration"@ ==> next.0.lookup(other) == position_value(
                    self@.config,
                    other,
                ),
            next.1 == expiry_from(credentials.expiration),
    {
        let mut config = self.config.duplicate();
        let expire_at = extract_credentials_from_provider(credentials, &mut config);
        (config, expire_at)
    }

    /// Whether a backend whose credentials expire at `expire_at` may replace
    /// the one in use.
    pub fn accepts_expiry(&self, expire_at: Option<Timestamp>) -> (ok: bool)
        ensures
            ok == keeps_expiry(self@.expire_at, expire_at),
    {
        match (&self.expire_at, &expire_at) {
            (None, _) => true,
            (Some(_), None) => false,
            (Some(current), Some(next)) => !current.later_than(next),
        }
    }

    /// Replaces the backend, its configuration and the expiry in one step,
    /// provided that the expiry does not go back: a session whose expiry is
    /// known only takes a backend whose credentials expire no earlier. A
    /// backend that would take the expiry back is refused with a retryable
    /// error, and the session holds all three as they were.
    pub fn install(&mut self, backend: B, config: BackendConfig, expire_at: Option<Timestamp>) -> (outcome:
        Result<(), StorageError>)
        requires
            old(self).wf(),
            config.wf(),
        ensures
            final(self).wf(),
            match outcome {
                Ok(_) => {
                    &&& keeps_expiry(old(self)@.expire_at, expire_at)
                    &&& final(self)@ == (SessionState {
                        config: config.entries(),
                        backend,
                        expire_at,
                        has_credentials_provider: old(self)@.has_credentials_provider,
                        generation: if old(self)@.generation < u64::MAX {
                            old(self)@.generation + 1
                        } else {
                            old(self)@.generation
                        },
                    })
                },
                Err(e) => {
                    &&& !keeps_expiry(old(self)@.expire_at, expire_at)
                    &&& final(self)@ == old(self)@
                    &&& e matches StorageError::CredentialSourceError(m)
                    &&& m@ == "The refreshed credentials expire earlier than those in use"@
                },
            },
            old(self)@.expire_at is Some ==> final(self)@.expire_at is Some && !old(
                self,
            )@.expire_at->0.is_after(final(self)@.expire_at->0),
    {
        if !self.accepts_expiry(expire_at) {
            return Err(
                StorageError::CredentialSourceError(
                    String::from_str("The refreshed credentials expire earlier than those in use"),
                ),
            );
        }
        self.backend = backend;
        self.config = config;
        self.expire_at = expire_at;
        if self.generation < u64::MAX {
            self.generation = self.generation + 1;
        }
        Ok(())
    }
}

/// The expiry does not go back: where the current one is known, the next
/// one is known too and is no earlier.
pub open spec fn keeps_expiry(current: Option<Timestamp>, next: Option<Timestamp>) -> bool {
    match current {
        None => true,
        Some(e0) => next is Some && !e0.is_after(next->0),
    }
}

/// The value that is set for `key` in a list of entries, if any.
pub open spec fn position_value(entries: Seq<(String, ConfigValue)>, key: Seq<char>) -> Option<
    ConfigValue,
> {
    match position_of(entries, key) {
        Some(i) => Some(entries[i].1),
        None => None,
    }
}

/// The error for a provider that failed to refresh its credentials; the
/// caller may retry.
pub fn refresh_failure(reason: &str) -> (e: StorageError)
    ensures
        e matches StorageError::CredentialSourceError(m) && m@
            == "Failed to refresh credentials using credentials provider: "@ + reason@,
        e.exception_kind() == ExceptionKind::Retryable,
{
    StorageError::CredentialSourceError(
        String::from_str("Failed to refresh credentials using credentials provider: ").concat(
            reason,
        ),
    )
}

/// The error for a provider that refreshed its credentials and then failed
/// to hand them out; the caller may retry.
pub fn fetch_failure(reason: &str) -> (e: StorageError)
    ensures
        e matches StorageError::CredentialSourceError(m) && m@
            == "Failed to fetch refreshed credentials from credentials provider: "@ + reason@,
        e.exception_kind() == ExceptionKind::Retryable,
{
    StorageError::CredentialSourceError(
        String::from_str("Failed to fetch refreshed credentials from credentials provider: ").concat(
            reason,
        ),
    )
}

/// The error for a backend that could not be built from the refreshed
/// credentials, whatever the cause was; the caller may retry. The session is
/// left as it was, since nothing was installed.
pub fn rebuild_failure(cause: &StorageError) -> (e: StorageError)
    ensures
        e matches StorageError::CredentialSourceError(m) && m@
            == "Failed to rebuild the backend with refreshed credentials: "@ + (cause.heading()
            + cause.detail()@),
        e.exception_kind() == ExceptionKind::Retryable,
{
    let shown = cause.to_string();
    StorageError::CredentialSourceError(
        String::from_str("Failed to rebuild the backend with refreshed credentials: ").concat(
            shown.as_str(),
        ),
    )
}

/// While no refresh is due, asking again decides the same and changes
/// nothing: the provider is not asked and the backend in use stays in use.
/// What was not due at a later instant was not due at an earlier one either.
pub proof fn lemma_keep_is_idempotent<B>(state: SessionState<B>, earlier: Timestamp, later: Timestamp)
    requires
        !state.refresh_due(later),
        !earlier.is_after(later),
    ensures
        !state.refresh_due(earlier),
{
}

/// Across any number of generations the expiry never goes back: what holds
/// from one generation to the next holds from the first to the last.
pub proof fn lemma_expiry_never_goes_back(
    first: Option<Timestamp>,
    second: Option<Timestamp>,
    third: Option<Timestamp>,
)
    requires
        keeps_expiry(first, second),
        keeps_expiry(second, third),
    ensures
        keeps_expiry(first, third),
        keeps_expiry(first, first),
{
}

/// Static credentials never cause a rebuild.
pub proof fn lemma_static_credentials_never_refresh<B>(state: SessionState<B>, now: Timestamp)
    requires
        !state.has_credentials_provider || state.expire_at is None,
    ensures
        !state.refresh_due(now),
{
}

} // verus!
