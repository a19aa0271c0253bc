//! A cache for a credential that an outside source issues: it serves the
//! cached credential while that is fresh, and says when the source has to be
//! asked again.
//!
//! The cache never talks to the source. The driver asks the cache what to do,
//! makes the call that the answer names while it holds the cache
//! exclusively, and hands the outcome back.

use crate::time::{instant_of, parse_instant, Timestamp};
use vstd::prelude::*;

verus! {

/// Seconds before expiry at which a credential is renewed, unless the
/// caller says otherwise: 15 minutes.
pub const DEFAULT_REFRESH_CREDENTIALS_THRESHOLD: i64 = 900;

/// Lifetime, in seconds, that is assumed where the source gives an
/// expiration that cannot be read: one hour.
pub const UNREADABLE_EXPIRATION_LIFETIME: i64 = 3600;

/// Lifetime, in seconds, that is assumed where the source gives no
/// expiration at all: 365 days.
pub const STATIC_CREDENTIAL_LIFETIME: i64 = 31536000;

/// An access credential.
#[derive(Debug)]
pub struct Credential {
    pub key_id: String,
    pub secret_key: String,
    pub token: Option<String>,
}

impl Credential {
    /// A copy of the credential.
    pub fn duplicate(&self) -> (copy: Credential)
        ensures
            copy == *self,
    {
        let token = match &self.token {
            Some(t) => Some(t.clone()),
            None => None,
        };
        Credential { key_id: self.key_id.clone(), secret_key: self.secret_key.clone(), token }
    }
}

/// A credential and the instant at which it expires.
#[derive(Debug)]
pub struct CachedAwsCredential {
    pub credential: Credential,
    pub expire_time: Timestamp,
}

/// What the source hands out on a fetch.
#[derive(Debug)]
pub struct CredentialDescriptor {
    pub access_key: String,
    pub secret_key: String,
    pub token: Option<String>,
    /// The expiration, as text in RFC 3339 form, where the source gives one.
    pub expiration: Option<String>,
}

/// The instant at which a credential fetched at `now` expires: the one that
/// its expiration denotes; an hour from `now` where the expiration cannot be
/// read; 365 days from `now` where there is none.
pub open spec fn expiry_of(expiration: Option<String>, now: Timestamp) -> Timestamp {
    match expiration {
        Some(text) => match instant_of(text@) {
            Some(t) => t,
            None => now.plus_seconds(UNREADABLE_EXPIRATION_LIFETIME as int),
        },
        None => now.plus_seconds(STATIC_CREDENTIAL_LIFETIME as int),
    }
}

/// Works out when a credential fetched at `now` expires.
pub fn resolve_expiry(expiration: &Option<String>, now: Timestamp) -> (expire_time: Timestamp)
    ensures
        expire_time == expiry_of(*expiration, now),
{
    match expiration {
        Some(text) => match parse_instant(text.as_str()) {
            Some(t) => t,
            None => now.saturating_add_seconds(UNREADABLE_EXPIRATION_LIFETIME),
        },
        None => now.saturating_add_seconds(STATIC_CREDENTIAL_LIFETIME),
    }
}

/// Turns what the source handed out at `now` into a credential with its
/// expiry.
pub fn get_credentials(descriptor: CredentialDescriptor, now: Timestamp) -> (fetched:
    CachedAwsCredential)
    ensures
        fetched.credential == (Credential {
            key_id: descriptor.access_key,
            secret_key: descriptor.secret_key,
            token: descriptor.token,
        }),
        fetched.expire_time == expiry_of(descriptor.expiration, now),
{
    let expire_time = resolve_expiry(&descriptor.expiration, now);
    CachedAwsCredential {
        credential: Credential {
            key_id: descriptor.access_key,
            secret_key: descriptor.secret_key,
            token: descriptor.token,
        },
        expire_time,
    }
}

/// A credential that expires at `expire_time` is fresh at `now`: `now` lies
/// more than `threshold` seconds before the expiry.
pub open spec fn is_fresh(expire_time: Timestamp, now: Timestamp, threshold: i64) -> bool {
    now.is_before_seconds_before(expire_time, threshold as int)
}

/// What the driver does next for a caller that wants the credential.
#[derive(Debug)]
pub enum CacheStep {
    /// Hand this credential to the caller; the source is not asked.
    Serve(Credential),
    /// Fetch from the source and report with [`CredentialCache::accept`].
    Fetch,
    /// Ask the source to refresh, fetch once more, and report with
    /// [`CredentialCache::accept`], saying that the refresh was made.
    RefreshThenFetch,
}

/// The cache of one credential.
pub struct CredentialCache {
    cached: Option<CachedAwsCredential>,
    refresh_threshold: i64,
}

/// The state of a cache, as the contracts see it.
pub struct CacheState {
    pub cached: Option<CachedAwsCredential>,
    pub refresh_threshold: i64,
}

impl CacheState {
    /// The credential that is served at `now` without asking the source, if
    /// there is one: the cached credential, while it is fresh.
    pub open spec fn served(self, now: Timestamp) -> Option<Credential> {
        match self.cached {
            Some(c) => if is_fresh(c.expire_time, now, self.refresh_threshold) {
                Some(c.credential)
            } else {
                None
            },
            None => None,
        }
    }
}

impl View for CredentialCache {
    type V = CacheState;

    closed spec fn view(&self) -> CacheState {
        CacheState { cached: self.cached, refresh_threshold: self.refresh_threshold }
    }
}

impl CredentialCache {
    /// An empty cache that renews a credential `refresh_threshold` seconds
    /// before it expires, 900 seconds where none is given.
    pub fn new(refresh_threshold: Option<i64>) -> (cache: CredentialCache)
        ensures
            cache@.cached is None,
            cache@.refresh_threshold == match refresh_threshold {
                Some(t) => t,
                None => DEFAULT_REFRESH_CREDENTIALS_THRESHOLD,
            },
    {
        let threshold: i64 = match refresh_threshold {
            Some(t) => t,
            None => DEFAULT_REFRESH_CREDENTIALS_THRESHOLD,
        };
        CredentialCache { cached: None, refresh_threshold: threshold }
    }

    /// The seconds before expiry at which a credential is renewed.
    pub fn refresh_threshold(&self) -> (t: i64)
        ensures
            t == self@.refresh_threshold,
    {
        self.refresh_threshold
    }

    /// Whether a credential is held, fresh or not.
    pub fn is_empty(&self) -> (b: bool)
        ensures
            b == self@.cached is None,
    {
        self.cached.is_none()
    }

    /// Whether `cached` has to be renewed at `now`: it is no longer fresh.
    pub fn should_refresh(&self, cached: &CachedAwsCredential, now: Timestamp) -> (due: bool)
        ensures
            due == !is_fresh(cached.expire_time, now, self@.refresh_threshold),
    {
        !now.earlier_than_seconds_before(&cached.expire_time, self.refresh_threshold)
    }

    /// The check that every caller makes first, and makes again once it holds
    /// the cache exclusively: a fresh cached credential is served, and only
    /// without one the source has to be asked.
    pub fn lookup(&self, now: Timestamp) -> (step: CacheStep)
        ensures
            match step {
                CacheStep::Serve(c) => self@.served(now) == Some(c),
                CacheStep::Fetch => self@.served(now) is None,
                CacheStep::RefreshThenFetch => false,
            },
    {
        match &self.cached {
            Some(c) => {
                if self.should_refresh(c, now) {
                    CacheStep::Fetch
                } else {
                    CacheStep::Serve(c.credential.duplicate())
                }
            },
            None => CacheStep::Fetch,
        }
    }

    /// Takes in what was fetched from the source. A credential that is fresh
    /// at `now`, or that was fetched after a refresh, replaces the cached one
    /// and is served. One that is not fresh is set aside, the cache stays as
    /// it is, and the source is to be refreshed once.
    pub fn accept(&mut self, fetched: CachedAwsCredential, now: Timestamp, refreshed: bool) -> (step:
        CacheStep)
        ensures
            final(self)@.refresh_threshold == old(self)@.refresh_threshold,
            match step {
                CacheStep::Serve(c) => {
                    &&& refreshed || is_fresh(
                        fetched.expire_time,
                        now,
                        old(self)@.refresh_threshold,
                    )
                    &&& c == fetched.credential
                    &&& final(self)@.cached == Some(fetched)
                },
                CacheStep::RefreshThenFetch => {
                    &&& !refreshed
                    &&& !is_fresh(fetched.expire_time, now, old(self)@.refresh_threshold)
                    &&& final(self)@ == old(self)@
                },
                CacheStep::Fetch => false,
            },
    {
        if !refreshed && self.should_refresh(&fetched, now) {
            CacheStep::RefreshThenFetch
        } else {
            let credential = fetched.credential.duplicate();
            self.cached = Some(fetched);
            CacheStep::Serve(credential)
        }
    }
}

/// A credential that was accepted is served from the cache at every later
/// check at which it is still fresh: callers that arrive while or after one
/// of them renews the credential do not ask the source again.
pub proof fn lemma_accepted_credential_is_served(
    before: CacheState,
    after: CacheState,
    fetched: CachedAwsCredential,
    later: Timestamp,
)
    requires
        after.cached == Some(fetched),
        after.refresh_threshold == before.refresh_threshold,
        is_fresh(fetched.expire_time, later, after.refresh_threshold),
    ensures
        after.served(later) == Some(fetched.credential),
{
}

/// While the cached credential is fresh, any number of checks serve the same
/// credential and leave the cache as it is: a check at an earlier instant
/// serves what a check at a later instant serves.
pub proof fn lemma_fresh_until(state: CacheState, earlier: Timestamp, later: Timestamp)
    requires
        state.served(later) is Some,
        !earlier.is_after(later),
    ensures
        state.served(earlier) == state.served(later),
{
}

} // verus!
