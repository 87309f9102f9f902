//! The ingestion gates a webhook request passes before its body is decoded:
//! signature authentication over the raw bytes, then the rate limiter keyed
//! by the caller. Each rejection maps to its own HTTP status; the liveness
//! path bypasses both gates. Decoding and dispatching follow elsewhere once
//! a request is admitted.

use vstd::prelude::*;
use vstd::string::StringSliceAdditionalSpecFns;

use crate::rate_limit::RateLimitConfig;
use crate::rate_limit::RateLimitEntry;
use crate::rate_limit::RateLimitResult;
use crate::rate_limit::RateLimiter;
use crate::rate_limit::spec_check_entry;
use crate::rate_limit::spec_check_result;
use crate::signature::spec_signature_valid;
use crate::signature::verify_signature;

verus! {

/// How far a request got through the ingestion gates.
#[derive(Debug, Clone, Copy, PartialEq, Eq, Structural)]
pub enum AdmitOutcome {
    /// No usable signature header came with the request.
    MissingHeader,
    /// The header was present but did not sign the body.
    InvalidSignature,
    /// The signature held but the caller is over quota.
    RateLimited { retry_after: u64 },
    /// The request may proceed to decoding.
    Admitted { remaining: u32, reset_after: u64 },
}

impl AdmitOutcome {
    /// The HTTP status this outcome answers with.
    pub fn status_code(&self) -> (r: u16)
        ensures
            r == (match *self {
                AdmitOutcome::MissingHeader => 400u16,
                AdmitOutcome::InvalidSignature => 401u16,
                AdmitOutcome::RateLimited { .. } => 429u16,
                AdmitOutcome::Admitted { .. } => 200u16,
            }),
    {
        match self {
            AdmitOutcome::MissingHeader => 400,
            AdmitOutcome::InvalidSignature => 401,
            AdmitOutcome::RateLimited { .. } => 429,
            AdmitOutcome::Admitted { .. } => 200,
        }
    }
}

/// Whether the signature gate passes: a header is present and signs the raw
/// body under the secret.
pub open spec fn spec_authenticated(
    key_bytes: Seq<u8>,
    body: Seq<u8>,
    header: Option<Seq<char>>,
) -> bool {
    header matches Some(h) && spec_signature_valid(key_bytes, body, h)
}

/// The outcome owed for a request, given the limiter entry its key held.
pub open spec fn spec_admit_outcome(
    prev: Option<RateLimitEntry>,
    cfg: RateLimitConfig,
    key_bytes: Seq<u8>,
    body: Seq<u8>,
    header: Option<Seq<char>>,
    now: u64,
) -> AdmitOutcome {
    match header {
        None => AdmitOutcome::MissingHeader,
        Some(h) => {
            if !spec_signature_valid(key_bytes, body, h) {
                AdmitOutcome::InvalidSignature
            } else {
                match spec_check_result(prev, cfg, now) {
                    RateLimitResult::Allowed { remaining, reset_after } => AdmitOutcome::Admitted {
                        remaining,
                        reset_after,
                    },
                    RateLimitResult::Exceeded { retry_after } => AdmitOutcome::RateLimited {
                        retry_after,
                    },
                }
            }
        },
    }
}

/// Run one request through the gates in order: the signature over the raw
/// body first, then the rate limiter under `key` at time `now`. The limiter
/// is consulted, and so advanced, only when the signature holds, so rejected
/// callers spend no quota.
pub fn admit_request(
    limiter: &mut RateLimiter,
    channel_secret: &str,
    body: &[u8],
    header: Option<&str>,
    key: &str,
    now: u64,
) -> (r: AdmitOutcome)
    requires
        old(limiter).wf(),
        old(limiter).spec_config().valid(),
    ensures
        final(limiter).wf(),
        final(limiter).spec_config() == old(limiter).spec_config(),
        r == spec_admit_outcome(
            old(limiter).find(key@),
            old(limiter).spec_config(),
            channel_secret.spec_bytes(),
            body@,
            match header {
                Some(h) => Some(h@),
                None => None,
            },
            now,
        ),
        spec_authenticated(
            channel_secret.spec_bytes(),
            body@,
            match header {
                Some(h) => Some(h@),
                None => None,
            },
        ) ==> final(limiter).find(key@) == Some(
            spec_check_entry(old(limiter).find(key@), old(limiter).spec_config(), now),
        ) && (forall|k: Seq<char>| k != key@ ==> final(limiter).find(k) == old(limiter).find(k)),
        !spec_authenticated(
            channel_secret.spec_bytes(),
            body@,
            match header {
                Some(h) => Some(h@),
                None => None,
            },
        ) ==> *final(limiter) == *old(limiter),
{
    match header {
        None => AdmitOutcome::MissingHeader,
        Some(h) => {
            if !verify_signature(channel_secret, body, h) {
                AdmitOutcome::InvalidSignature
            } else {
                match limiter.check_rate_limit(key, now) {
                    RateLimitResult::Allowed { remaining, reset_after } => AdmitOutcome::Admitted {
                        remaining,
                        reset_after,
                    },
                    RateLimitResult::Exceeded { retry_after } => AdmitOutcome::RateLimited {
                        retry_after,
                    },
                }
            }
        },
    }
}

/// The liveness path: no signature, no rate limit, a fixed success body.
pub fn health_check() -> (r: &'static str)
    ensures
        r@ == "OK"@,
{
    "OK"
}

} // verus!
