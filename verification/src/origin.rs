//! The origin guard: whether a request to a protected endpoint comes from
//! the application that the service belongs to.

use crate::text::{is_infix, lemma_infix_of_concat, str_contains};
use vstd::prelude::*;
use vstd::string::StringExecFns;

verus! {

/// Why the guard decided as it did. The first four let a request pass, the
/// last two turn it away.
#[derive(Clone, Copy, Debug, PartialEq, Eq, Structural)]
pub enum Reason {
    /// The request carried the configured API key.
    ApiKey,
    /// The `Origin` header names the request's own host or a local one.
    Origin,
    /// The `Referer` header names the request's own host or a local one.
    Referer,
    /// The request was made to a local host.
    LocalHost,
    /// Neither `Origin` nor `Referer` was sent.
    DirectCall,
    /// `Origin` or `Referer` was sent, and neither matched.
    OriginMismatch,
}

/// The guard's verdict on one request.
#[derive(Clone, Copy, Debug, PartialEq, Eq, Structural)]
pub struct OriginDecision {
    pub allowed: bool,
    pub reason: Reason,
}

/// What the guard reads of a request.
#[derive(Clone, Debug)]
pub struct RequestOrigin {
    /// Scheme of the request's URL, such as `https`.
    pub scheme: String,
    /// Host name of the request's URL alone; empty where it has none.
    pub host: String,
    /// The `X-API-Key` header.
    pub api_key: Option<String>,
    /// The `Origin` header.
    pub origin: Option<String>,
    /// The `Referer` header.
    pub referer: Option<String>,
}

/// The characters of an optional text.
pub open spec fn text_of(s: Option<String>) -> Option<Seq<char>> {
    match s {
        Some(t) => Some(t@),
        None => None,
    }
}

/// Whether a text mentions a local host.
pub open spec fn names_local(s: Seq<char>) -> bool {
    is_infix("localhost"@, s) || is_infix("127.0.0.1"@, s)
}

/// Whether a host is a local one.
pub open spec fn is_local_host(host: Seq<char>) -> bool {
    host == "localhost"@ || host == "127.0.0.1"@
}

/// Whether an `Origin` header is acceptable for a request to `host`.
pub open spec fn origin_matches(origin: Seq<char>, scheme: Seq<char>, host: Seq<char>) -> bool {
    origin == scheme + "://"@ + host || is_infix(host, origin) || names_local(origin)
}

/// Whether a `Referer` header is acceptable for a request to `host`.
pub open spec fn referer_matches(referer: Seq<char>, host: Seq<char>) -> bool {
    is_infix(host, referer) || names_local(referer)
}

/// Whether a reason lets the request pass.
pub open spec fn permits(reason: Reason) -> bool {
    reason == Reason::ApiKey || reason == Reason::Origin || reason == Reason::Referer || reason
        == Reason::LocalHost
}

/// The guard's rule: the first of the six checks that applies decides.
pub open spec fn verdict(
    scheme: Seq<char>,
    host: Seq<char>,
    api_key: Option<Seq<char>>,
    origin: Option<Seq<char>>,
    referer: Option<Seq<char>>,
    secret: Option<Seq<char>>,
) -> Reason {
    if secret is Some && api_key == secret {
        Reason::ApiKey
    } else if origin is Some && origin_matches(origin->0, scheme, host) {
        Reason::Origin
    } else if referer is Some && referer_matches(referer->0, host) {
        Reason::Referer
    } else if is_local_host(host) {
        Reason::LocalHost
    } else if origin is None && referer is None {
        Reason::DirectCall
    } else {
        Reason::OriginMismatch
    }
}

impl RequestOrigin {
    /// The reason that the guard gives for this request when `secret` is
    /// the configured API key.
    pub open spec fn verdict(&self, secret: Option<Seq<char>>) -> Reason {
        verdict(
            self.scheme@,
            self.host@,
            text_of(self.api_key),
            text_of(self.origin),
            text_of(self.referer),
            secret,
        )
    }
}

impl OriginDecision {
    /// A decision allows exactly when its reason permits.
    pub open spec fn wf(&self) -> bool {
        self.allowed == permits(self.reason)
    }

    /// The decision that goes with a reason.
    pub fn because(reason: Reason) -> (d: OriginDecision)
        ensures
            d.reason == reason,
            d.allowed == permits(reason),
            d.wf(),
    {
        let allowed = match reason {
            Reason::ApiKey => true,
            Reason::Origin => true,
            Reason::Referer => true,
            Reason::LocalHost => true,
            Reason::DirectCall => false,
            Reason::OriginMismatch => false,
        };
        OriginDecision { allowed, reason }
    }
}

/// Whether a text mentions a local host.
fn mentions_local(s: &str) -> (found: bool)
    ensures
        found == names_local(s@),
{
    str_contains(s, "localhost") || str_contains(s, "127.0.0.1")
}

/// Whether the request carries the configured key.
fn key_matches(api_key: &Option<String>, secret: Option<&String>) -> (ok: bool)
    ensures
        ok == (secret is Some && text_of(*api_key) == Some(secret->0@)),
{
    match secret {
        Some(configured) => match api_key {
            Some(sent) => *sent == *configured,
            None => false,
        },
        None => false,
    }
}

/// Decides whether a request to a protected endpoint may pass. `secret` is
/// the configured API key, if one is configured.
pub fn validate_origin(req: &RequestOrigin, secret: Option<&String>) -> (d: OriginDecision)
    ensures
        d.reason == req.verdict(
            match secret {
                Some(s) => Some(s@),
                None => None,
            },
        ),
        d.allowed == permits(d.reason),
{
    if key_matches(&req.api_key, secret) {
        return OriginDecision::because(Reason::ApiKey);
    }
    let host = req.host.as_str();
    if let Some(origin) = &req.origin {
        proof {
            if origin@ == req.scheme@ + "://"@ + req.host@ {
                lemma_infix_of_concat(req.scheme@ + "://"@, req.host@, Seq::empty());
                assert(req.scheme@ + "://"@ + req.host@ + Seq::<char>::empty() =~= origin@);
            }
        }
        if str_contains(origin.as_str(), host) || mentions_local(origin.as_str()) {
            return OriginDecision::because(Reason::Origin);
        }
    }
    if let Some(referer) = &req.referer {
        if str_contains(referer.as_str(), host) || mentions_local(referer.as_str()) {
            return OriginDecision::because(Reason::Referer);
        }
    }
    if req.host == String::from_str("localhost") || req.host == String::from_str("127.0.0.1") {
        return OriginDecision::because(Reason::LocalHost);
    }
    if req.origin.is_none() && req.referer.is_none() {
        return OriginDecision::because(Reason::DirectCall);
    }
    OriginDecision::because(Reason::OriginMismatch)
}

impl Reason {
    /// The text sent with a refusal; empty for a reason that permits.
    pub open spec fn text(self) -> Seq<char> {
        match self {
            Reason::DirectCall => "Unauthorized: Direct API calls not allowed. Request must come from the app."@,
            Reason::OriginMismatch => "Unauthorized: Request must come from the app"@,
            _ => ""@,
        }
    }

    /// The text sent with a refusal. It depends on the reason alone, so it
    /// does not tell whether an API key is configured.
    pub fn message(&self) -> (s: String)
        ensures
            s@ == self.text(),
    {
        match self {
            Reason::DirectCall => String::from_str(
                "Unauthorized: Direct API calls not allowed. Request must come from the app.",
            ),
            Reason::OriginMismatch => String::from_str(
                "Unauthorized: Request must come from the app",
            ),
            _ => String::from_str(""),
        }
    }
}

/// A request that carries the configured API key passes, whatever its
/// other headers say.
pub proof fn lemma_key_allows(
    scheme: Seq<char>,
    host: Seq<char>,
    key: Seq<char>,
    origin: Option<Seq<char>>,
    referer: Option<Seq<char>>,
)
    ensures
        verdict(scheme, host, Some(key), origin, referer, Some(key)) == Reason::ApiKey,
        permits(verdict(scheme, host, Some(key), origin, referer, Some(key))),
{
}

/// A request whose `Origin` header is the scheme and host of its own URL
/// passes.
pub proof fn lemma_same_origin_allows(
    scheme: Seq<char>,
    host: Seq<char>,
    api_key: Option<Seq<char>>,
    referer: Option<Seq<char>>,
    secret: Option<Seq<char>>,
)
    ensures
        permits(verdict(scheme, host, api_key, Some(scheme + "://"@ + host), referer, secret)),
{
}

/// A request without `Origin` and `Referer` to a host that is not local is
/// turned away as a direct call unless it carries the configured API key.
pub proof fn lemma_bare_request_denied(
    scheme: Seq<char>,
    host: Seq<char>,
    api_key: Option<Seq<char>>,
    secret: Option<Seq<char>>,
)
    requires
        !is_local_host(host),
        secret is None || api_key != secret,
    ensures
        verdict(scheme, host, api_key, None, None, secret) == Reason::DirectCall,
        !permits(verdict(scheme, host, api_key, None, None, secret)),
{
}

/// A request that does not carry the configured key is judged as if no key
/// were configured: a refusal does not tell whether one exists.
pub proof fn lemma_refusal_hides_key(
    scheme: Seq<char>,
    host: Seq<char>,
    api_key: Option<Seq<char>>,
    origin: Option<Seq<char>>,
    referer: Option<Seq<char>>,
    secret: Option<Seq<char>>,
)
    requires
        secret is None || api_key != secret,
    ensures
        verdict(scheme, host, api_key, origin, referer, secret) == verdict(
            scheme,
            host,
            api_key,
            origin,
            referer,
            None,
        ),
{
}

/// Headers that were sent and matched nothing are a mismatch, not a direct
/// call: the guard refuses with `DirectCall` only where both are absent.
pub proof fn lemma_refusals_differ(
    scheme: Seq<char>,
    host: Seq<char>,
    api_key: Option<Seq<char>>,
    origin: Option<Seq<char>>,
    referer: Option<Seq<char>>,
    secret: Option<Seq<char>>,
)
    ensures
        verdict(scheme, host, api_key, origin, referer, secret) == Reason::DirectCall ==> origin
            is None && referer is None,
        verdict(scheme, host, api_key, origin, referer, secret) == Reason::OriginMismatch
            ==> origin is Some || referer is Some,
{
}

} // verus!
