//! Rules of the web API: who may call it, and what it serves.

use vstd::prelude::*;

use crate::error::CoreError;
use crate::model::SecretsPatch;
use crate::net::{is_loopback_bind, spec_is_loopback_bind};
use crate::proxy::{spec_parse_proxy_uri, validate_proxy_uri};
use crate::text::{
    ends_with, ends_with_str, from_chars, rsplit_once, rsplit_once_chars, starts_with,
    starts_with_str, slice_of, to_chars, trim, trim_chars,
};

verus! {

/// The content type served for a UI file, by its extension.
pub open spec fn spec_mime_of(rel: Seq<char>) -> Seq<char> {
    if ends_with(rel, ".html"@) {
        "text/html; charset=utf-8"@
    } else if ends_with(rel, ".js"@) {
        "application/javascript; charset=utf-8"@
    } else if ends_with(rel, ".css"@) {
        "text/css; charset=utf-8"@
    } else if ends_with(rel, ".svg"@) {
        "image/svg+xml"@
    } else if ends_with(rel, ".woff2"@) {
        "font/woff2"@
    } else if ends_with(rel, ".map"@) {
        "application/json"@
    } else {
        "application/octet-stream"@
    }
}

/// The content type of a UI file.
pub fn mime_of(rel: &str) -> (r: &'static str)
    ensures
        r@ == spec_mime_of(rel@),
{
    let p = to_chars(rel);
    if ends_with_str(p.as_slice(), ".html") {
        "text/html; charset=utf-8"
    } else if ends_with_str(p.as_slice(), ".js") {
        "application/javascript; charset=utf-8"
    } else if ends_with_str(p.as_slice(), ".css") {
        "text/css; charset=utf-8"
    } else if ends_with_str(p.as_slice(), ".svg") {
        "image/svg+xml"
    } else if ends_with_str(p.as_slice(), ".woff2") {
        "font/woff2"
    } else if ends_with_str(p.as_slice(), ".map") {
        "application/json"
    } else {
        "application/octet-stream"
    }
}

/// The host part of a `host:port` listen address (the whole address when it
/// has no `:`).
pub open spec fn bind_host(bind: Seq<char>) -> Seq<char> {
    match rsplit_once(bind, ':') {
        Some((h, _)) => h,
        None => bind,
    }
}

/// Requests need the LAN token unless the UI listens on loopback only.
pub fn requires_auth(bind: &str) -> (r: bool)
    ensures
        r == !spec_is_loopback_bind(bind_host(bind@)),
{
    let b = to_chars(bind);
    let host = match rsplit_once_chars(b.as_slice(), ':') {
        Some((h, _)) => h,
        None => b,
    };
    !is_loopback_bind(from_chars(host.as_slice()).as_str())
}

/// The token a request presents: the `x-gateway-token` header when there is
/// one (none if it is not visible ASCII), else a `Bearer` authorization.
/// Each header is given as absent, present but unreadable (`Some(None)`), or
/// its text.
pub open spec fn spec_header_token(
    gateway_token: Option<Option<Seq<char>>>,
    authorization: Option<Option<Seq<char>>>,
) -> Option<Seq<char>> {
    match gateway_token {
        Some(v) => v,
        None => match authorization {
            Some(Some(a)) => if starts_with(a, "Bearer "@) {
                Some(a.skip(7))
            } else {
                None
            },
            _ => None,
        },
    }
}

pub open spec fn header_view(h: Option<Option<&str>>) -> Option<Option<Seq<char>>> {
    match h {
        Some(Some(t)) => Some(Some(t@)),
        Some(None) => Some(None),
        None => None,
    }
}

/// The token a request presents.
pub fn header_token(gateway_token: Option<Option<&str>>, authorization: Option<Option<&str>>) -> (r: Option<String>)
    ensures
        crate::model::opt_view(r) == spec_header_token(header_view(gateway_token), header_view(authorization)),
{
    match gateway_token {
        Some(Some(t)) => Some(t.to_owned()),
        Some(None) => None,
        None => match authorization {
            Some(Some(a)) => {
                let cs = to_chars(a);
                if starts_with_str(cs.as_slice(), "Bearer ") {
                    proof {
                        reveal_strlit("Bearer ");
                    }
                    Some(from_chars(slice_of(cs.as_slice(), 7, cs.len()).as_slice()))
                } else {
                    None
                }
            },
            _ => None,
        },
    }
}

/// What the API does with a request.
#[derive(Debug, Clone, Copy, PartialEq, Eq, Structural)]
pub enum AuthDecision {
    /// Serve it.
    Allow,
    /// Refuse it: the UI listens beyond loopback but no LAN token is set.
    TokenMissing,
    /// Refuse it: the request does not present the LAN token.
    TokenRequired,
}

pub open spec fn spec_authorize(require_auth: bool, stored: Seq<char>, presented: Option<Seq<char>>) -> AuthDecision {
    if !require_auth {
        AuthDecision::Allow
    } else if stored.len() == 0 {
        AuthDecision::TokenMissing
    } else if presented == Some(stored) {
        AuthDecision::Allow
    } else {
        AuthDecision::TokenRequired
    }
}

/// Decides a request: loopback UIs serve everyone; otherwise the stored LAN
/// token (empty when none is stored) must be set and presented.
pub fn authorize(require_auth: bool, stored: &str, presented: Option<&str>) -> (r: AuthDecision)
    ensures
        r == spec_authorize(require_auth, stored@, match presented {
            Some(p) => Some(p@),
            None => None,
        }),
        r == AuthDecision::Allow <==> (!require_auth || (stored@.len() > 0 && (presented matches Some(
            p) && p@ == stored@))),
{
    if !require_auth {
        return AuthDecision::Allow;
    }
    let s = to_chars(stored);
    if s.len() == 0 {
        return AuthDecision::TokenMissing;
    }
    match presented {
        Some(p) => if crate::text::chars_eq(to_chars(p).as_slice(), s.as_slice()) {
            AuthDecision::Allow
        } else {
            AuthDecision::TokenRequired
        },
        None => AuthDecision::TokenRequired,
    }
}

/// The HTTP status and text of a refusal.
pub fn refusal(d: AuthDecision) -> (r: Option<(u16, &'static str)>)
    ensures
        d == AuthDecision::Allow ==> r is None,
        d == AuthDecision::TokenMissing ==> r == Some((403u16, "LAN token missing")),
        d == AuthDecision::TokenRequired ==> r == Some((401u16, "token required")),
{
    match d {
        AuthDecision::Allow => None,
        AuthDecision::TokenMissing => Some((403, "LAN token missing")),
        AuthDecision::TokenRequired => Some((401, "token required")),
    }
}

/// A secrets update is refused when it sets a proxy link (not blank) that
/// does not parse; otherwise it is accepted.
pub fn check_secrets_patch(patch: &SecretsPatch) -> (r: Result<(), CoreError>)
    ensures
        match patch.proxy_uri {
            Some(u) => if trim(u@).len() > 0 {
                match spec_parse_proxy_uri(trim(u@)) {
                    Ok(_) => r is Ok,
                    Err(m) => r matches Err(CoreError::ConfigParse(t)) && t@ == m,
                }
            } else {
                r is Ok
            },
            None => r is Ok,
        },
{
    match &patch.proxy_uri {
        Some(u) => {
            let t = trim_chars(to_chars(u.as_str()).as_slice());
            if t.len() > 0 {
                validate_proxy_uri(from_chars(t.as_slice()).as_str())
            } else {
                Ok(())
            }
        },
        None => Ok(()),
    }
}

} // verus!
