//! Base-URL resolver.
//!
//! Derives the externally visible origin (`scheme://host[:port]`) used
//! to build absolute short links. Three sources feed it, in strict
//! precedence: an explicit configuration override returned verbatim when
//! present and non-empty; the reverse-proxy forwarding headers, each
//! falling back independently; and the inbound request's own URI, with
//! `http` and `localhost` as last-resort defaults. A port is appended
//! only when the request carries one explicitly and it is not the
//! conventional default for the resolved scheme.

use crate::ascii::{decimal_string, spec_decimal};
use vstd::prelude::*;

verus! {

/// What the resolver reads of an inbound request: the forwarded-proto
/// and forwarded-host header values (absent when the header is missing
/// or unreadable) and the request URI's own scheme, host and port.
pub struct RequestContext {
    pub forwarded_proto: Option<String>,
    pub forwarded_host: Option<String>,
    pub uri_scheme: Option<String>,
    pub uri_host: Option<String>,
    pub uri_port: Option<u16>,
}

/// The last-resort scheme.
pub open spec fn scheme_http() -> Seq<char> {
    seq!['h', 't', 't', 'p']
}

/// The scheme whose conventional default port is 443.
pub open spec fn scheme_https() -> Seq<char> {
    seq!['h', 't', 't', 'p', 's']
}

/// The last-resort host.
pub open spec fn fallback_host() -> Seq<char> {
    seq!['l', 'o', 'c', 'a', 'l', 'h', 'o', 's', 't']
}

/// The resolved scheme: the forwarded-proto header first, else the
/// request URI's scheme, else `http`.
pub open spec fn resolved_scheme(ctx: RequestContext) -> Seq<char> {
    match ctx.forwarded_proto {
        Some(p) => p@,
        None => match ctx.uri_scheme {
            Some(s) => s@,
            None => scheme_http(),
        },
    }
}

/// The resolved host: the forwarded-host header first, else the request
/// URI's host, else `localhost`.
pub open spec fn resolved_host(ctx: RequestContext) -> Seq<char> {
    match ctx.forwarded_host {
        Some(h) => h@,
        None => match ctx.uri_host {
            Some(h) => h@,
            None => fallback_host(),
        },
    }
}

/// Whether `port` is the conventional default for `scheme`: 80 for
/// `http`, 443 for `https`.
pub open spec fn is_default_port(scheme: Seq<char>, port: u16) -> bool {
    (scheme == scheme_http() && port == 80) || (scheme == scheme_https() && port == 443)
}

/// The `:port` suffix of the origin: empty when the request carries no
/// explicit port, or carries the default port for the resolved scheme.
pub open spec fn resolved_port_part(ctx: RequestContext) -> Seq<char> {
    match ctx.uri_port {
        Some(p) => if is_default_port(resolved_scheme(ctx), p) {
            Seq::empty()
        } else {
            seq![':'] + spec_decimal(p as nat)
        },
        None => Seq::empty(),
    }
}

/// The resolved origin: the override verbatim when present and
/// non-empty, else `scheme://host` with the optional port suffix.
pub open spec fn spec_base_url(override_url: Option<String>, ctx: RequestContext) -> Seq<char> {
    if override_url is Some && (override_url->0)@.len() > 0 {
        (override_url->0)@
    } else {
        resolved_scheme(ctx) + seq![':', '/', '/'] + resolved_host(ctx) + resolved_port_part(ctx)
    }
}

/// Character-for-character equality of two strings.
fn str_eq(a: &str, b: &str) -> (r: bool)
    ensures
        r == (a@ == b@),
{
    let alen = a.unicode_len();
    let blen = b.unicode_len();
    if alen != blen {
        return false;
    }
    let mut i: usize = 0;
    while i < alen
        invariant
            alen == a@.len(),
            alen == b@.len(),
            i <= alen,
            forall|j: int| 0 <= j < i ==> a@[j] == b@[j],
        decreases alen - i,
    {
        let ca = a.get_char(i);
        let cb = b.get_char(i);
        if ca != cb {
            return false;
        }
        i = i + 1;
    }
    proof {
        assert(a@ =~= b@);
    }
    true
}

/// Resolves the externally visible base URL of the service from the
/// configuration override and the request's metadata.
///
/// The override, when present and non-empty, wins over everything else
/// and is returned verbatim.
pub fn get_base_url(override_url: &Option<String>, ctx: &RequestContext) -> (r: String)
    ensures
        r@ == spec_base_url(*override_url, *ctx),
        (*override_url) is Some && ((*override_url)->0)@.len() > 0 ==> r@ == ((*override_url)->0)@,
{
    if let Some(o) = override_url {
        if !o.as_str().is_empty() {
            return o.clone();
        }
    }
    let scheme: &str = match &ctx.forwarded_proto {
        Some(p) => p.as_str(),
        None => match &ctx.uri_scheme {
            Some(s) => s.as_str(),
            None => "http",
        },
    };
    let host: &str = match &ctx.forwarded_host {
        Some(h) => h.as_str(),
        None => match &ctx.uri_host {
            Some(h) => h.as_str(),
            None => "localhost",
        },
    };
    proof {
        reveal_strlit("http");
        reveal_strlit("localhost");
        assert("http"@ =~= scheme_http());
        assert("localhost"@ =~= fallback_host());
        assert(scheme@ == resolved_scheme(*ctx));
        assert(host@ == resolved_host(*ctx));
    }
    let mut out = String::new();
    out.append(scheme);
    out.append("://");
    out.append(host);
    proof {
        reveal_strlit("://");
        assert("://"@ =~= seq![':', '/', '/']);
    }
    if let Some(p) = ctx.uri_port {
        let is_default = (p == 80 && str_eq(scheme, "http")) || (p == 443 && str_eq(
            scheme,
            "https",
        ));
        proof {
            reveal_strlit("https");
            assert("https"@ =~= scheme_https());
            assert(is_default == is_default_port(resolved_scheme(*ctx), p));
        }
        if !is_default {
            out.append(":");
            proof {
                reveal_strlit(":");
                assert(":"@ =~= seq![':']);
            }
            let pd = decimal_string(p);
            out.append(pd.as_str());
        }
    }
    proof {
        assert(out@ =~= spec_base_url(*override_url, *ctx));
    }
    out
}

} // verus!
