//! Which listeners the agent opens. Both can run at once; either can be
//! turned off, and `0` is how a port is turned off.
use vstd::prelude::*;
use crate::numbers::{decimal_string, decimal_text, parse_unsigned, parse_unsigned_str};
use crate::text::{cat, own, spec_trim, trim};
use vstd::string::*;

verus! {

/// The HTTPS port when none is configured: where existing clients expect it.
pub const DEFAULT_HTTPS_PORT: u16 = 47990;

#[derive(Debug, Clone, Copy, PartialEq, Eq, Structural)]
pub struct Listeners {
    pub http: Option<u16>,
    pub https: Option<u16>,
}

/// A port setting as given, trimmed: a port, `0` for off, or `None` when it
/// is not a port number at all.
pub open spec fn port_value(raw: Seq<char>) -> Option<nat> {
    parse_unsigned(spec_trim(raw), 65535)
}

/// The HTTPS listener: the default when unset or not a port number, none
/// for `0`.
pub open spec fn spec_https_port(raw: Option<Seq<char>>) -> Option<u16> {
    match raw {
        None => Some(DEFAULT_HTTPS_PORT),
        Some(r) => match port_value(r) {
            Some(p) => if p == 0 { None } else { Some(p as u16) },
            None => Some(DEFAULT_HTTPS_PORT),
        },
    }
}

/// The HTTP listener: off unless a non-zero port is set; a setting that is
/// not a port number leaves it off.
pub open spec fn spec_http_port(raw: Option<Seq<char>>) -> Option<u16> {
    match raw {
        None => None,
        Some(r) => match port_value(r) {
            Some(p) => if p == 0 { None } else { Some(p as u16) },
            None => None,
        },
    }
}

pub open spec fn opt_text(raw: Option<String>) -> Option<Seq<char>> {
    match raw {
        Some(s) => Some(s@),
        None => None,
    }
}

fn port_of(raw: &str) -> (r: Option<u16>)
    ensures
        match r {
            Some(p) => port_value(raw@) == Some(p as nat),
            None => port_value(raw@) is None,
        },
{
    match parse_unsigned_str(trim(raw).as_str(), 65535) {
        Some(p) => Some(p as u16),
        None => None,
    }
}

/// Why settings that turn off both listeners are refused.
pub open spec fn no_listener_message() -> Seq<char> {
    "both ALTC_API_PORT and ALTC_HTTP_PORT are disabled: nothing could reach the agent"@
}

impl Listeners {
    /// The listeners set by `ALTC_API_PORT` (HTTPS) and `ALTC_HTTP_PORT`
    /// (HTTP), each `None` when unset. Either can be turned off but not
    /// both: an agent nobody can reach is a silent failure, so that setting
    /// is refused with the reason.
    pub fn from_settings(api_port: &Option<String>, http_port: &Option<String>) -> (r: Result<Listeners, String>)
        ensures
            r is Ok <==> (spec_https_port(opt_text(*api_port)) is Some || spec_http_port(opt_text(*http_port)) is Some),
            r matches Ok(l) ==> l.https == spec_https_port(opt_text(*api_port))
                && l.http == spec_http_port(opt_text(*http_port)),
            r matches Ok(l) ==> (l.http is Some || l.https is Some),
            r matches Err(m) ==> m@ == no_listener_message(),
    {
        let https = match api_port {
            None => Some(DEFAULT_HTTPS_PORT),
            Some(r) => match port_of(r.as_str()) {
                Some(0) => None,
                Some(p) => Some(p),
                None => Some(DEFAULT_HTTPS_PORT),
            },
        };
        let http = match http_port {
            None => None,
            Some(r) => match port_of(r.as_str()) {
                Some(0) => None,
                Some(p) => Some(p),
                None => None,
            },
        };
        if http.is_none() && https.is_none() {
            return Err(own("both ALTC_API_PORT and ALTC_HTTP_PORT are disabled: nothing could reach the agent"));
        }
        Ok(Listeners { http, https })
    }

    /// Says what is exposed.
    pub open spec fn spec_describe(self) -> Seq<char> {
        match (self.http, self.https) {
            (Some(h), Some(s)) => "http://0.0.0.0:"@ + decimal_text(h as nat) + " and https://0.0.0.0:"@ + decimal_text(s as nat),
            (Some(h), None) => "http://0.0.0.0:"@ + decimal_text(h as nat),
            (None, Some(s)) => "https://0.0.0.0:"@ + decimal_text(s as nat),
            (None, None) => "nothing"@,
        }
    }

    pub fn describe(&self) -> (r: String)
        ensures
            r@ == self.spec_describe(),
    {
        match (self.http, self.https) {
            (Some(h), Some(s)) => {
                let a = cat("http://0.0.0.0:", decimal_string(h as u64).as_str());
                let b = cat(a.as_str(), " and https://0.0.0.0:");
                cat(b.as_str(), decimal_string(s as u64).as_str())
            },
            (Some(h), None) => cat("http://0.0.0.0:", decimal_string(h as u64).as_str()),
            (None, Some(s)) => cat("https://0.0.0.0:", decimal_string(s as u64).as_str()),
            (None, None) => own("nothing"),
        }
    }
}

/// The warning stated at every start while HTTP is on: bearer tokens then
/// cross the network in clear.
pub open spec fn http_warning(port: u16) -> Seq<char> {
    "HTTP is enabled on port "@ + decimal_text(port as nat)
        + ": bearer tokens cross the network in clear. Safe on a LAN or inside a VPN such as Tailscale. Do NOT port-forward it."@
}

pub fn warn_about_http(listeners: &Listeners) -> (r: Option<String>)
    ensures
        match listeners.http {
            Some(p) => r matches Some(w) && w@ == http_warning(p),
            None => r is None,
        },
{
    match listeners.http {
        Some(port) => {
            let a = cat("HTTP is enabled on port ", decimal_string(port as u64).as_str());
            Some(cat(a.as_str(), ": bearer tokens cross the network in clear. Safe on a LAN or inside a VPN such as Tailscale. Do NOT port-forward it."))
        },
        None => None,
    }
}

/// What is exposed is what `describe` says: HTTP is mentioned exactly when
/// an HTTP listener is open.
pub proof fn law_describe_mentions_http_only_when_open(l: Listeners)
    ensures
        l.http is None ==> !crate::text::has_prefix(l.spec_describe(), "http://"@),
        l.http is Some ==> crate::text::has_prefix(l.spec_describe(), "http://"@),
{
    reveal_strlit("http://");
    reveal_strlit("https://0.0.0.0:");
    reveal_strlit("http://0.0.0.0:");
    reveal_strlit("nothing");
    let d = l.spec_describe();
    if l.http is None {
        if crate::text::has_prefix(d, "http://"@) {
            assert(d[4] == "http://"@[4]);
        }
    } else {
        assert(d.subrange(0, 7) =~= "http://"@);
    }
}

} // verus!
