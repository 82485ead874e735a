use vstd::prelude::*;
use crate::text::{
    chars_of, lower, lowercase, parse_u16, parse_u64, same_chars, spec_parse_unsigned, trim,
    trim_chars,
};

verus! {

/// Where orders are sent.
#[derive(Clone, Copy, Debug, PartialEq, Eq, Structural)]
pub enum ExecutionVenue {
    DerivDemo,
    ChelseaLive,
    Unconfigured,
}

/// The venue that a configuration selects: a Chelsea MCP URL wins over a
/// Deriv demo token; with neither, trades are signal-only.
pub open spec fn spec_execution_venue(has_chelsea_url: bool, has_deriv_token: bool) -> ExecutionVenue {
    if has_chelsea_url {
        ExecutionVenue::ChelseaLive
    } else if has_deriv_token {
        ExecutionVenue::DerivDemo
    } else {
        ExecutionVenue::Unconfigured
    }
}

/// Resolve the execution venue from the two optional credentials.
pub fn execution_venue(mcp_chelsea_url: &Option<String>, deriv_demo_api: &Option<String>) -> (v: ExecutionVenue)
    ensures
        v == spec_execution_venue(mcp_chelsea_url.is_some(), deriv_demo_api.is_some()),
{
    if mcp_chelsea_url.is_some() {
        ExecutionVenue::ChelseaLive
    } else if deriv_demo_api.is_some() {
        ExecutionVenue::DerivDemo
    } else {
        ExecutionVenue::Unconfigured
    }
}


fn is_any(k: &Vec<char>, a: &str, b: &str, c: &str, d: &str) -> (r: bool)
    ensures
        r == (k@ == a@ || k@ == b@ || k@ == c@ || k@ == d@),
{
    same_chars(k, &chars_of(a)) || same_chars(k, &chars_of(b)) || same_chars(k, &chars_of(c))
        || same_chars(k, &chars_of(d))
}

/// A boolean setting: "1", "true", "yes" or "on" in any ASCII case and
/// with surrounding whitespace; any other value is false; unset is
/// `default`.
pub open spec fn spec_env_bool(raw: Option<Seq<char>>, default: bool) -> bool {
    match raw {
        Some(v) => {
            let k = lower(trim(v));
            k == "1"@ || k == "true"@ || k == "yes"@ || k == "on"@
        },
        None => default,
    }
}

/// Read a boolean setting from its raw value (None when unset).
pub fn env_bool(raw: Option<&str>, default: bool) -> (r: bool)
    ensures
        r == spec_env_bool(
            match raw {
                Some(v) => Some(v@),
                None => None,
            },
            default,
        ),
{
    match raw {
        Some(v) => {
            let k = lowercase(&trim_chars(&chars_of(v)));
            is_any(&k, "1", "true", "yes", "on")
        },
        None => default,
    }
}

/// Tri-state feed switch `on|off|auto`: "1"/"true"/"on"/"yes" (ASCII case
/// folded, not trimmed) turn the feed on, "0"/"false"/"off"/"no" turn it
/// off, anything else (or unset) means auto: on exactly when the feed's
/// credentials exist (always, for keyless public feeds).
pub open spec fn spec_env_switch(raw: Seq<char>, has_credentials: bool) -> bool {
    let k = lower(raw);
    if k == "1"@ || k == "true"@ || k == "on"@ || k == "yes"@ {
        true
    } else if k == "0"@ || k == "false"@ || k == "off"@ || k == "no"@ {
        false
    } else {
        has_credentials
    }
}

/// Resolve a feed switch from its raw value (empty when unset).
pub fn env_switch(raw: &str, has_credentials: bool) -> (r: bool)
    ensures
        r == spec_env_switch(raw@, has_credentials),
{
    let k = lowercase(&chars_of(raw));
    if is_any(&k, "1", "true", "on", "yes") {
        true
    } else if is_any(&k, "0", "false", "off", "no") {
        false
    } else {
        has_credentials
    }
}

/// An unsigned setting: its value when it parses, else `default`.
pub fn env_u64(raw: Option<&str>, default: u64) -> (r: u64)
    ensures
        match raw {
            Some(v) => match spec_parse_unsigned(v@, u64::MAX as int) {
                Some(n) => r == n,
                None => r == default,
            },
            None => r == default,
        },
{
    match raw {
        Some(v) => match parse_u64(v) {
            Some(n) => n,
            None => default,
        },
        None => default,
    }
}

/// The listening port: `PORT` when it parses as a `u16`, else 3000.
pub fn port_from(raw: Option<&str>) -> (r: u16)
    ensures
        match raw {
            Some(v) => match spec_parse_unsigned(v@, u16::MAX as int) {
                Some(n) => r == n,
                None => r == 3000,
            },
            None => r == 3000,
        },
{
    match raw {
        Some(v) => match parse_u16(v) {
            Some(n) => n,
            None => 3000,
        },
        None => 3000,
    }
}

} // verus!
