//! Settings chosen at startup. Reading the environment is the caller's work;
//! these functions decide what the values it read mean.

use vstd::prelude::*;
use vstd::string::*;

use crate::decimal::{i64_of_text, parse_i64};

verus! {

pub struct Config {
    /// Whether observations come from the public HTTP provider rather than
    /// from a node's RPC endpoint.
    pub use_api: bool,
    pub db_config: DatabaseConfig,
}

pub struct DatabaseConfig {
    pub host: String,
    pub port: u16,
    pub username: String,
    pub password: String,
    pub database_name: String,
}

/// The HTTP provider is chosen only by the exact value `true`; an absent
/// value chooses the node.
pub fn use_api_from(value: Option<&str>) -> (r: bool)
    ensures
        r == match value {
            Some(v) => v@ == "true"@,
            None => false,
        },
{
    match value {
        Some(v) => {
            let t = String::from_str(v);
            let yes = String::from_str("true");
            t == yes
        },
        None => false,
    }
}

/// A port number, as `str::parse::<u16>` reads one: an optional `+`, then
/// digits, at most 65535.
pub open spec fn port_of_text(s: Seq<char>) -> Option<u16> {
    if s.len() > 0 && s[0] == '-' {
        None
    } else {
        match i64_of_text(s) {
            Some(v) => if 0 <= v <= 65535 { Some(v as u16) } else { None },
            None => None,
        }
    }
}

pub fn parse_port(s: &str) -> (r: Option<u16>)
    ensures
        r == port_of_text(s@),
{
    if s.unicode_len() > 0 && s.get_char(0) == '-' {
        return None;
    }
    match parse_i64(s) {
        Some(v) => if 0 <= v && v <= 65535 { Some(v as u16) } else { None },
        None => None,
    }
}

} // verus!
