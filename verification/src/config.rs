//! Service configuration: the flags and their merge rules.
//!
//! A value given on the command line wins over the configuration file;
//! `mode` falls back to `info` and is clamped to the modes the logger
//! knows; the address, database path, token key and metadata token are
//! required.

use vstd::prelude::*;
use crate::strutil::eq_str;
use vstd::string::StringExecFns;

verus! {

/// The service's settings; each field may come from the command line or
/// from the configuration file.
#[derive(Debug)]
pub struct Config {
    pub addr: Option<String>,
    pub mode: Option<String>,
    pub key: Option<String>,
    pub db_path: Option<String>,
    pub tmdb_token: Option<String>,
    pub config: Option<String>,
}

/// The first present value, command line first.
pub open spec fn spec_first_of(a: Option<Seq<char>>, b: Option<Seq<char>>) -> Option<Seq<char>> {
    match a {
        Some(v) => Some(v),
        None => b,
    }
}

/// The log mode that a requested mode yields: `debug` and `warn` stand,
/// everything else (a missing value included) becomes `info`.
pub open spec fn spec_clamp_mode(m: Option<Seq<char>>) -> Seq<char> {
    match m {
        Some(v) => if v == "debug"@ || v == "warn"@ {
            v
        } else {
            "info"@
        },
        None => "info"@,
    }
}

/// Picks the first present of two optional strings.
fn first_of(a: Option<String>, b: Option<String>) -> (r: Option<String>)
    ensures
        r.deep_view() == spec_first_of(a.deep_view(), b.deep_view()),
{
    match a {
        Some(v) => Some(v),
        None => b,
    }
}

/// Clamps a requested log mode, as [`spec_clamp_mode`] describes.
pub fn clamp_mode(m: Option<String>) -> (r: String)
    ensures
        r@ == spec_clamp_mode(m.deep_view()),
{
    match m {
        Some(v) => {
            if eq_str(v.as_str(), "debug") || eq_str(v.as_str(), "warn") {
                v
            } else {
                String::from_str("info")
            }
        },
        None => String::from_str("info"),
    }
}

impl Config {
    /// Merges the command-line settings over the file settings: each value
    /// falls back to the file, the mode is clamped, and the merge fails
    /// exactly when the address, the database path, the token key or the
    /// metadata token is present in neither.
    pub fn merge(args: Config, file: Config) -> (r: Option<Config>)
        ensures
            r is Some <==> (spec_first_of(args.addr.deep_view(), file.addr.deep_view()) is Some
                && spec_first_of(args.db_path.deep_view(), file.db_path.deep_view()) is Some
                && spec_first_of(args.key.deep_view(), file.key.deep_view()) is Some
                && spec_first_of(
                args.tmdb_token.deep_view(),
                file.tmdb_token.deep_view(),
            ) is Some),
            r is Some ==> ({
                let c = r->0;
                &&& c.addr.deep_view() == spec_first_of(
                    args.addr.deep_view(),
                    file.addr.deep_view(),
                )
                &&& c.db_path.deep_view() == spec_first_of(
                    args.db_path.deep_view(),
                    file.db_path.deep_view(),
                )
                &&& c.key.deep_view() == spec_first_of(args.key.deep_view(), file.key.deep_view())
                &&& c.tmdb_token.deep_view() == spec_first_of(
                    args.tmdb_token.deep_view(),
                    file.tmdb_token.deep_view(),
                )
                &&& c.mode.deep_view() == Some(
                    spec_clamp_mode(
                        spec_first_of(args.mode.deep_view(), file.mode.deep_view()),
                    ),
                )
                &&& c.config.deep_view() == None::<Seq<char>>
            }),
    {
        let addr = match first_of(args.addr, file.addr) {
            Some(v) => v,
            None => {
                return None;
            },
        };
        let db_path = match first_of(args.db_path, file.db_path) {
            Some(v) => v,
            None => {
                return None;
            },
        };
        let key = match first_of(args.key, file.key) {
            Some(v) => v,
            None => {
                return None;
            },
        };
        let tmdb_token = match first_of(args.tmdb_token, file.tmdb_token) {
            Some(v) => v,
            None => {
                return None;
            },
        };
        let mode = clamp_mode(first_of(args.mode, file.mode));
        Some(
            Config {
                addr: Some(addr),
                mode: Some(mode),
                key: Some(key),
                db_path: Some(db_path),
                tmdb_token: Some(tmdb_token),
                config: None,
            },
        )
    }
}

} // verus!
