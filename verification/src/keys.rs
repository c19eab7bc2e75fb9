//! Key layout of the embedded key-value store: each table renders its
//! primary key as a short path-like string.

use vstd::prelude::*;
use crate::strutil::{concat_str, i64_to_dec, spec_i64_dec};
use vstd::string::StringExecFns;

verus! {

/// Keys of the user table.
pub struct UserTable {
}

impl UserTable {
    /// The key a user id is stored under.
    pub fn to_id_key(&self, id: i64) -> (r: String)
        ensures
            r@ == "/user/id/"@ + spec_i64_dec(id as int),
    {
        let digits = i64_to_dec(id);
        concat_str("/user/id/", digits.as_str())
    }

    /// The key a user name is stored under.
    pub fn to_username_key(&self, username: &str) -> (r: String)
        ensures
            r@ == "/user/username/"@ + username@,
    {
        concat_str("/user/username/", username)
    }

    /// The key of the user-id counter.
    pub fn to_uid_key(&self) -> (r: String)
        ensures
            r@ == "/user_id"@,
    {
        String::from_str("/user_id")
    }
}

/// Keys of the registration-code table.
pub struct UserRegisterTable {
}

impl UserRegisterTable {
    /// The key a registration code is stored under.
    pub fn to_key(&self, code: &str) -> (r: String)
        ensures
            r@ == "/user/register/"@ + code@,
    {
        concat_str("/user/register/", code)
    }
}

/// Keys of the feed table.
pub struct RSSTable {
}

impl RSSTable {
    /// The key a feed id is stored under.
    pub fn to_key(&self, id: &str) -> (r: String)
        ensures
            r@ == "/rss/id/"@ + id@,
    {
        concat_str("/rss/id/", id)
    }
}

/// Keys of the calendar table.
pub struct CalenderTable {
}

impl CalenderTable {
    /// The key a series id is stored under: its plain decimal rendering.
    pub fn to_key(&self, id: i64) -> (r: String)
        ensures
            r@ == spec_i64_dec(id as int),
    {
        i64_to_dec(id)
    }
}

/// Keys of the rule table.
pub struct RuleTable {
}

impl RuleTable {
    /// The key a rule is stored under: its name as it stands.
    pub fn to_key(&self, id: &str) -> (r: String)
        ensures
            r@ == id@,
    {
        String::from_str(id)
    }
}

} // verus!
