//! Where the database is, as an explicit value that is made once and handed
//! to whoever connects.

use vstd::prelude::*;
use vstd::string::StringExecFns;

verus! {

/// How to reach the database.
#[derive(Debug, Clone, PartialEq, Eq)]
pub struct DbConfig {
    pub host: String,
    pub port: String,
    pub user: String,
    pub password: String,
    pub dbname: String,
}

/// A setting: the value that was given, or else the default.
pub open spec fn setting(given: Option<Seq<char>>, default: Seq<char>) -> Seq<char> {
    match given {
        Some(value) => value,
        None => default,
    }
}

/// The text of an optional string, if there is one.
pub open spec fn text_of(given: Option<String>) -> Option<Seq<char>> {
    match given {
        Some(value) => Some(value@),
        None => None,
    }
}

/// The connection string: the scheme, then the user and the password
/// around a colon, an at sign, the host and the port around a colon, a
/// slash, and the name of the database.
pub open spec fn dsn_text(
    user: Seq<char>,
    password: Seq<char>,
    host: Seq<char>,
    port: Seq<char>,
    dbname: Seq<char>,
) -> Seq<char> {
    "postgres://"@ + user + ":"@ + password + "@"@ + host + ":"@ + port + "/"@ + dbname
}

/// The value that was given, or else the default.
pub fn get_option(given: Option<String>, default: &str) -> (value: String)
    ensures
        value@ == setting(text_of(given), default@),
{
    match given {
        Some(value) => value,
        None => String::from_str(default),
    }
}

impl DbConfig {
    /// The configuration that the given settings make, with the defaults of
    /// a local setup for those that were not given.
    pub fn from_settings(
        host: Option<String>,
        port: Option<String>,
        user: Option<String>,
        password: Option<String>,
        dbname: Option<String>,
    ) -> (config: DbConfig)
        ensures
            config.host@ == setting(text_of(host), "localhost"@),
            config.port@ == setting(text_of(port), "15432"@),
            config.user@ == setting(text_of(user), "myapp"@),
            config.password@ == setting(text_of(password), "dbpass"@),
            config.dbname@ == setting(text_of(dbname), "myapp"@),
    {
        DbConfig {
            host: get_option(host, "localhost"),
            port: get_option(port, "15432"),
            user: get_option(user, "myapp"),
            password: get_option(password, "dbpass"),
            dbname: get_option(dbname, "myapp"),
        }
    }

    /// The connection string of the configuration.
    pub fn dsn(&self) -> (dsn: String)
        ensures
            dsn@ == dsn_text(self.user@, self.password@, self.host@, self.port@, self.dbname@),
    {
        let mut dsn = String::from_str("postgres://");
        dsn.append(self.user.as_str());
        dsn.append(":");
        dsn.append(self.password.as_str());
        dsn.append("@");
        dsn.append(self.host.as_str());
        dsn.append(":");
        dsn.append(self.port.as_str());
        dsn.append("/");
        dsn.append(self.dbname.as_str());
        dsn
    }
}

} // verus!
