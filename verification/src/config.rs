//! How to reach the database server.

use crate::text::{decimal, decimal_text};
use vstd::prelude::*;
use vstd::string::StringExecFns;

verus! {

/// Where the database server is and how to log in to it.
#[derive(Debug, PartialEq, Eq)]
pub struct DatabaseConfig {
    pub host: String,
    pub port: u16,
    pub user: String,
    pub password: String,
    pub dbname: String,
}

/// The configuration of the application.
#[derive(Debug, PartialEq, Eq)]
pub struct AppConfig {
    pub database: DatabaseConfig,
}

impl DatabaseConfig {
    /// The address of the database: the scheme, the user and the password,
    /// the host and the port, and the name of the database.
    pub open spec fn connection_text(self) -> Seq<char> {
        "postgresql://"@ + self.user@ + ":"@ + self.password@ + "@"@ + self.host@ + ":"@
            + decimal_text(self.port as nat) + "/"@ + self.dbname@
    }

    pub fn to_connection_string(&self) -> (text: String)
        ensures
            text@ == self.connection_text(),
    {
        let mut text = "postgresql://".to_owned();
        text.append(self.user.as_str());
        text.append(":");
        text.append(self.password.as_str());
        text.append("@");
        text.append(self.host.as_str());
        text.append(":");
        text.append(decimal(self.port as u64).as_str());
        text.append("/");
        text.append(self.dbname.as_str());
        text
    }
}

impl Default for DatabaseConfig {
    /// A server on this machine, at the usual port.
    fn default() -> (config: DatabaseConfig)
        ensures
            config.host@ == "localhost"@,
            config.port == 5432,
            config.user@ == "postgres"@,
            config.password@ == "root"@,
            config.dbname@ == "editart"@,
    {
        DatabaseConfig {
            host: "localhost".to_owned(),
            port: 5432,
            user: "postgres".to_owned(),
            password: "root".to_owned(),
            dbname: "editart".to_owned(),
        }
    }
}

impl Default for AppConfig {
    fn default() -> (config: AppConfig)
        ensures
            config.database.host@ == "localhost"@,
            config.database.port == 5432,
            config.database.user@ == "postgres"@,
            config.database.password@ == "root"@,
            config.database.dbname@ == "editart"@,
    {
        AppConfig { database: DatabaseConfig::default() }
    }
}

} // verus!
