//! SQL sessions: connection configurations and the tokens that stand for
//! them.

use crate::errors::BuiltinExecutionError;
use crate::session::{is_lower_hex, random_hex};
use vstd::prelude::*;

verus! {

/// The callable `connect_mysql`.
pub struct ConnectMySql {}

/// The callable `execute_sql`.
pub struct MySql;

impl ConnectMySql {
    /// The name under which the callable is installed.
    pub fn get_name(&self) -> (name: &'static str)
        ensures
            name@ == "connect_mysql"@,
    {
        "connect_mysql"
    }
}

impl MySql {
    /// The name under which the callable is installed.
    pub fn get_name(&self) -> (name: &'static str)
        ensures
            name@ == "execute_sql"@,
    {
        "execute_sql"
    }
}

/// How to reach a MySQL database.
#[derive(Debug, Clone, PartialEq)]
pub struct MySqlConnectionConfig {
    pub host: String,
    pub port: u16,
    pub database: String,
    pub username: String,
    pub password: String,
}

impl MySqlConnectionConfig {
    /// The name of the database system.
    pub fn get_name(&self) -> (name: &'static str)
        ensures
            name@ == "mysql"@,
    {
        "mysql"
    }
}

impl Default for MySqlConnectionConfig {
    fn default() -> (config: MySqlConnectionConfig)
        ensures
            config.host@ == "localhost"@,
            config.port == 3306,
            config.database@.len() == 0,
            config.username@.len() == 0,
            config.password@.len() == 0,
    {
        MySqlConnectionConfig {
            host: "localhost".to_owned(),
            port: 3306,
            database: String::new(),
            username: String::new(),
            password: String::new(),
        }
    }
}

/// No database.
pub struct NoDb {}

impl NoDb {
    /// The name of the database system: none.
    pub fn get_name(&self) -> (name: &'static str)
        ensures
            name@ == ""@,
    {
        ""
    }
}

impl Default for NoDb {
    fn default() -> NoDb {
        NoDb {  }
    }
}

/// A connection to a database system, or none.
pub enum Connection {
    MySql(MySqlConnectionConfig),
    NoDb(NoDb),
}

impl Default for Connection {
    fn default() -> (connection: Connection)
        ensures
            connection is NoDb,
    {
        Connection::NoDb(NoDb {  })
    }
}

/// The first configuration of `sessions` that is stored under `token`.
pub open spec fn stored(
    sessions: Seq<(String, MySqlConnectionConfig)>,
    token: Seq<char>,
) -> Option<MySqlConnectionConfig>
    decreases sessions.len(),
{
    if sessions.len() == 0 {
        None
    } else if sessions[0].0@ == token {
        Some(sessions[0].1)
    } else {
        stored(sessions.skip(1), token)
    }
}

/// The connection configurations of one sandbox, each under the token that
/// was handed out for it.
pub struct SessionRegistry {
    pub sessions: Vec<(String, MySqlConnectionConfig)>,
}

impl SessionRegistry {
    /// A registry without sessions.
    pub fn new() -> (registry: SessionRegistry)
        ensures
            registry.sessions@.len() == 0,
    {
        SessionRegistry { sessions: Vec::new() }
    }

    /// Stores `config` under a fresh token of 32 lower-case hexadecimal
    /// digits and hands the token out.
    pub fn connect(&mut self, config: MySqlConnectionConfig) -> (token: String)
        ensures
            token@.len() == 32,
            forall|i: int| 0 <= i < 32 ==> is_lower_hex(#[trigger] token@[i]),
            final(self).sessions@ == old(self).sessions@.push((token, config)),
    {
        let token = random_hex();
        self.sessions.push((token.clone(), config));
        token
    }

    /// The configuration stored under `token`. A token that was never handed
    /// out is refused.
    pub fn lookup(&self, token: &str) -> (config: Result<
        &MySqlConnectionConfig,
        BuiltinExecutionError,
    >)
        ensures
            match stored(self.sessions@, token@) {
                Some(found) => config is Ok && *config->Ok_0 == found,
                None => config is Err && config->Err_0 == BuiltinExecutionError::UnknownSession,
            },
    {
        let wanted = token.to_owned();
        let mut i: usize = 0;
        assert(self.sessions@.skip(0) == self.sessions@);
        while i < self.sessions.len()
            invariant
                i <= self.sessions@.len(),
                wanted@ == token@,
                stored(self.sessions@, token@) == stored(self.sessions@.skip(i as int), token@),
            decreases self.sessions@.len() - i,
        {
            assert(self.sessions@.skip(i as int)[0] == self.sessions@[i as int]);
            if self.sessions[i].0 == wanted {
                return Ok(&self.sessions[i].1);
            }
            assert(self.sessions@.skip(i as int).skip(1) == self.sessions@.skip(i as int + 1));
            i = i + 1;
        }
        Err(BuiltinExecutionError::UnknownSession)
    }
}

} // verus!
