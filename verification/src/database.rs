//! How the database is reached.
use vstd::prelude::*;

use crate::text::{number_value, parse_u16, same_text};

verus! {

/// The port that PostgreSQL listens on.
pub const DEFAULT_PORT: u16 = 5432;

/// Where the database is and who asks.
pub struct DBConnectionConfig {
    pub host: String,
    /// The port; zero for the usual one.
    pub port: u16,
    pub user: String,
    pub password: String,
    pub database: String,
    /// Whether the connection must be encrypted.
    pub sslmode: bool,
}

impl Default for DBConnectionConfig {
    fn default() -> (config: Self)
        ensures
            config.host@.len() == 0,
            config.port == 0,
            config.user@.len() == 0,
            config.password@.len() == 0,
            config.database@.len() == 0,
            !config.sslmode,
    {
        DBConnectionConfig {
            host: String::new(),
            port: 0,
            user: String::new(),
            password: String::new(),
            database: String::new(),
            sslmode: false,
        }
    }
}

/// What the environment says of the database, variable by variable.
pub struct DatabaseVariables {
    pub host: Option<String>,
    pub port: Option<String>,
    pub user: Option<String>,
    pub password: Option<String>,
    pub name: Option<String>,
    pub sslmode: Option<String>,
}

/// Why the database cannot be reached.
#[derive(Clone, Copy, PartialEq, Eq, Structural, Debug)]
pub enum ConfigError {
    /// The configuration given as JSON names no host.
    NoHostInJson,
    /// There is no configuration at all.
    NotFound,
}

impl ConfigError {
    pub fn message(&self) -> (message: String)
        ensures
            message@ == match *self {
                ConfigError::NoHostInJson => "MITM_DB_CONFIG_JSON does not contain db.host"@,
                ConfigError::NotFound => "MitM database credentials not found in MITM_DB_HOST or MITM_DB_CONFIG_JSON"@,
            },
    {
        match self {
            ConfigError::NoHostInJson => "MITM_DB_CONFIG_JSON does not contain db.host".to_owned(),
            ConfigError::NotFound => "MitM database credentials not found in MITM_DB_HOST or MITM_DB_CONFIG_JSON".to_owned(),
        }
    }
}

/// What a variable says; nothing where it is not set.
pub open spec fn value_of(variable: Option<String>) -> Seq<char> {
    match variable {
        Some(value) => value@,
        None => Seq::empty(),
    }
}

/// The port that a variable names; the usual one where it names none.
pub open spec fn port_of(variable: Option<String>) -> int {
    match variable {
        Some(value) => match number_value(value@, false) {
            Some(n) => if n <= u16::MAX {
                n
            } else {
                DEFAULT_PORT as int
            },
            None => DEFAULT_PORT as int,
        },
        None => DEFAULT_PORT as int,
    }
}

/// Whether a variable asks for an encrypted connection.
pub open spec fn asks_for_ssl(variable: Option<String>) -> bool {
    variable matches Some(value) && (value@ == "true"@ || value@ == "require"@)
}

/// Whether the configuration is what the variables say.
pub open spec fn is_config_of(variables: DatabaseVariables, config: DBConnectionConfig) -> bool {
    &&& config.host@ == value_of(variables.host)
    &&& config.port == port_of(variables.port)
    &&& config.user@ == value_of(variables.user)
    &&& config.password@ == value_of(variables.password)
    &&& config.database@ == value_of(variables.name)
    &&& config.sslmode == asks_for_ssl(variables.sslmode)
}

fn value_or_empty(variable: Option<String>) -> (value: String)
    ensures
        value@ == value_of(variable),
{
    match variable {
        Some(value) => value,
        None => String::new(),
    }
}

/// The configuration given as JSON, where there is one, and otherwise what the variables say. In
/// either there must be a host.
pub fn database_config(
    json: Option<DBConnectionConfig>,
    variables: DatabaseVariables,
) -> (config: Result<DBConnectionConfig, ConfigError>)
    ensures
        match json {
            Some(given) => if given.host@.len() == 0 {
                config == Err::<DBConnectionConfig, _>(ConfigError::NoHostInJson)
            } else {
                config == Ok::<_, ConfigError>(given)
            },
            None => if value_of(variables.host).len() == 0 {
                config == Err::<DBConnectionConfig, _>(ConfigError::NotFound)
            } else {
                config matches Ok(c) && is_config_of(variables, c)
            },
        },
        config matches Ok(c) ==> c.host@.len() > 0,
{
    if let Some(given) = json {
        if given.host.as_str().is_empty() {
            return Err(ConfigError::NoHostInJson);
        }
        return Ok(given);
    }
    let host: String = value_or_empty(variables.host);
    if host.as_str().is_empty() {
        return Err(ConfigError::NotFound);
    }
    let port: u16 = match variables.port {
        Some(value) => match parse_u16(value.as_str()) {
            Some(n) => n,
            None => DEFAULT_PORT,
        },
        None => DEFAULT_PORT,
    };
    let sslmode: bool = match variables.sslmode {
        Some(value) => same_text(value.as_str(), "true") || same_text(value.as_str(), "require"),
        None => false,
    };
    Ok(
        DBConnectionConfig {
            host,
            port,
            user: value_or_empty(variables.user),
            password: value_or_empty(variables.password),
            database: value_or_empty(variables.name),
            sslmode,
        },
    )
}

impl DBConnectionConfig {
    /// The port to connect to.
    pub fn connect_port(&self) -> (port: u16)
        ensures
            port == if self.port == 0 {
                DEFAULT_PORT
            } else {
                self.port
            },
    {
        if self.port == 0 {
            DEFAULT_PORT
        } else {
            self.port
        }
    }
}

/// How many connections are kept for that many workers: some more than there are workers, reduced
/// to 32 bits.
pub fn pool_size(workers: usize) -> (connections: u32)
    requires
        workers + 5 <= usize::MAX,
    ensures
        connections == (workers + 5) % 0x1_0000_0000,
{
    let wanted: u64 = (workers + 5) as u64;
    (wanted % 0x1_0000_0000) as u32
}

/// A configuration that nothing is said of is empty: no host, no port, no names, not encrypted.
pub proof fn law_default_config_is_empty(config: DBConnectionConfig)
    requires
        call_ensures(<DBConnectionConfig as Default>::default, (), config),
    ensures
        config.host@.len() == 0,
        config.port == 0,
        config.user@.len() == 0,
        config.password@.len() == 0,
        config.database@.len() == 0,
        !config.sslmode,
{
}

/// A configuration given as JSON goes before the variables: it is taken as it is, and refused where it
/// names no host.
pub proof fn law_json_config_goes_first(
    given: DBConnectionConfig,
    variables: DatabaseVariables,
    config: Result<DBConnectionConfig, ConfigError>,
)
    requires
        call_ensures(database_config, (Some(given), variables), config),
    ensures
        given.host@.len() == 0 ==> config == Err::<DBConnectionConfig, _>(
            ConfigError::NoHostInJson,
        ),
        given.host@.len() > 0 ==> config == Ok::<_, ConfigError>(given),
{
}

/// Without JSON the variables count: they are refused where they name no host, and otherwise taken
/// as they are, with nothing for a name that is not set. The port is the one that its variable
/// reads as, or else 5432; the connection is encrypted where its variable says `true` or
/// `require`, and only there.
pub proof fn law_variables_are_taken_as_they_are(
    variables: DatabaseVariables,
    config: Result<DBConnectionConfig, ConfigError>,
    port_text: &str,
    port: Option<u16>,
)
    requires
        call_ensures(database_config, (None, variables), config),
        variables.port matches Some(text) ==> port_text@ == text@,
        call_ensures(parse_u16, (port_text,), port),
    ensures
        variables.host is None || variables.host->0@.len() == 0 ==> config == Err::<
            DBConnectionConfig,
            _,
        >(ConfigError::NotFound),
        variables.host is Some && variables.host->0@.len() > 0 ==> config is Ok,
        config matches Ok(c) ==> {
            &&& c.host@ == variables.host->0@
            &&& variables.port is None || port is None ==> c.port == 5432
            &&& variables.port is Some && port is Some ==> c.port == port->0
            &&& match variables.user {
                Some(user) => c.user@ == user@,
                None => c.user@.len() == 0,
            }
            &&& match variables.password {
                Some(password) => c.password@ == password@,
                None => c.password@.len() == 0,
            }
            &&& match variables.name {
                Some(name) => c.database@ == name@,
                None => c.database@.len() == 0,
            }
            &&& c.sslmode <==> match variables.sslmode {
                Some(mode) => mode@ == "true"@ || mode@ == "require"@,
                None => false,
            }
        },
{
}

/// The port connected to is the one configured, and 5432 where that is zero.
pub proof fn law_port_zero_is_the_usual_port(config: &DBConnectionConfig, port: u16)
    requires
        call_ensures(DBConnectionConfig::connect_port, (config,), port),
    ensures
        config.port == 0 ==> port == 5432,
        config.port != 0 ==> port == config.port,
{
}

/// There are five connections more than workers, but for a multiple of two to the power of 32.
pub proof fn law_five_connections_more_than_workers(workers: usize, connections: u32)
    requires
        workers + 5 <= usize::MAX,
        call_ensures(pool_size, (workers,), connections),
    ensures
        call_requires(pool_size, (workers,)),
        workers + 5 < 0x1_0000_0000 ==> connections == workers + 5,
        (workers + 5 - connections) % 0x1_0000_0000 == 0,
{
}

/// What is said where the database cannot be reached.
pub proof fn law_config_error_says_why(error: &ConfigError, message: String)
    requires
        call_ensures(ConfigError::message, (error,), message),
    ensures
        error is NoHostInJson ==> message@ == "MITM_DB_CONFIG_JSON does not contain db.host"@,
        error is NotFound ==> message@
            == "MitM database credentials not found in MITM_DB_HOST or MITM_DB_CONFIG_JSON"@,
{
}

} // verus!
