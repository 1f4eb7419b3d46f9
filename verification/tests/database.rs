use transformation_engine::database::{
    database_config, pool_size, ConfigError, DBConnectionConfig, DatabaseVariables,
};

fn unset() -> DatabaseVariables {
    DatabaseVariables { host: None, port: None, user: None, password: None, name: None, sslmode: None }
}

fn port_for(text: &str) -> u16 {
    let variables = DatabaseVariables {
        host: Some("h".to_string()),
        port: Some(text.to_string()),
        ..unset()
    };
    database_config(None, variables).ok().unwrap().port
}

fn ssl_for(text: &str) -> bool {
    let variables = DatabaseVariables {
        host: Some("h".to_string()),
        sslmode: Some(text.to_string()),
        ..unset()
    };
    database_config(None, variables).ok().unwrap().sslmode
}

#[test]
fn an_empty_configuration_says_nothing() {
    let config = DBConnectionConfig::default();
    assert_eq!(config.host, "");
    assert_eq!(config.port, 0);
    assert_eq!(config.user, "");
    assert_eq!(config.password, "");
    assert_eq!(config.database, "");
    assert!(!config.sslmode);
}

#[test]
fn without_a_host_there_is_no_configuration() {
    assert_eq!(database_config(None, unset()).err(), Some(ConfigError::NotFound));
    let empty = DatabaseVariables { host: Some(String::new()), ..unset() };
    assert_eq!(database_config(None, empty).err(), Some(ConfigError::NotFound));
    assert_eq!(
        ConfigError::NotFound.message(),
        "MitM database credentials not found in MITM_DB_HOST or MITM_DB_CONFIG_JSON"
    );
}

#[test]
fn json_without_a_host_is_refused_even_where_variables_name_one() {
    let variables = DatabaseVariables { host: Some("h".to_string()), ..unset() };
    let result = database_config(Some(DBConnectionConfig::default()), variables);
    assert_eq!(result.err(), Some(ConfigError::NoHostInJson));
    assert_eq!(
        ConfigError::NoHostInJson.message(),
        "MITM_DB_CONFIG_JSON does not contain db.host"
    );
}

#[test]
fn json_goes_before_variables() {
    let json = DBConnectionConfig { host: "json".to_string(), port: 1, ..Default::default() };
    let variables = DatabaseVariables { host: Some("variable".to_string()), ..unset() };
    let config = database_config(Some(json), variables).ok().unwrap();
    assert_eq!(config.host, "json");
    assert_eq!(config.port, 1);
}

#[test]
fn variables_are_taken_as_they_are() {
    let variables = DatabaseVariables {
        host: Some("h".to_string()),
        port: Some("6543".to_string()),
        user: Some("u".to_string()),
        password: Some("p".to_string()),
        name: Some("d".to_string()),
        sslmode: Some("require".to_string()),
    };
    let config = database_config(None, variables).ok().unwrap();
    assert_eq!(config.host, "h");
    assert_eq!(config.port, 6543);
    assert_eq!(config.user, "u");
    assert_eq!(config.password, "p");
    assert_eq!(config.database, "d");
    assert!(config.sslmode);
}

#[test]
fn variables_that_are_not_set_are_empty() {
    let variables = DatabaseVariables { host: Some("h".to_string()), ..unset() };
    let config = database_config(None, variables).ok().unwrap();
    assert_eq!(config.port, 5432);
    assert_eq!(config.user, "");
    assert_eq!(config.password, "");
    assert_eq!(config.database, "");
    assert!(!config.sslmode);
}

#[test]
fn a_port_that_is_none_is_the_usual_one() {
    assert_eq!(port_for("80"), 80);
    assert_eq!(port_for("0"), 0);
    assert_eq!(port_for("65535"), 65535);
    assert_eq!(port_for("65536"), 5432);
    assert_eq!(port_for("port"), 5432);
    assert_eq!(port_for(""), 5432);
}

#[test]
fn two_words_ask_for_an_encrypted_connection() {
    assert!(ssl_for("true"));
    assert!(ssl_for("require"));
    assert!(!ssl_for("TRUE"));
    assert!(!ssl_for("1"));
    assert!(!ssl_for(""));
}

#[test]
fn port_zero_is_the_usual_port() {
    let mut config = DBConnectionConfig::default();
    assert_eq!(config.connect_port(), 5432);
    config.port = 99;
    assert_eq!(config.connect_port(), 99);
}

#[test]
fn there_are_five_connections_more_than_workers() {
    assert_eq!(pool_size(1), 6);
    assert_eq!(pool_size(5), 10);
    assert_eq!(pool_size(usize::MAX - 5), u32::MAX);
    assert_eq!(pool_size(4294967291), 0);
}
