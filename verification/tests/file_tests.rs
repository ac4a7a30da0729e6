use server_config::file::{ConfigFile, ParseError, PrivateKeyAlgorithm, TlsConfigFile};
use server_config::ip::{IpAddr, Ipv4Addr};

#[test]
fn parses_config_from_file() {
    let file_contents = r#"
            host = "192.168.0.1"
            port = 7878
            verbose = true
            root_dir = "~/Desktop"
        "#;
    let host = IpAddr::V4(Ipv4Addr::new(192, 168, 0, 1));
    let port = 7878;
    let root_dir = "~/Desktop".to_string();
    let config = ConfigFile::parse_toml(file_contents).unwrap();

    assert_eq!(config.host, host);
    assert_eq!(config.port, port);
    assert_eq!(config.root_dir.unwrap(), root_dir);
    assert!(config.verbose);
}

#[test]
fn checks_invalid_config_from_file() {
    let file_contents = r#"
            port = 7878
        "#;
    let err = ConfigFile::parse_toml(file_contents).unwrap_err();
    assert_eq!(err, ParseError::MissingField("host".to_string()));
    assert_eq!(
        err.message(),
        "Failed to parse config from file. missing field `host` at line 1 column 1"
    );
}

#[test]
fn parses_config_with_tls_using_rsa() {
    let file_contents = r#"
            host = "192.168.0.1"
            port = 7878
            verbose = true
            root_dir = "~/Desktop"

            [tls]
            cert = "cert_123.pem"
            key = "key_123.pem"
            key_algorithm = "rsa"
        "#;
    let host = IpAddr::V4(Ipv4Addr::new(192, 168, 0, 1));
    let port = 7878;
    let root_dir = "~/Desktop".to_string();
    let tls = TlsConfigFile {
        cert: "cert_123.pem".to_string(),
        key: "key_123.pem".to_string(),
        key_algorithm: PrivateKeyAlgorithm::Rsa,
    };
    let config = ConfigFile::parse_toml(file_contents).unwrap();

    assert_eq!(config.host, host);
    assert_eq!(config.port, port);
    assert_eq!(config.root_dir.unwrap(), root_dir);
    assert_eq!(config.tls.unwrap(), tls);
    assert!(config.verbose);
}

#[test]
fn parses_config_with_tls_using_pkcs8() {
    let file_contents = r#"
            host = "192.168.0.1"
            port = 7878
            verbose = true
            root_dir = "~/Desktop"

            [tls]
            cert = "cert_123.pem"
            key = "key_123.pem"
            key_algorithm = "pkcs8"
        "#;
    let host = IpAddr::V4(Ipv4Addr::new(192, 168, 0, 1));
    let port = 7878;
    let root_dir = "~/Desktop".to_string();
    let tls = TlsConfigFile {
        cert: "cert_123.pem".to_string(),
        key: "key_123.pem".to_string(),
        key_algorithm: PrivateKeyAlgorithm::Pkcs8,
    };
    let config = ConfigFile::parse_toml(file_contents).unwrap();

    assert_eq!(config.host, host);
    assert_eq!(config.port, port);
    assert_eq!(config.root_dir.unwrap(), root_dir);
    assert_eq!(config.tls.unwrap(), tls);
    assert!(config.verbose);
}

#[test]
fn minimal_config_leaves_options_absent() {
    let file_contents = r#"
            host = "127.0.0.1"
            port = 80
            verbose = false
        "#;
    let config = ConfigFile::parse_toml(file_contents).unwrap();
    assert_eq!(config.host, IpAddr::V4(Ipv4Addr::new(127, 0, 0, 1)));
    assert_eq!(config.port, 80);
    assert!(!config.verbose);
    assert_eq!(config.root_dir, None);
    assert_eq!(config.tls, None);
}

#[test]
fn malformed_text_is_a_syntax_error() {
    let err = ConfigFile::parse_toml("host = ").unwrap_err();
    assert!(matches!(err, ParseError::Syntax(_)));
    let parser_text = toml::from_str::<toml::Value>("host = ")
        .unwrap_err()
        .to_string();
    assert_eq!(
        err.message(),
        format!("Failed to parse config from file. {parser_text}")
    );
}

#[test]
fn non_table_top_level_is_a_syntax_error() {
    // the parser's private datetime encoding: the one well-formed document
    // whose top level is not a table
    let file_contents = "\"$__toml_private_datetime\" = \"1979-05-27T07:32:00Z\"";
    assert!(matches!(
        toml::from_str::<toml::Value>(file_contents),
        Ok(toml::Value::Datetime(_))
    ));
    let err = ConfigFile::parse_toml(file_contents).unwrap_err();
    assert_eq!(
        err,
        ParseError::Syntax("expected a table at the top level".to_string())
    );
}

#[test]
fn wrong_field_types_are_reported_by_name() {
    let err = ConfigFile::parse_toml(
        r#"
            host = "127.0.0.1"
            port = "not a number"
            verbose = true
        "#,
    )
    .unwrap_err();
    assert_eq!(err, ParseError::WrongType("port".to_string()));
    assert_eq!(
        err.message(),
        "Failed to parse config from file. wrong type for field `port`"
    );

    let err = ConfigFile::parse_toml(
        r#"
            host = 127
            port = 80
            verbose = true
        "#,
    )
    .unwrap_err();
    assert_eq!(err, ParseError::WrongType("host".to_string()));
}

#[test]
fn out_of_range_port_is_invalid() {
    let err = ConfigFile::parse_toml(
        r#"
            host = "127.0.0.1"
            port = 70000
            verbose = true
        "#,
    )
    .unwrap_err();
    assert_eq!(err, ParseError::InvalidValue("port".to_string()));
    assert_eq!(
        err.message(),
        "Failed to parse config from file. invalid value for field `port`"
    );
}

#[test]
fn bad_host_literal_is_invalid() {
    let err = ConfigFile::parse_toml(
        r#"
            host = "999.0.0.1"
            port = 80
            verbose = true
        "#,
    )
    .unwrap_err();
    assert_eq!(err, ParseError::InvalidValue("host".to_string()));
}

#[test]
fn missing_tls_fields_are_reported_by_name() {
    let err = ConfigFile::parse_toml(
        r#"
            host = "127.0.0.1"
            port = 80
            verbose = true

            [tls]
            key = "key_123.pem"
            key_algorithm = "rsa"
        "#,
    )
    .unwrap_err();
    assert_eq!(err, ParseError::MissingField("cert".to_string()));
}

#[test]
fn unknown_key_algorithm_is_invalid() {
    let err = ConfigFile::parse_toml(
        r#"
            host = "127.0.0.1"
            port = 80
            verbose = true

            [tls]
            cert = "cert_123.pem"
            key = "key_123.pem"
            key_algorithm = "dsa"
        "#,
    )
    .unwrap_err();
    assert_eq!(err, ParseError::InvalidValue("key_algorithm".to_string()));
}

#[test]
fn default_path_is_server_toml() {
    assert_eq!(ConfigFile::default_path(), "server.toml");
}

#[test]
fn parses_ipv6_hosts() {
    let config = ConfigFile::parse_toml(
        r#"
            host = "::1"
            port = 80
            verbose = false
        "#,
    )
    .unwrap();
    assert_eq!(
        config.host,
        IpAddr::V6(server_config::ip::Ipv6Addr::new(0, 0, 0, 0, 0, 0, 0, 1))
    );
}
