use server_config::cors::{CorsConfig, CorsConfigFile, Duration};

#[test]
fn creates_cors_config_with_builder() {
    let cors_config = CorsConfig::builder()
        .allow_origin("http://example.com".to_string())
        .allow_methods(vec![
            "GET".to_string(),
            "POST".to_string(),
            "PUT".to_string(),
            "DELETE".to_string(),
        ])
        .allow_headers(vec![
            "Content-Type".to_string(),
            "Origin".to_string(),
            "Content-Length".to_string(),
        ])
        .build();

    assert_eq!(
        cors_config.allow_origin,
        Some(String::from("http://example.com"))
    );
    assert_eq!(
        cors_config.allow_methods,
        Some(vec![
            String::from("GET"),
            String::from("POST"),
            String::from("PUT"),
            String::from("DELETE"),
        ])
    );
    assert_eq!(
        cors_config.allow_headers,
        Some(vec![
            String::from("Content-Type"),
            String::from("Origin"),
            String::from("Content-Length"),
        ])
    );
    assert_eq!(cors_config.allow_credentials, false);
    assert_eq!(cors_config.max_age, None);
    assert_eq!(cors_config.expose_headers, None);
    assert_eq!(cors_config.request_headers, None);
    assert_eq!(cors_config.request_method, None);
}

#[test]
fn creates_cors_config_which_allows_all_connections() {
    let cors_config = CorsConfig::allow_all();

    assert_eq!(cors_config.allow_origin, Some(String::from("*")));
    assert_eq!(
        cors_config.allow_methods,
        Some(vec![
            String::from("GET"),
            String::from("POST"),
            String::from("PUT"),
            String::from("PATCH"),
            String::from("DELETE"),
            String::from("HEAD"),
        ])
    );
    assert_eq!(
        cors_config.allow_headers,
        Some(vec![
            String::from("Origin"),
            String::from("Content-Length"),
            String::from("Content-Type"),
        ])
    );
    assert_eq!(cors_config.allow_credentials, false);
    assert_eq!(cors_config.max_age, Some(Duration::from_secs(43200)));
    assert_eq!(cors_config.expose_headers, None);
    assert_eq!(cors_config.request_headers, None);
    assert_eq!(cors_config.request_method, None);
}

#[test]
fn creates_cors_config_from_file() {
    let allow_headers = vec![
        "content-type".to_string(),
        "content-length".to_string(),
        "request-id".to_string(),
    ];
    let allow_mehtods = vec!["GET".to_string(), "POST".to_string(), "PUT".to_string()];
    let allow_origin = String::from("github.com");
    let expose_headers = vec!["content-type".to_string(), "request-id".to_string()];
    let max_age = 5400.;
    let request_headers = vec![
        "content-type".to_string(),
        "content-length".to_string(),
        "authorization".to_string(),
    ];
    let request_method = String::from("GET");
    let std_max_age = std::time::Duration::from_secs_f64(max_age);
    let lib_max_age = Duration::new(std_max_age.as_secs(), std_max_age.subsec_nanos());
    let file_config = CorsConfigFile {
        allow_credentials: true,
        allow_headers: Some(allow_headers.clone()),
        allow_methods: Some(allow_mehtods.clone()),
        allow_origin: Some(allow_origin.clone()),
        expose_headers: Some(expose_headers.clone()),
        max_age: Some(lib_max_age),
        request_headers: Some(request_headers.clone()),
        request_method: Some(request_method.clone()),
    };
    let cors_config = CorsConfig {
        allow_credentials: true,
        allow_headers: Some(allow_headers),
        allow_methods: Some(allow_mehtods),
        allow_origin: Some(allow_origin),
        expose_headers: Some(expose_headers),
        max_age: Some(lib_max_age),
        request_headers: Some(request_headers),
        request_method: Some(request_method),
    };

    assert_eq!(cors_config, CorsConfig::try_from(file_config).unwrap());
}

#[test]
fn max_age_from_file_keeps_fractional_seconds() {
    let std_max_age = std::time::Duration::from_secs_f64(5400.5);
    let lib_max_age = Duration::new(std_max_age.as_secs(), std_max_age.subsec_nanos());
    assert_eq!(lib_max_age.as_secs(), 5400);
    assert_eq!(lib_max_age.subsec_nanos(), 500_000_000);

    let file_config = CorsConfigFile {
        allow_credentials: false,
        allow_headers: None,
        allow_methods: None,
        allow_origin: None,
        expose_headers: None,
        max_age: Some(lib_max_age),
        request_headers: None,
        request_method: None,
    };
    let cors_config = CorsConfig::try_from(file_config).unwrap();
    assert_eq!(cors_config.max_age, Some(lib_max_age));

    let whole = std::time::Duration::from_secs_f64(5400.0);
    assert_eq!(whole.as_secs(), 5400);
    assert_eq!(whole.subsec_nanos(), 0);
}

#[test]
fn later_setter_call_overwrites_earlier_one() {
    let twice = CorsConfig::builder()
        .allow_origin("http://first.example".to_string())
        .allow_methods(vec!["GET".to_string()])
        .allow_origin("http://second.example".to_string())
        .build();
    let once = CorsConfig::builder()
        .allow_methods(vec!["GET".to_string()])
        .allow_origin("http://second.example".to_string())
        .build();
    assert_eq!(twice, once);
}

#[test]
fn setter_calls_on_distinct_fields_commute() {
    let one_order = CorsConfig::builder()
        .allow_origin("http://example.com".to_string())
        .allow_credentials()
        .request_method("PUT".to_string())
        .build();
    let other_order = CorsConfig::builder()
        .request_method("PUT".to_string())
        .allow_origin("http://example.com".to_string())
        .allow_credentials()
        .build();
    assert_eq!(one_order, other_order);
}

#[test]
fn reordered_header_lists_are_not_equal() {
    let one = CorsConfig::builder()
        .allow_headers(vec!["Origin".to_string(), "Content-Type".to_string()])
        .build();
    let other = CorsConfig::builder()
        .allow_headers(vec!["Content-Type".to_string(), "Origin".to_string()])
        .build();
    assert_ne!(one, other);
    assert_eq!(one.clone(), one);
}

#[test]
fn credentials_false_in_file_stays_false() {
    let file_config = CorsConfigFile {
        allow_credentials: false,
        allow_headers: None,
        allow_methods: None,
        allow_origin: Some("github.com".to_string()),
        expose_headers: None,
        max_age: None,
        request_headers: None,
        request_method: None,
    };
    let cors_config = CorsConfig::try_from(file_config).unwrap();
    assert_eq!(cors_config.allow_credentials, false);

    let untouched = CorsConfig::builder()
        .allow_origin("github.com".to_string())
        .build();
    assert_eq!(cors_config, untouched);
}
