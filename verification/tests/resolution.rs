use prometheus_edge_trigger::config::{
    resolve_params, Lookup, MqttConfig, MqttPassword, Parameter, ParameterError, RawMqttConfig,
    Service,
};

fn registry() -> Vec<Service> {
    vec![
        Service::new(
            vec!["first-a".to_string(), "first-b".to_string()],
            vec![("role".to_string(), "db".to_string())],
        ),
        Service::new(
            vec![],
            vec![("role".to_string(), "web".to_string())],
        ),
        Service::new(
            vec!["second-a".to_string()],
            vec![("role".to_string(), "web".to_string()), ("zone".to_string(), "a".to_string())],
        ),
        Service::new(
            vec!["third-a".to_string()],
            vec![("role".to_string(), "web".to_string())],
        ),
    ]
}

fn registry_param() -> Parameter {
    Parameter::Service {
        file: "services.json".to_string(),
        key: "role".to_string(),
        value: "web".to_string(),
    }
}

#[test]
fn static_parameter_resolves_to_itself() {
    let p = Parameter::Value { value: "plain".to_string() };
    assert_eq!("plain", p.get_value(&Lookup::Static).unwrap());
}

#[test]
fn mdns_found_resolves_to_address() {
    let p = Parameter::Mdns { service: "_http._tcp".to_string(), host: "printer".to_string() };
    let r = p.get_value(&Lookup::Mdns { found: Some("10.0.0.7:631".to_string()) });
    assert_eq!("10.0.0.7:631", r.unwrap());
}

#[test]
fn mdns_absent_for_whole_window_is_host_not_found() {
    // a discovery that ran its full timeout without the requested
    // instance reports not-found, not a timeout error
    let p = Parameter::Mdns { service: "_http._tcp".to_string(), host: "printer".to_string() };
    let r = p.get_value(&Lookup::Mdns { found: None });
    assert!(matches!(r, Err(ParameterError::MdnsHostNotFound)));
}

#[test]
fn mdns_collaborator_failure_is_mdns_error() {
    let p = Parameter::Mdns { service: "_http._tcp".to_string(), host: "printer".to_string() };
    let r = p.get_value(&Lookup::MdnsFailed { message: "socket closed".to_string() });
    assert!(matches!(r, Err(ParameterError::MdnsError(m)) if m == "socket closed"));
}

#[test]
fn registry_match_takes_first_record_first_target() {
    let r = registry_param().get_value(&Lookup::Registry { records: registry() });
    // the record with no targets is passed over; the first record that
    // matches and has a target wins, and its first target is taken
    assert_eq!("second-a", r.unwrap());
}

#[test]
fn registry_no_match_is_service_not_found() {
    let p = Parameter::Service {
        file: "services.json".to_string(),
        key: "role".to_string(),
        value: "cache".to_string(),
    };
    let r = p.get_value(&Lookup::Registry { records: registry() });
    assert!(matches!(r, Err(ParameterError::ServiceNotFound)));
}

#[test]
fn duplicate_label_keys_first_wins() {
    let record = Service::new(
        vec!["t".to_string()],
        vec![("k".to_string(), "v1".to_string()), ("k".to_string(), "v2".to_string())],
    );
    let p = Parameter::Service {
        file: "services.json".to_string(),
        key: "k".to_string(),
        value: "v2".to_string(),
    };
    // the record's first label named `k` holds `v1`, so `v2` never matches
    let r = p.get_value(&Lookup::Registry { records: vec![record] });
    assert!(matches!(r, Err(ParameterError::ServiceNotFound)));
}

#[test]
fn registry_unreadable_is_filesystem_error() {
    let r = registry_param().get_value(&Lookup::Unreadable { message: "no such file".to_string() });
    assert!(matches!(r, Err(ParameterError::FilesystemError(m)) if m == "no such file"));
}

#[test]
fn registry_malformed_is_service_error() {
    let r = registry_param().get_value(&Lookup::Malformed { message: "bad json".to_string() });
    assert!(matches!(r, Err(ParameterError::Service(m)) if m == "bad json"));
}

#[test]
fn resolve_params_keeps_names_and_order() {
    let params = vec![
        ("one".to_string(), Parameter::Value { value: "1".to_string() }),
        ("two".to_string(), Parameter::Mdns {
            service: "_x._tcp".to_string(),
            host: "h".to_string(),
        }),
    ];
    let lookups = vec![Lookup::Static, Lookup::Mdns { found: Some("addr".to_string()) }];
    let values = resolve_params(&params, &lookups).unwrap();
    assert_eq!(
        vec![("one".to_string(), "1".to_string()), ("two".to_string(), "addr".to_string())],
        values
    );
}

#[test]
fn resolve_params_first_failure_wins() {
    let params = vec![
        ("one".to_string(), Parameter::Mdns {
            service: "_x._tcp".to_string(),
            host: "h".to_string(),
        }),
        ("two".to_string(), Parameter::Service {
            file: "f".to_string(),
            key: "k".to_string(),
            value: "v".to_string(),
        }),
    ];
    let lookups = vec![
        Lookup::Mdns { found: None },
        Lookup::Unreadable { message: "gone".to_string() },
    ];
    let r = resolve_params(&params, &lookups);
    assert!(matches!(r, Err(ParameterError::MdnsHostNotFound)));
}

#[test]
fn mqtt_config_from_raw_inline_password() {
    let raw = RawMqttConfig {
        host: "broker".to_string(),
        port: Some(8883),
        username: Some("user".to_string()),
        password: Some(MqttPassword::Raw { password: "SECRET-REDACTED".to_string() }),
    };
    let c = MqttConfig::from_raw(raw, None);
    assert_eq!("broker", c.host);
    assert_eq!(Some(8883), c.port);
    assert_eq!(Some("user".to_string()), c.username);
    assert_eq!(Some("SECRET-REDACTED".to_string()), c.password);
}

#[test]
fn mqtt_config_from_raw_password_file() {
    let raw = RawMqttConfig {
        host: "broker".to_string(),
        port: None,
        username: Some("user".to_string()),
        password: Some(MqttPassword::File { password_file: "/run/secret".to_string() }),
    };
    let c = MqttConfig::from_raw(raw, Some("from-file".to_string()));
    assert_eq!(Some("from-file".to_string()), c.password);
}

#[test]
fn mqtt_config_from_raw_no_password() {
    let raw = RawMqttConfig {
        host: "broker".to_string(),
        port: None,
        username: None,
        password: None,
    };
    let c = MqttConfig::from_raw(raw, None);
    assert_eq!(None, c.password);
    assert_eq!(1883, c.effective_port());
}

#[test]
fn mqtt_credentials_need_both_parts() {
    let both = MqttConfig {
        host: "b".to_string(),
        port: None,
        username: Some("u".to_string()),
        password: Some("p".to_string()),
    };
    assert_eq!(Some(("u".to_string(), "p".to_string())), both.credentials());
    let only_user = MqttConfig {
        host: "b".to_string(),
        port: None,
        username: Some("u".to_string()),
        password: None,
    };
    assert_eq!(None, only_user.credentials());
}
