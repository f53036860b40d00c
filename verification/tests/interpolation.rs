use prometheus_edge_trigger::config::{Lookup, Parameter};
use prometheus_edge_trigger::interpolate::{
    interpolate, interpolate_option_params, interpolate_params, replace_all,
};

#[test]
fn test_interpolate() {
    let result = interpolate_params(
        "foo_$param",
        &vec![(
            "param".to_string(),
            Parameter::Value { value: "bar".to_string() },
        )],
        &vec![Lookup::Static],
    );
    assert_eq!("foo_bar".to_string(), result.unwrap());
}

#[test]
fn interpolate_empty_template() {
    let result = interpolate_params(
        "",
        &vec![(
            "param".to_string(),
            Parameter::Value { value: "bar".to_string() },
        )],
        &vec![Lookup::Static],
    );
    assert_eq!("", result.unwrap());
}

#[test]
fn interpolate_no_params() {
    let result = interpolate_params("foo_$param", &vec![], &vec![]);
    assert_eq!("foo_$param", result.unwrap());
}

#[test]
fn interpolate_repeated_token() {
    let values = vec![("a".to_string(), "x".to_string())];
    assert_eq!("x-x-x", interpolate("$a-$a-$a", &values));
}

#[test]
fn interpolate_two_params_leaves_no_token() {
    let values = vec![
        ("host".to_string(), "one".to_string()),
        ("port".to_string(), "2".to_string()),
    ];
    let out = interpolate("http://$host:$port/metrics", &values);
    assert_eq!("http://one:2/metrics", out);
    assert!(!out.contains("$host"));
    assert!(!out.contains("$port"));
}

#[test]
fn value_spelling_a_token_reintroduces_it() {
    // substitution is literal: a value that spells a declared token puts
    // that token right back, which is why the no-token-remains guarantee
    // asks for values that share no character with any token
    let values = vec![("a".to_string(), "$a".to_string())];
    assert_eq!("foo_$a", interpolate("foo_$a", &values));
}

#[test]
fn replace_all_non_overlapping() {
    assert_eq!("xx", replace_all("aaaa", "aa", "x"));
    assert_eq!("left a right", replace_all("left $p right", "$p", "a"));
    assert_eq!("no match", replace_all("no match", "$p", "a"));
}

#[test]
fn interpolate_unused_param_still_resolves() {
    // resolving every declared parameter is attempted even when the
    // template references none of them, so an unresolvable one fails
    let result = interpolate_params(
        "constant",
        &vec![(
            "unused".to_string(),
            Parameter::Mdns { service: "_http._tcp".to_string(), host: "missing".to_string() },
        )],
        &vec![Lookup::Mdns { found: None }],
    );
    assert!(result.is_err());
}

#[test]
fn interpolate_option_absent_stays_absent() {
    let result = interpolate_option_params(
        &None,
        &vec![(
            "p".to_string(),
            Parameter::Mdns { service: "_http._tcp".to_string(), host: "missing".to_string() },
        )],
        &vec![Lookup::Mdns { found: None }],
    );
    // an absent template resolves nothing, so it cannot fail either
    assert_eq!(None, result.unwrap());
}

#[test]
fn interpolate_option_present_is_interpolated() {
    let result = interpolate_option_params(
        &Some("hello $name".to_string()),
        &vec![(
            "name".to_string(),
            Parameter::Value { value: "world".to_string() },
        )],
        &vec![Lookup::Static],
    );
    assert_eq!(Some("hello world".to_string()), result.unwrap());
}
