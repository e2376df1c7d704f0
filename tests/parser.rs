use from_posix::{exports_to_nushell, parse_posix_exports, Export};

#[test]
fn test_simple_export() {
    let input = "export FOO=bar";
    let exports = parse_posix_exports(input);
    assert_eq!(exports.len(), 1);
    assert_eq!(exports[0].name, "FOO");
    assert_eq!(exports[0].value, "bar");
}

#[test]
fn test_multiple_exports_same_line() {
    let input = "export FOO=bar && export BAZ=qux";
    let exports = parse_posix_exports(input);
    assert_eq!(exports.len(), 2);
    assert_eq!(exports[0].name, "FOO");
    assert_eq!(exports[0].value, "bar");
    assert_eq!(exports[1].name, "BAZ");
    assert_eq!(exports[1].value, "qux");
}

#[test]
fn test_multiple_vars_one_export() {
    let input = "export FOO=bar BAZ=qux";
    let exports = parse_posix_exports(input);
    assert_eq!(exports.len(), 2);
    assert_eq!(exports[0].name, "FOO");
    assert_eq!(exports[0].value, "bar");
    assert_eq!(exports[1].name, "BAZ");
    assert_eq!(exports[1].value, "qux");
}

#[test]
fn test_quoted_values() {
    let input = r#"export FOO="hello world" && export BAR='single quotes'"#;
    let exports = parse_posix_exports(input);
    assert_eq!(exports.len(), 2);
    assert_eq!(exports[0].name, "FOO");
    assert_eq!(exports[0].value, "hello world");
    assert_eq!(exports[1].name, "BAR");
    assert_eq!(exports[1].value, "single quotes");
}

#[test]
fn test_escaped_quotes() {
    let input = r#"export FOO="hello \"world\"""#;
    let exports = parse_posix_exports(input);
    assert_eq!(exports.len(), 1);
    assert_eq!(exports[0].name, "FOO");
    assert_eq!(exports[0].value, "hello \"world\"");
}

#[test]
fn test_multiline_input() {
    let input = "export FOO=bar\nexport BAZ=qux";
    let exports = parse_posix_exports(input);
    assert_eq!(exports.len(), 2);
    assert_eq!(exports[0].name, "FOO");
    assert_eq!(exports[0].value, "bar");
    assert_eq!(exports[1].name, "BAZ");
    assert_eq!(exports[1].value, "qux");
}

#[test]
fn test_to_nushell() {
    let exports = vec![
        Export { name: "FOO".to_string(), value: "bar".to_string() },
        Export { name: "PATH".to_string(), value: "/usr/bin:/bin".to_string() },
        Export { name: "MESSAGE".to_string(), value: "hello world".to_string() },
    ];

    let nushell = exports_to_nushell(exports);
    let expected = "$env.FOO = bar\n$env.PATH = /usr/bin:/bin\n$env.MESSAGE = \"hello world\"";
    assert_eq!(nushell, expected);
}
