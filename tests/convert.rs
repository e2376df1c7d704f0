use from_posix::{convert, exports_to_nushell, parse_posix_exports, Export};

fn export(name: &str, value: &str) -> Export {
    Export { name: name.to_string(), value: value.to_string() }
}

#[test]
fn single_plain_export() {
    assert_eq!(convert("export NAME=value"), "$env.NAME = value");
    assert_eq!(convert("export PATH=/usr/bin:/bin"), "$env.PATH = /usr/bin:/bin");
}

#[test]
fn chained_exports_any_spacing() {
    let expected = "$env.A = 1\n$env.B = 2";
    assert_eq!(convert("export A=1 && export B=2"), expected);
    assert_eq!(convert("export A=1&&export B=2"), expected);
    assert_eq!(convert("  export A=1   &&\texport B=2  "), expected);
}

#[test]
fn several_assignments_under_one_keyword() {
    assert_eq!(convert("export A=1 B=2"), convert("export A=1\nexport B=2"));
    assert_eq!(convert("export A=1 B=2"), "$env.A = 1\n$env.B = 2");
    assert_eq!(convert("export A=1\tB=2"), "$env.A = 1\n$env.B = 2");
}

#[test]
fn double_quoted_space_round_trip() {
    let exports = parse_posix_exports("export M=\"hello world\"");
    assert_eq!(exports, vec![export("M", "hello world")]);
    assert_eq!(convert("export M=\"hello world\""), "$env.M = \"hello world\"");
}

#[test]
fn escaped_quotes_round_trip() {
    let input = r#"export F="hello \"world\"""#;
    assert_eq!(parse_posix_exports(input), vec![export("F", "hello \"world\"")]);
    assert_eq!(convert(input), r#"$env.F = "hello \"world\"""#);
}

#[test]
fn single_quotes_are_literal() {
    let input = r"export B='a\nb'";
    assert_eq!(parse_posix_exports(input), vec![export("B", r"a\nb")]);
    assert_eq!(convert(input), r#"$env.B = "a\\nb""#);
}

#[test]
fn lines_keep_their_order() {
    assert_eq!(convert("export A=1\nexport B=2"), "$env.A = 1\n$env.B = 2");
    assert_eq!(convert("export B=2\r\nexport A=1\n"), "$env.B = 2\n$env.A = 1");
}

#[test]
fn empty_value_is_quoted() {
    assert_eq!(convert("export E="), "$env.E = \"\"");
    assert_eq!(convert("export E=''"), "$env.E = \"\"");
}

#[test]
fn other_statements_are_dropped() {
    assert_eq!(convert("echo hi\nexport A=1"), "$env.A = 1");
    assert_eq!(convert("# comment\nunset X && export A=1 && ls"), "$env.A = 1");
}

#[test]
fn plain_value_survives_render_and_decode() {
    for v in ["abc", "/usr/bin:/bin", "x=y", "", "a,b;c"] {
        let line = exports_to_nushell(vec![export("V", v)]);
        let rendered = line.strip_prefix("$env.V = ").unwrap();
        let back = parse_posix_exports(&format!("export V={}", rendered));
        assert_eq!(back, vec![export("V", v)]);
    }
}

#[test]
fn unterminated_quote_is_kept_verbatim() {
    let input = "export A=\"unterminated";
    let exports = parse_posix_exports(input);
    assert!(exports.len() <= 1);
    assert_eq!(exports, vec![export("A", "\"unterminated")]);
    assert_eq!(convert(input), convert(input));
    assert_eq!(convert("export A=\""), "$env.A = \"\\\"\"");
    assert_eq!(convert("export A='"), "$env.A = \"'\"");
}

#[test]
fn empty_and_bare_keyword() {
    assert_eq!(convert(""), "");
    assert_eq!(convert("export"), "");
    assert_eq!(convert("export   "), "");
    assert_eq!(convert("export NOVALUE"), "");
    assert!(parse_posix_exports("\n\n&&").is_empty());
}

#[test]
fn keyword_without_separator() {
    assert_eq!(convert("exportFOO=bar"), "$env.FOO = bar");
}

#[test]
fn escapes_decode_in_one_pass() {
    let exports = parse_posix_exports(r#"export A="x\\ny" B="t\tr\r" C="q\z""#);
    assert_eq!(
        exports,
        vec![export("A", "x\\ny"), export("B", "t\tr\r"), export("C", "q\\z")]
    );
}

#[test]
fn rendering_escapes_backslash_before_quote() {
    let out = exports_to_nushell(vec![export("P", "a\\\"b"), export("D", "$HOME")]);
    assert_eq!(out, "$env.P = \"a\\\\\\\"b\"\n$env.D = \"$HOME\"");
}

#[test]
fn duplicate_names_are_all_kept() {
    assert_eq!(convert("export A=1 A=2"), "$env.A = 1\n$env.A = 2");
}

#[test]
fn name_is_text_before_first_equals() {
    assert_eq!(parse_posix_exports("export K=a=b"), vec![export("K", "a=b")]);
    assert_eq!(parse_posix_exports("export =v"), vec![export("", "v")]);
}

#[test]
fn unicode_whitespace_is_trimmed() {
    assert_eq!(convert("\u{3000}export A=\u{a0}x\u{a0}"), "$env.A = x");
}

#[test]
fn escaped_quote_does_not_close() {
    assert_eq!(parse_posix_exports(r#"export A='it\'s ok' B=2"#), vec![export("A", r"it\'s ok"), export("B", "2")]);
}
