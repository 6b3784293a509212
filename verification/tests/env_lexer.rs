use runcc::{match_one_env, match_program_with_envs};

fn owned(pair: (Option<(&str, &str)>, &str)) -> (Option<(String, String)>, String) {
    (
        pair.0.map(|(k, v)| (k.to_string(), v.to_string())),
        pair.1.to_string(),
    )
}

#[test]
fn match_one_env_no_env() {
    assert_eq!(match_one_env(""), owned((None, "")));
    assert_eq!(match_one_env("   "), owned((None, "")));
    assert_eq!(match_one_env("cargo"), owned((None, "cargo")));
    assert_eq!(match_one_env("cargo run"), owned((None, "cargo run")));
    assert_eq!(match_one_env("cargo   run"), owned((None, "cargo   run")));
    assert_eq!(match_one_env("   cargo run"), owned((None, "cargo run")));
    assert_eq!(match_one_env("cargo run   "), owned((None, "cargo run")));
    assert_eq!(match_one_env(" cargo   run  "), owned((None, "cargo   run")));
}

#[test]
fn match_one_env_fail() {
    for program in [
        "A=",
        "A= cargo run",
        r#"A="\ ""#,
        r"A='B\xa' cargo run",
        r"A='B\x80' cargo run",
        r"A='B\u' cargo run",
        r"A='B\u1' cargo run",
        r"A='B\u{110000}' cargo run",
        r"A='B\u{fffffffff}' cargo run",
        r"A='B cargo run",
        r"A='B'cargo run",
    ] {
        assert_eq!(match_one_env(program), owned((None, program)));
    }
}

#[test]
fn match_one_env_ok() {
    for (program, k, v, result_program) in [
        ("K=V cargo", "K", "V", "cargo"),
        ("  K=V  cargo   ", "K", "V", "cargo"),
        ("  K=V  cargo  run ", "K", "V", "cargo  run"),
        ("k=v k2=v2 cargo  run ", "k", "v", "k2=v2 cargo  run"),
        ("k='v k2=v2' cargo  run ", "k", "v k2=v2", "cargo  run"),
        (
            r#"k='v\n\t\r\0\'" k2=v2' cargo  run "#,
            "k",
            "v\n\t\r\0'\" k2=v2",
            "cargo  run",
        ),
        (
            r#"k="v\n\t\r\0'\" k2=v2" cargo  run "#,
            "k",
            "v\n\t\r\0'\" k2=v2",
            "cargo  run",
        ),
        (
            r#"SOME_KEY="\x26\x20\x7f" cargo run"#,
            "SOME_KEY",
            "& \x7f",
            "cargo run",
        ),
        (
            r#"SOME_KEY="\u{20}\u{1F600}\u{10ffff}" cargo run"#,
            "SOME_KEY",
            " \u{1F600}\u{10ffff}",
            "cargo run",
        ),
    ] {
        assert_eq!(match_one_env(program), owned((Some((k, v)), result_program)));
    }
}

#[test]
fn lexer_malformed_value_keeps_whole_input() {
    let (pairs, rest) = {
        let (rest, pairs) = match_program_with_envs("A= cargo run");
        (pairs, rest)
    };
    assert!(pairs.is_none());
    assert_eq!(rest, "A= cargo run");
}

#[test]
fn lexer_escaped_value() {
    let (rest, pairs) = match_program_with_envs(r#"K="\x26\u{20}" cargo"#);
    assert_eq!(
        pairs,
        Some(vec![(String::from("K"), String::from("& "))])
    );
    assert_eq!(rest, "cargo");
}

#[test]
fn lexer_multiple_pairs_in_order() {
    let (rest, pairs) = match_program_with_envs("A=1 B=2 cargo run");
    assert_eq!(
        pairs,
        Some(vec![
            (String::from("A"), String::from("1")),
            (String::from("B"), String::from("2")),
        ])
    );
    assert_eq!(rest, "cargo run");
}

#[test]
fn lexer_inline_env_of_shell_command() {
    let (rest, pairs) = match_program_with_envs("KEY=val echo $KEY");
    assert_eq!(pairs, Some(vec![(String::from("KEY"), String::from("val"))]));
    assert_eq!(rest, "echo $KEY");
}

#[test]
fn lexer_no_pairs_gives_none() {
    let (rest, pairs) = match_program_with_envs("  echo a  ");
    assert!(pairs.is_none());
    assert_eq!(rest, "echo a");
}

#[test]
fn value_needs_a_terminator() {
    // a pair is only closed by whitespace after the value
    assert_eq!(match_one_env("K=V"), owned((None, "K=V")));
    assert_eq!(match_one_env("K='v'"), owned((None, "K='v'")));
}

#[test]
fn name_must_match_the_grammar() {
    // an environment name starts with a letter and continues with letters,
    // digits and underscores
    assert_eq!(match_one_env("1X=2 echo"), owned((None, "1X=2 echo")));
    assert_eq!(match_one_env("A-B=x echo"), owned((None, "A-B=x echo")));
    assert_eq!(
        match_one_env("A_1=x echo"),
        owned((Some(("A_1", "x")), "echo"))
    );
}

#[test]
fn unicode_escape_takes_one_to_six_digits() {
    assert_eq!(
        match_one_env(r"K='\u{000026}' x"),
        owned((Some(("K", "&")), "x"))
    );
    // a seventh digit makes the escape malformed
    assert_eq!(
        match_one_env(r"K='\u{0000026}' x"),
        owned((None, r"K='\u{0000026}' x"))
    );
}

#[test]
fn hex_digit_values() {
    assert_eq!(runcc::try_hex_to_u8('0'), Some(0));
    assert_eq!(runcc::try_hex_to_u8('9'), Some(9));
    assert_eq!(runcc::try_hex_to_u8('a'), Some(10));
    assert_eq!(runcc::try_hex_to_u8('F'), Some(15));
    assert_eq!(runcc::try_hex_to_u8('g'), None);
    assert_eq!(runcc::try_hex_to_u8(' '), None);
}

#[test]
fn trim_str_both_ends() {
    assert_eq!(runcc::trim_str("  a b  "), "a b");
    assert_eq!(runcc::trim_str("\t\n"), "");
    assert_eq!(runcc::trim_str("x"), "x");
}
