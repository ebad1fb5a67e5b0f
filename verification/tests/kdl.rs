use zellij_palette::kdl::escape_kdl_string;

#[test]
fn plain_names_pass_through() {
    assert_eq!(escape_kdl_string("gruvbox-dark"), "gruvbox-dark");
    assert_eq!(escape_kdl_string(""), "");
}

#[test]
fn quotes_and_backslashes_are_escaped() {
    assert_eq!(escape_kdl_string(r#"weird"name"#), r#"weird\"name"#);
    assert_eq!(escape_kdl_string(r"with\backslash"), r"with\\backslash");
    assert_eq!(escape_kdl_string(r#"both"and\here"#), r#"both\"and\\here"#,);
}

#[test]
fn injection_attempt_stays_inside_one_kdl_string() {
    let evil = "x\"\\ntheme \"real-one";
    let escaped = escape_kdl_string(evil);
    assert_eq!(escaped, r#"x\"\\ntheme \"real-one"#);
}

#[test]
fn non_ascii_characters_pass_through_unchanged() {
    assert_eq!(escape_kdl_string("thème·\"é\""), "thème·\\\"é\\\"");
}

#[test]
fn escaping_adds_one_backslash_per_quote_or_backslash() {
    let input = "a\\\"b\"\\";
    let escaped = escape_kdl_string(input);
    let special = input.chars().filter(|c| *c == '"' || *c == '\\').count();
    assert_eq!(escaped.chars().count(), input.chars().count() + special);
    let chars: Vec<char> = escaped.chars().collect();
    for (i, c) in chars.iter().enumerate() {
        if *c == '"' {
            let run = chars[..i].iter().rev().take_while(|d| **d == '\\').count();
            assert_eq!(run % 2, 1);
        }
    }
    assert_eq!(escape_kdl_string("plain text"), "plain text");
}
