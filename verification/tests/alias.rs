use room_directory::alias::{parse, Authority};
use room_directory::error::DirectoryError;

#[test]
fn parse_splits_sigil_localpart_and_domain() {
    let parsed = parse("#my_room:example.org").unwrap();
    assert_eq!(parsed.localpart, "my_room");
    assert_eq!(parsed.domain, "example.org");
}

#[test]
fn parse_shortest_alias() {
    let parsed = parse("#a:b").unwrap();
    assert_eq!(parsed.localpart, "a");
    assert_eq!(parsed.domain, "b");
}

#[test]
fn parse_counts_characters_not_bytes() {
    let parsed = parse("#caf\u{e9}\u{4e2d}:b\u{fc}cher.example").unwrap();
    assert_eq!(parsed.localpart, "caf\u{e9}\u{4e2d}");
    assert_eq!(parsed.domain, "b\u{fc}cher.example");
}

#[test]
fn parse_rejects_empty_string() {
    assert_eq!(parse("").unwrap_err(), DirectoryError::MalformedAlias);
}

#[test]
fn parse_rejects_missing_sigil() {
    assert_eq!(parse("my_room:example.org").unwrap_err(), DirectoryError::MalformedAlias);
    assert_eq!(parse("!my_room:example.org").unwrap_err(), DirectoryError::MalformedAlias);
}

#[test]
fn parse_rejects_empty_localpart() {
    assert_eq!(parse("#:example.org").unwrap_err(), DirectoryError::MalformedAlias);
    assert_eq!(parse(":example.org").unwrap_err(), DirectoryError::MalformedAlias);
}

#[test]
fn parse_rejects_missing_separator() {
    assert_eq!(parse("#my_room").unwrap_err(), DirectoryError::MalformedAlias);
    assert_eq!(parse("#").unwrap_err(), DirectoryError::MalformedAlias);
}

#[test]
fn parse_rejects_empty_domain() {
    assert_eq!(parse("#my_room:").unwrap_err(), DirectoryError::MalformedAlias);
}

#[test]
fn parse_rejects_extra_separator() {
    assert_eq!(parse("#my_room:example.org:8448").unwrap_err(), DirectoryError::MalformedAlias);
    assert_eq!(parse("#my::example.org").unwrap_err(), DirectoryError::MalformedAlias);
    assert_eq!(parse("#a:b:").unwrap_err(), DirectoryError::MalformedAlias);
}

#[test]
fn parse_rejects_whitespace_and_control_characters() {
    for alias in [
        "#my room:example.org",
        " #my_room:example.org",
        "#my_room:example.org ",
        "#my_room:exa\tmple.org",
        "#my_room:example.org\n",
        "#my\u{0}room:example.org",
        "#my\u{7f}room:example.org",
        "#my\u{85}room:example.org",
        "#my\u{a0}room:example.org",
        "#my\u{2003}room:example.org",
        "#my\u{3000}room:example.org",
    ] {
        assert_eq!(parse(alias).unwrap_err(), DirectoryError::MalformedAlias, "{:?}", alias);
    }
}

#[test]
fn parse_accepts_characters_next_to_the_disallowed_ranges() {
    for alias in ["#!~:example.org", "#\u{a1}:example.org", "#\u{200b}:example.org"] {
        assert!(parse(alias).is_ok(), "{:?}", alias);
    }
}

#[test]
fn local_authority_is_one_of_the_configured_domains() {
    let authority =
        Authority::new(vec!["example.org".to_string(), "chat.example.org".to_string()]);
    assert!(authority.is_local_authority("example.org"));
    assert!(authority.is_local_authority("chat.example.org"));
    assert!(!authority.is_local_authority("remote.example"));
    assert!(!authority.is_local_authority("Example.org"));
    assert!(!authority.is_local_authority("example.or"));
    assert!(!authority.is_local_authority(""));
}

#[test]
fn no_domain_is_local_without_configuration() {
    let authority = Authority::new(Vec::new());
    assert!(!authority.is_local_authority("example.org"));
}
