use posix_locale::{Error, Locale};

fn locale(language: &str, country: Option<&str>, encoding: Option<&str>, modifier: Option<&str>) -> Locale {
    Locale {
        language: language.to_string(),
        country: country.map(|s| s.to_string()),
        encoding: encoding.map(|s| s.to_string()),
        modifier: modifier.map(|s| s.to_string()),
    }
}

fn unexpected(text: &str) -> (char, usize, String) {
    match Locale::parse(text) {
        Err(Error::UnexpectedCharacterRecieved(c, i, t)) => (c, i, t),
        Ok(l) => panic!("{:?} parsed to {:?}", text, l),
    }
}

#[test]
fn parse_full() -> std::result::Result<(), Error> {
    let result = Locale::parse("lang_COUNTRY.ENCODING@MODIFIER")?;
    assert_eq!(result.language, "lang");
    assert_eq!(result.country, Some("COUNTRY".into()));
    assert_eq!(result.encoding, Some("ENCODING".into()));
    assert_eq!(result.modifier, Some("MODIFIER".into()));
    Ok(())
}

#[test]
fn parse_rest() {
    let tests = vec![
        (
            "lang_COUNTRY",
            Locale {
                language: "lang".into(),
                country: Some("COUNTRY".into()),
                encoding: None,
                modifier: None,
            },
        ),
        (
            "lang@MODIFIER",
            Locale {
                language: "lang".into(),
                country: None,
                encoding: None,
                modifier: Some("MODIFIER".into()),
            },
        ),
        (
            "justLang",
            Locale {
                language: "justLang".into(),
                country: None,
                encoding: None,
                modifier: None,
            },
        ),
    ];
    for (example, expected_result) in tests {
        assert_eq!(Locale::parse(example).unwrap(), expected_result);
    }
}

#[test]
fn country_delimiter_twice() {
    assert_eq!(unexpected("a_b_c"), ('_', 3, "a_b_c".to_string()));
}

#[test]
fn country_after_encoding() {
    assert_eq!(unexpected("a.b_c"), ('_', 3, "a.b_c".to_string()));
}

#[test]
fn modifier_delimiter_twice() {
    assert_eq!(unexpected("a.b@c@d"), ('@', 5, "a.b@c@d".to_string()));
}

#[test]
fn encoding_after_modifier() {
    assert_eq!(unexpected("a@b.c"), ('.', 3, "a@b.c".to_string()));
}

#[test]
fn encoding_delimiter_twice() {
    assert_eq!(unexpected("en_US.UTF.8"), ('.', 9, "en_US.UTF.8".to_string()));
}

#[test]
fn first_violation_is_reported() {
    assert_eq!(unexpected("x@@_."), ('@', 2, "x@@_.".to_string()));
}

#[test]
fn error_index_counts_characters() {
    assert_eq!(unexpected("é.ü_x"), ('_', 3, "é.ü_x".to_string()));
}

#[test]
fn empty_input() {
    assert_eq!(Locale::parse("").unwrap(), locale("", None, None, None));
}

#[test]
fn empty_sections() {
    assert_eq!(Locale::parse("lang_.@").unwrap(), locale("lang", Some(""), Some(""), Some("")));
    assert_eq!(Locale::parse("lang_.MOD@").unwrap(), locale("lang", Some(""), Some("MOD"), Some("")));
}

#[test]
fn leading_delimiter_gives_empty_language() {
    assert_eq!(Locale::parse("_US").unwrap(), locale("", Some("US"), None, None));
    assert_eq!(Locale::parse("@euro").unwrap(), locale("", None, None, Some("euro")));
}

#[test]
fn country_may_be_skipped() {
    assert_eq!(Locale::parse("C.UTF-8").unwrap(), locale("C", None, Some("UTF-8"), None));
    assert_eq!(Locale::parse("de.ISO-8859-1@euro").unwrap(), locale("de", None, Some("ISO-8859-1"), Some("euro")));
}

#[test]
fn text_without_delimiters_is_language() {
    assert_eq!(Locale::parse(" en US-1 ü ").unwrap(), locale(" en US-1 ü ", None, None, None));
}

#[test]
fn sections_kept_verbatim() {
    assert_eq!(
        Locale::parse("sr_RS.UTF-8@latin").unwrap(),
        locale("sr", Some("RS"), Some("UTF-8"), Some("latin"))
    );
    assert_eq!(Locale::parse("Ab c_ D e.f G@ h ").unwrap(), locale("Ab c", Some(" D e"), Some("f G"), Some(" h ")));
}

#[test]
fn parsing_twice_gives_equal_results() {
    for text in ["en_GB.UTF-8@x", "a_b_c", "", "."] {
        assert_eq!(Locale::parse(text), Locale::parse(text));
    }
}

#[test]
fn try_from_matches_parse() {
    let l = Locale::try_from("pt_BR.UTF-8".to_string()).unwrap();
    assert_eq!(l, locale("pt", Some("BR"), Some("UTF-8"), None));
    match Locale::try_from("a@b@".to_string()) {
        Err(Error::UnexpectedCharacterRecieved(c, i, t)) => {
            assert_eq!((c, i, t), ('@', 3, "a@b@".to_string()));
        }
        Ok(l) => panic!("parsed to {:?}", l),
    }
}
