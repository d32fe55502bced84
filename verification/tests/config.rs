use tcap::config::{load, path, unparsable, Config, FileRead, Loaded};

#[test]
fn the_config_is_where_the_environment_says() {
    let p = |a: Option<&str>, b: Option<&str>, c: Option<&str>| {
        path(
            a.map(str::as_bytes),
            b.map(str::as_bytes),
            c.map(str::as_bytes),
        )
        .map(|(p, explicit)| (String::from_utf8(p).unwrap(), explicit))
    };
    assert_eq!(
        p(Some("/my.toml"), Some("/x"), Some("/h")),
        Some(("/my.toml".to_string(), true))
    );
    assert_eq!(
        p(Some(""), Some("/x"), Some("/h")),
        Some(("/x/tcap/config.toml".to_string(), false))
    );
    assert_eq!(
        p(None, Some(""), Some("/h")),
        Some(("/h/.config/tcap/config.toml".to_string(), false))
    );
    assert_eq!(
        p(None, None, Some("/")),
        Some(("/.config/tcap/config.toml".to_string(), false))
    );
    assert_eq!(
        p(None, None, Some("")),
        Some((".config/tcap/config.toml".to_string(), false))
    );
    assert_eq!(p(None, None, None), None);
}

#[test]
fn paths_agree_with_those_of_the_standard_library() {
    for base in ["/x", "/x/", "x", "/", "x//"] {
        let want = std::path::Path::new(base).join("tcap").join("config.toml");
        let got = path(None, Some(base.as_bytes()), None).unwrap().0;
        assert_eq!(String::from_utf8(got).unwrap(), want.to_str().unwrap());
    }
}

#[test]
fn a_missing_file_matters_only_where_it_was_named() {
    assert!(matches!(
        load(Some(("/c", false)), FileRead::Missing),
        Ok(Loaded::Defaults)
    ));
    let named = load(Some(("/c", true)), FileRead::Missing);
    assert_eq!(
        named.err().unwrap().chain(),
        "no config at /c (named by $TCAP_CONFIG)"
    );
    assert!(matches!(
        load(None, FileRead::Missing),
        Ok(Loaded::Defaults)
    ));
}

#[test]
fn a_file_that_cannot_be_read_is_an_error() {
    for explicit in [false, true] {
        let r = load(Some(("/c", explicit)), FileRead::Failed("denied".into()));
        assert_eq!(r.err().unwrap().chain(), "reading /c: denied");
    }
}

#[test]
fn text_is_handed_on_and_its_errors_name_the_file() {
    match load(Some(("/c", false)), FileRead::Text("quiet = true".into())) {
        Ok(Loaded::Text(t)) => assert_eq!(t, "quiet = true"),
        _ => panic!("the text is lost"),
    }
    assert_eq!(unparsable("/c", "line 1".into()).chain(), "in /c: line 1");
}

#[test]
fn a_config_with_a_key_is_not_the_default() {
    assert!(Config::default().is_default());
    let c = Config {
        copy: Some(false),
        ..Config::default()
    };
    assert!(!c.is_default());
    assert_ne!(c, Config::default());
}
