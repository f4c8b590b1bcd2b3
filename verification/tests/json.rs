use git_drive::config::json::{deserialize_config_json, JsonError};
use git_drive::config::Config;
use git_drive::data::{Driver, Id, Navigator};

fn nav1() -> Navigator {
    Navigator {
        alias: Id::from(String::from("nav1")),
        name: String::from("bernd"),
        email: String::from("foo@bar.org"),
    }
}

fn nav2() -> Navigator {
    Navigator {
        alias: Id::from(String::from("nav2")),
        name: String::from("ronny"),
        email: String::from("baz@bar.org"),
    }
}

fn drv1(key: Option<&'static str>) -> Driver {
    Driver {
        navigator: Navigator {
            alias: Id::from(String::from("drv1")),
            name: String::from("ralle"),
            email: String::from("qux@bar.org"),
        },
        key: key.map(String::from),
    }
}

const BOTH: &str = r#"{
                "navigators": [{
                    "alias": "nav1",
                    "name": "bernd",
                    "email": "foo@bar.org"
                }, {
                    "alias": "nav2",
                    "name": "ronny",
                    "email": "baz@bar.org"
                }],
                "drivers": [{
                    "alias": "drv1",
                    "name": "ralle",
                    "email": "qux@bar.org"
                }]
            }"#;

const ESCAPES: &str = r#"{
                "navigators": [{
                    "alias": "nav",
                    "name": "foo \uD83D\uDE05 bar\tbaz \u03c0 ",
                    "email": "\"foo\"@\\\/bar.org\r\n"
                }]
            }"#;

const BROKEN: &str = r#"{
                "navigators": [{
                    "alias": "nav",
                    "name": "\uD7FE\uDCFF",
                    "email": "foo"
                }]
            }"#;

#[test]
fn json_deserialize_json() {
    let config = deserialize_config_json(BOTH).unwrap();

    let expected = Config {
        navigators: vec![nav1(), nav2()],
        drivers: vec![drv1(None)],
    };
    assert_eq!(config, expected);
}

#[test]
fn json_deserialize_escapes() {
    let config = deserialize_config_json(ESCAPES).unwrap();

    let expected = Config::from_navigators(vec![Navigator {
        alias: Id::from(String::from("nav")),
        name: String::from("foo 😅 bar\tbaz π "),
        email: String::from("\"foo\"@\\/bar.org\r\n"),
    }]);
    assert_eq!(config, expected);
}

#[test]
fn json_deserialize_broken_escapes() {
    let config = deserialize_config_json(BROKEN).unwrap();

    let expected = Config::from_navigators(vec![Navigator {
        alias: Id::from(String::from("nav")),
        name: String::from("\u{d7fe}\u{fffd}"),
        email: String::from("foo"),
    }]);
    assert_eq!(config, expected);
}

#[test]
fn config_deserialize_json() {
    let config = deserialize_config_json(BOTH).unwrap();

    let expected = Config {
        navigators: vec![nav1(), nav2()],
        drivers: vec![drv1(None)],
    };
    assert_eq!(config, expected);
}

#[test]
fn config_deserialize_broken_escapes() {
    let config = deserialize_config_json(BROKEN).unwrap();

    let expected = Config::from_navigators(vec![Navigator {
        alias: Id::from(String::from("nav")),
        name: String::from("\u{d7fe}\u{fffd}"),
        email: String::from("foo"),
    }]);
    assert_eq!(config, expected);
}

fn name_of(escaped: &str) -> Result<String, JsonError> {
    let text = format!(
        r#"{{"navigators":[{{"alias":"a","name":"{}","email":"e"}}]}}"#,
        escaped
    );
    deserialize_config_json(&text).map(|c| c.navigators[0].name.clone())
}

#[test]
fn surrogate_pair_makes_one_character() {
    assert_eq!(name_of(r"\uD83D\uDE05").unwrap(), "\u{1F605}");
    assert_eq!(name_of(r"\uD800\uDC00").unwrap(), "\u{10000}");
    assert_eq!(name_of(r"\uDBFF\uDFFF").unwrap(), "\u{10FFFF}");
    assert_eq!(name_of(r"\ud840\udc00").unwrap(), "\u{20000}");
}

#[test]
fn half_a_pair_makes_the_replacement_character() {
    assert_eq!(name_of(r"\uD83Dx").unwrap(), "\u{FFFD}x");
    assert_eq!(name_of(r"\uD83D").unwrap(), "\u{FFFD}");
    assert_eq!(name_of(r"\uD83D\n").unwrap(), "\u{FFFD}\n");
    assert_eq!(name_of(r"\uD83D\u0041").unwrap(), "\u{FFFD}A");
    assert_eq!(name_of(r"\uD83D\uD83D\uDE05").unwrap(), "\u{FFFD}\u{1F605}");
    assert_eq!(name_of(r"\uDE05\uD83D").unwrap(), "\u{FFFD}\u{FFFD}");
}

#[test]
fn escapes_stand_for_their_characters() {
    assert_eq!(
        name_of(r#"\"\\\/\b\f\n\r\t"#).unwrap(),
        "\"\\/\u{8}\u{c}\n\r\t"
    );
    assert_eq!(name_of(r"\u0041\u00e9\u4e2D").unwrap(), "Aé中");
    assert_eq!(name_of(r"\u12zz").unwrap(), "\u{12}");
}

#[test]
fn malformed_escapes_are_refused() {
    assert!(name_of(r"\x").is_err());
    assert!(name_of(r"\uzzzz").is_err());
    assert!(name_of(r"\u12").is_err());
    assert!(name_of(r"\").is_err());
}

#[test]
fn positions_count_characters() {
    assert_eq!(deserialize_config_json("").unwrap_err().position, 0);
    assert_eq!(deserialize_config_json("  [").unwrap_err().position, 2);
    assert_eq!(deserialize_config_json("{}").unwrap_err().position, 1);
    assert_eq!(
        deserialize_config_json(r#"{"navigators": []} "#)
            .unwrap_err()
            .position,
        18
    );
    assert_eq!(
        deserialize_config_json(r#"{"ηavigators": []}"#)
            .unwrap_err()
            .position,
        1
    );
    let err = deserialize_config_json(r#"{"navigators":[{"alias":"é","name":"b"}]}"#).unwrap_err();
    assert_eq!(err.position, 16);
    assert_eq!(
        err.to_string(),
        "The legacy config is malformed at character 16."
    );
}

#[test]
fn whitespace_may_stand_between_tokens() {
    let text = " \t\r\n{ \"drivers\" \n:\t[ \r\n ] , \"navigators\" : [ { \"alias\" : \"a\" , \"email\":\"e\",\"name\":\"n\" } ] }";
    let config = deserialize_config_json(text).unwrap();
    assert_eq!(
        config,
        Config::from_navigators(vec![Navigator {
            alias: Id::new("a"),
            name: String::from("n"),
            email: String::from("e"),
        }])
    );
}

#[test]
fn drivers_may_have_a_key() {
    let text = r#"{"drivers":[
        {"alias":"a","name":"n","email":"e","key":"k.pub"},
        {"alias":"b","name":"n","email":"e","key":null},
        {"alias":"c","name":"n","email":"e","key":""},
        {"key":"first","alias":"d","name":"n","email":"e","key":"last"},
        {"alias":"e","name":"n","email":"e"}
    ]}"#;
    let config = deserialize_config_json(text).unwrap();
    let keys: Vec<Option<&str>> = config.drivers.iter().map(|d| d.key.as_deref()).collect();
    assert_eq!(keys, vec![Some("k.pub"), None, None, Some("last"), None]);
    assert!(config.navigators.is_empty());
}

#[test]
fn navigators_may_not_have_a_key() {
    let text = r#"{"navigators":[{"alias":"a","name":"n","email":"e","key":"k"}]}"#;
    assert!(deserialize_config_json(text).is_err());
}

#[test]
fn unknown_and_missing_fields_are_refused() {
    for text in [
        r#"{"navigators":[{"alias":"a","name":"n"}]}"#,
        r#"{"navigators":[{"alias":"a","name":"n","email":"e","age":"3"}]}"#,
        r#"{"navigators":[{"alias":"a","name":"n","email":"e",}]}"#,
        r#"{"navigators":[{}]}"#,
        r#"{"navigators":[{"alias":"a","name":"n","email":"e"},]}"#,
        r#"{"navigators":[],}"#,
        r#"{"pilots":[]}"#,
        r#"{"navigators":[{"alias":"a","name":"n","email":null}]}"#,
        r#"{"navigators":[{"alias":"a","name":"n","email":"e"}]"#,
        r#"{"navigators":[{"alias":"a","name":"n","email":"e}]}"#,
    ] {
        assert!(deserialize_config_json(text).is_err(), "read {}", text);
    }
}

#[test]
fn a_later_member_replaces_an_earlier_one() {
    let text = r#"{"navigators":[{"alias":"a","name":"n","email":"e"}],"navigators":[],
        "drivers":[{"alias":"x","name":"first","email":"e","name":"second"}]}"#;
    let config = deserialize_config_json(text).unwrap();
    assert!(config.navigators.is_empty());
    assert_eq!(config.drivers[0].navigator.name, "second");
}
