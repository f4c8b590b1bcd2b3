use git_drive::config::Config;
use git_drive::data::{Driver, Field, Id, Kind, Modification, Navigator, PartialNav};
use git_drive::new::run;
use git_drive::ui::validation::{
    blank, AndThen, CheckForEmpty, CheckMode, Lookup, NoOp, Validator,
};
use git_drive::ui::{
    checked_answer, id_at, ids_at, initial_text, prompt_for, selectable_items, verify_alias,
    MsgTemplate, PromptAlias, PromptText, Selectable, UiError,
};

fn nav1() -> Navigator {
    Navigator {
        alias: Id::from("nav1"),
        name: String::from("bernd"),
        email: String::from("foo@bar.org"),
    }
}

fn drv1(key: Option<&'static str>) -> Driver {
    Driver {
        navigator: Navigator {
            alias: Id::from("drv1"),
            name: String::from("ralle"),
            email: String::from("qux@bar.org"),
        },
        key: key.map(String::from),
    }
}

struct Typing {
    alias: &'static str,
    attempts: Vec<&'static str>,
}

impl PromptText for Typing {
    fn prompt_for_text<V: Validator>(
        &mut self,
        field: Field,
        _id: &str,
        initial: Option<String>,
        mut validator: V,
    ) -> Result<String, UiError> {
        assert_eq!(initial, None);
        while !self.attempts.is_empty() {
            let attempt = self.attempts.remove(0);
            if validator.validate(attempt).is_ok() {
                return Ok(String::from(attempt));
            }
        }
        Ok(match field {
            Field::Key => String::new(),
            _ => String::from(" "),
        })
    }
}

impl PromptAlias for Typing {
    fn prompt_for_alias<V: Validator>(&mut self, _kind: Kind, mut validator: V) -> Result<String, UiError> {
        let _ = validator.validate(self.alias);
        Ok(String::from(self.alias))
    }
}

#[test]
fn empty_check_takes_turns_with_its_sentences() {
    let mut check = CheckForEmpty::new(Field::Name);
    assert_eq!(check.validate("x"), Ok(()));
    assert_eq!(
        check.validate("").unwrap_err().to_string(),
        "The name must not be empty."
    );
    assert_eq!(
        check.validate(" \t\n").unwrap_err().to_string(),
        "Please enter a non-empty name."
    );
    assert_eq!(check.validate(" x "), Ok(()));
    assert_eq!(
        check.validate("\u{3000}").unwrap_err().to_string(),
        "The name must not be empty."
    );
    let mut lenient = CheckForEmpty::new(Field::Key).with_allow_empty(true);
    assert_eq!(lenient.validate(""), Ok(()));
    assert_eq!(lenient, CheckForEmpty::new(Field::Key).with_allow_empty(true));
    assert!(blank(""));
    assert!(blank(" \r\n"));
    assert!(!blank(" . "));
}

#[test]
fn lookup_checks_aliases_of_its_kind() {
    let config = Config {
        navigators: vec![nav1()],
        drivers: vec![drv1(None)],
    };
    let mut taken = Lookup::new(&config, CheckMode::MustExist, Kind::Navigator);
    assert_eq!(taken.validate("nav1"), Ok(()));
    assert_eq!(
        taken.validate("drv1").unwrap_err().to_string(),
        "Alias drv1 does not exist."
    );
    let mut free = Lookup::new(&config, CheckMode::MustNotExist, Kind::Driver);
    assert_eq!(free.validate("nav1"), Ok(()));
    assert_eq!(
        free.validate("drv1").unwrap_err().to_string(),
        "Alias drv1 already exists."
    );
    assert_eq!(taken.matching_navigator("nav1"), Some(&nav1()));
    assert_eq!(taken.matching_navigator("Nav1"), None);
    assert_eq!(taken.matching_driver("drv1"), None);
    assert_eq!(free.matching_navigator("drv1"), Some(&drv1(None).navigator));
    assert_eq!(free.matching_driver("drv1"), Some(&drv1(None)));
    assert_eq!(free.matching_driver("nav1"), None);
}

#[test]
fn checks_in_a_row_stop_at_the_first_refusal() {
    let config = Config::from_navigators(vec![nav1()]);
    let mut both = AndThen(
        CheckForEmpty::new(Field::Alias),
        Lookup::new(&config, CheckMode::MustNotExist, Kind::Navigator),
    );
    assert_eq!(
        both.validate(" ").unwrap_err().to_string(),
        "The alias must not be empty."
    );
    assert_eq!(
        both.validate("nav1").unwrap_err().to_string(),
        "Alias nav1 already exists."
    );
    assert_eq!(both.validate("nav2"), Ok(()));
    let (first, second) = both.into_inner();
    assert_eq!(first.next, MsgTemplate::EnterANonEmptyName);
    assert_eq!(second.check, CheckMode::MustNotExist);
    assert_eq!(NoOp.validate(""), Ok(()));
    assert_eq!((&mut NoOp).validate("anything"), Ok(()));
}

#[test]
fn alias_check_says_what_is_wrong() {
    let config = Config::from_navigators(vec![nav1()]);
    let verdict = |mode, template, alias: &str| {
        verify_alias(&config, Kind::Navigator, mode, template, alias).map_err(|e| e.to_string())
    };
    assert_eq!(
        verdict(CheckMode::MustExist, MsgTemplate::MustNotBeEmpty, "nav1"),
        Ok(())
    );
    assert_eq!(
        verdict(CheckMode::MustExist, MsgTemplate::MustNotBeEmpty, "x"),
        Err(String::from("Alias x does not exist."))
    );
    assert_eq!(
        verdict(CheckMode::MustNotExist, MsgTemplate::MustNotBeEmpty, "nav1"),
        Err(String::from("Alias nav1 already exists."))
    );
    assert_eq!(
        verdict(CheckMode::MustNotExist, MsgTemplate::EnterANonEmptyName, ""),
        Err(String::from("Please enter a non-empty alias."))
    );
    assert_eq!(
        verify_alias(
            &config,
            Kind::Driver,
            CheckMode::MustNotExist,
            MsgTemplate::MustNotBeEmpty,
            "nav1"
        ),
        Ok(())
    );
}

#[test]
fn answers_are_held_to_the_check_once_more() {
    assert_eq!(
        checked_answer(Field::Email, MsgTemplate::MustNotBeEmpty, String::from(" a ")),
        Ok(String::from(" a "))
    );
    assert_eq!(
        checked_answer(Field::Email, MsgTemplate::EnterANonEmptyName, String::from(" ")),
        Err(UiError::Empty {
            field: Field::Email,
            template: MsgTemplate::EnterANonEmptyName
        })
    );
    let mut ui = Typing {
        alias: "a",
        attempts: vec!["", "  "],
    };
    let err = prompt_for(&mut ui, Field::Name, "a", None).unwrap_err();
    assert_eq!(err.to_string(), "The name must not be empty.");
    let mut ui = Typing {
        alias: "a",
        attempts: vec![""],
    };
    let err = prompt_for(&mut ui, Field::Name, "a", None).unwrap_err();
    assert_eq!(err.to_string(), "Please enter a non-empty name.");
    let mut ui = Typing {
        alias: "a",
        attempts: vec!["", "b"],
    };
    assert_eq!(prompt_for(&mut ui, Field::Name, "a", None), Ok(String::from("b")));
}

#[test]
fn prompts_start_with_what_is_known() {
    let old = String::from("old");
    assert_eq!(initial_text(None, None), None);
    assert_eq!(initial_text(None, Some(&old)), Some(String::from("old")));
    assert_eq!(
        initial_text(Some(String::from("new")), Some(&old)),
        Some(String::from("new"))
    );
    assert_eq!(
        initial_text(Some(String::from("new")), None),
        Some(String::from("new"))
    );
}

#[test]
fn menus_show_aliases_and_ticks() {
    let config = Config {
        navigators: vec![nav1()],
        drivers: vec![drv1(None), drv1(Some("k"))],
    };
    assert_eq!(
        selectable_items(Kind::Navigator, &config, &[Id::from("drv1")]),
        vec![Selectable {
            item: "nav1",
            checked: false
        }]
    );
    assert_eq!(
        selectable_items(Kind::Driver, &config, &[Id::from("x"), Id::from("drv1")]),
        vec![
            Selectable {
                item: "drv1",
                checked: true
            },
            Selectable {
                item: "drv1",
                checked: true
            }
        ]
    );
    assert_eq!(id_at(Kind::Driver, &config, 1), Some(&Id::from("drv1")));
    assert_eq!(id_at(Kind::Driver, &config, 2), None);
    assert_eq!(id_at(Kind::Navigator, &config, 1), None);
    assert_eq!(
        ids_at(Kind::Navigator, &config, &vec![0, 3, 0]),
        vec![&Id::from("nav1"), &Id::from("nav1")]
    );
}

#[test]
fn new_record_goes_to_the_end() {
    let mut config = Config::from_navigators(vec![nav1()]);
    let ui = Typing {
        alias: "nav2",
        attempts: vec!["ronny", "", "baz@bar.org"],
    };
    let partial = PartialNav::default();
    assert_eq!(
        run(ui, Kind::Navigator, &mut config, partial),
        Ok(Modification::Changed)
    );
    assert_eq!(
        config.navigators,
        vec![
            nav1(),
            Navigator {
                alias: Id::from("nav2"),
                name: String::from("ronny"),
                email: String::from("baz@bar.org"),
            }
        ]
    );
    assert!(config.drivers.is_empty());
}

#[test]
fn new_driver_may_have_no_key() {
    let mut config = Config::from_navigators(vec![nav1()]);
    let ui = Typing {
        alias: "unused",
        attempts: vec!["n"],
    };
    struct Answers(Typing, Vec<&'static str>);
    impl PromptAlias for Answers {
        fn prompt_for_alias<V: Validator>(&mut self, kind: Kind, validator: V) -> Result<String, UiError> {
            self.0.prompt_for_alias(kind, validator)
        }
    }
    impl PromptText for Answers {
        fn prompt_for_text<V: Validator>(
            &mut self,
            _field: Field,
            id: &str,
            _initial: Option<String>,
            _validator: V,
        ) -> Result<String, UiError> {
            assert_eq!(id, "nav1");
            Ok(String::from(self.1.remove(0)))
        }
    }
    let partial = PartialNav::default().with_id(Some(String::from("nav1")));
    assert_eq!(
        run(Answers(ui, vec!["n", "e", ""]), Kind::Driver, &mut config, partial),
        Ok(Modification::Changed)
    );
    assert_eq!(
        config.drivers,
        vec![Driver {
            navigator: Navigator {
                alias: Id::from("nav1"),
                name: String::from("n"),
                email: String::from("e"),
            },
            key: None,
        }]
    );
}

#[test]
fn taken_or_blank_alias_adds_nothing() {
    let mut config = Config::from_navigators(vec![nav1()]);
    let ui = Typing {
        alias: "nav1",
        attempts: vec![],
    };
    let err = run(ui, Kind::Navigator, &mut config, PartialNav::default()).unwrap_err();
    assert_eq!(err.to_string(), "Alias nav1 already exists.");
    let ui = Typing {
        alias: "x",
        attempts: vec![],
    };
    let partial = PartialNav::default().with_id(Some(String::from("  ")));
    let err = run(ui, Kind::Navigator, &mut config, partial).unwrap_err();
    assert_eq!(err.to_string(), "The alias must not be empty.");
    let ui = Typing {
        alias: "",
        attempts: vec![],
    };
    let err = run(ui, Kind::Navigator, &mut config, PartialNav::default()).unwrap_err();
    assert_eq!(err.to_string(), "Please enter a non-empty alias.");
    assert_eq!(config, Config::from_navigators(vec![nav1()]));
}
