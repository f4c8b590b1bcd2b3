use git_drive::config::Config;
use git_drive::data::{Driver, Field, Id, Kind, Modification, Navigator, PartialIdNav, PartialNav};
use git_drive::edit::{edit, run, select_existing_id};
use git_drive::ui::validation::Validator;
use git_drive::ui::{PromptAlias, PromptText, SelectOne, Selectable, UiError};

fn nav1() -> Navigator {
    Navigator {
        alias: Id::from("nav1"),
        name: String::from("bernd"),
        email: String::from("foo@bar.org"),
    }
}

fn nav2() -> Navigator {
    Navigator {
        alias: Id::from("nav2"),
        name: String::from("ronny"),
        email: String::from("baz@bar.org"),
    }
}

fn drv1(key: Option<&'static str>) -> Driver {
    Driver {
        navigator: Navigator {
            alias: Id::from("drv1"),
            name: String::from("ralle"),
            email: String::from("qux@bar.org"),
        },
        key: key.map(String::from),
    }
}

#[derive(Copy, Clone)]
struct SelectOneFn<F>(F);

impl<F> SelectOne for SelectOneFn<F>
where
    F: FnMut(Kind, &[Selectable<'_>]) -> Result<usize, UiError>,
{
    fn select_one(&mut self, kind: Kind, items: &[Selectable<'_>]) -> Result<usize, UiError> {
        (self.0)(kind, items)
    }
}

fn select_one<F>(f: F) -> SelectOneFn<F>
where
    F: FnMut(Kind, &[Selectable<'_>]) -> Result<usize, UiError>,
{
    SelectOneFn(f)
}

#[derive(Copy, Clone)]
struct PromptTextFn<F>(F);

impl<F> PromptText for PromptTextFn<F>
where
    F: FnMut(Field, &str, Option<String>) -> Result<String, UiError>,
{
    fn prompt_for_text<V: Validator>(
        &mut self,
        field: Field,
        id: &str,
        initial: Option<String>,
        _validator: V,
    ) -> Result<String, UiError> {
        (self.0)(field, id, initial)
    }
}

fn prompt_text<F>(f: F) -> PromptTextFn<F>
where
    F: FnMut(Field, &str, Option<String>) -> Result<String, UiError>,
{
    PromptTextFn(f)
}

#[derive(Copy, Clone)]
struct NoUi;

impl SelectOne for NoUi {
    fn select_one(&mut self, kind: Kind, items: &[Selectable<'_>]) -> Result<usize, UiError> {
        panic!(
            "Unexpected call to select_one kind={} items={:?}",
            kind.to_string(),
            items
        )
    }
}

impl PromptText for NoUi {
    fn prompt_for_text<V: Validator>(
        &mut self,
        field: Field,
        id: &str,
        initial: Option<String>,
        _validator: V,
    ) -> Result<String, UiError> {
        panic!(
            "Unexpected call to prompt_for_text with field={} id={} initial={:?}",
            field.to_string(),
            id,
            initial
        )
    }
}

struct Whole<A, B>(A, B);

impl<A: SelectOne, B> SelectOne for Whole<A, B> {
    fn select_one(&mut self, kind: Kind, items: &[Selectable<'_>]) -> Result<usize, UiError> {
        self.0.select_one(kind, items)
    }
}

impl<A, B: PromptText> PromptText for Whole<A, B> {
    fn prompt_for_text<V: Validator>(
        &mut self,
        field: Field,
        id: &str,
        initial: Option<String>,
        validator: V,
    ) -> Result<String, UiError> {
        self.1.prompt_for_text(field, id, initial, validator)
    }
}

impl<A, B> PromptAlias for Whole<A, B> {
    fn prompt_for_alias<V: Validator>(&mut self, kind: Kind, _validator: V) -> Result<String, UiError> {
        panic!("Unexpected call to prompt_for_alias with kind={}", kind.to_string())
    }
}

enum Matcher {
    Any,
    Nothing,
    Equals(String),
}

impl From<&str> for Matcher {
    fn from(value: &str) -> Self {
        Self::Equals(String::from(value))
    }
}

impl From<&String> for Matcher {
    fn from(value: &String) -> Self {
        Self::Equals(value.clone())
    }
}

impl Matcher {
    fn matches(&self, value: Option<&str>) {
        match self {
            Self::Any => {}
            Self::Nothing => assert_eq!(value, None),
            Self::Equals(s) => assert_eq!(value, Some(s.as_str())),
        }
    }
}

enum Answer {
    Field,
    Initial,
    Value(String),
}

struct Initial;

impl From<Initial> for Answer {
    fn from(_: Initial) -> Self {
        Self::Initial
    }
}

impl From<&str> for Answer {
    fn from(value: &str) -> Self {
        Self::Value(String::from(value))
    }
}

impl From<&String> for Answer {
    fn from(value: &String) -> Self {
        Self::Value(value.clone())
    }
}

impl Answer {
    fn answers(self, field: Field, initial: Option<String>) -> String {
        match self {
            Self::Field => field.to_string(),
            Self::Initial => initial.unwrap(),
            Self::Value(value) => value,
        }
    }
}

struct AssertState {
    current_field: Field,
    initial_matcher: Matcher,
    produced_value: Answer,
}

struct AssertBuilding {
    id: String,
    states: Vec<AssertState>,
}

struct AssertPromptText {
    id: String,
    states: Vec<AssertState>,
}

struct AssertExpect {
    assert: AssertBuilding,
    state: AssertState,
}

impl AssertPromptText {
    fn start(id: &str) -> AssertBuilding {
        AssertBuilding {
            id: String::from(id),
            states: Vec::new(),
        }
    }

    fn as_ui(&mut self) -> &mut Self {
        self
    }

    fn expect_done(&self) {
        assert!(
            self.states.is_empty(),
            "Expected more calls to prompt_for_text"
        );
    }
}

impl AssertBuilding {
    fn expect(self, field: Field) -> AssertExpect {
        let state = AssertState {
            current_field: field,
            initial_matcher: Matcher::Nothing,
            produced_value: Answer::Field,
        };

        AssertExpect {
            assert: self,
            state,
        }
    }

    fn done(mut self) -> AssertPromptText {
        self.states.reverse();
        AssertPromptText {
            id: self.id,
            states: self.states,
        }
    }
}

impl AssertExpect {
    fn with_initial_value(mut self, value: impl Into<Matcher>) -> Self {
        self.state.initial_matcher = value.into();
        self
    }

    fn answers(mut self, value: impl Into<Answer>) -> AssertBuilding {
        self.state.produced_value = value.into();
        self.assert.states.push(self.state);
        self.assert
    }

    fn expect(mut self, field: Field) -> Self {
        self.assert.states.push(self.state);
        self.assert.expect(field)
    }

    fn done(mut self) -> AssertPromptText {
        self.assert.states.push(self.state);
        self.assert.done()
    }
}

impl PromptText for AssertPromptText {
    fn prompt_for_text<V: Validator>(
        &mut self,
        field: Field,
        id: &str,
        initial: Option<String>,
        validator: V,
    ) -> Result<String, UiError> {
        let AssertState {
            current_field,
            initial_matcher,
            produced_value,
        } = match self.states.pop() {
            Some(state) => state,
            None => return NoUi.prompt_for_text(field, id, initial, validator),
        };

        assert_eq!(id, self.id);
        assert_eq!(current_field, field);
        initial_matcher.matches(initial.as_deref());
        Ok(produced_value.answers(field, initial))
    }
}

#[test]
fn test_select_existing_navigator_from_empty_config() {
    let config = Config::default();
    let selected = select_existing_id(NoUi, Kind::Navigator, &config).unwrap_err();
    assert_eq!(selected.to_string(), "No navigators to edit");
}

#[test]
fn test_select_existing_driver_from_empty_config() {
    let config = Config::default();
    let selected = select_existing_id(NoUi, Kind::Driver, &config).unwrap_err();
    assert_eq!(selected.to_string(), "No drivers to edit");
}

#[test]
fn test_select_existing_navigator() {
    let ui = select_one(|kind, items| {
        assert_eq!(kind, Kind::Navigator);
        assert_eq!(
            items,
            &[
                Selectable {
                    item: "nav1",
                    checked: false
                },
                Selectable {
                    item: "nav2",
                    checked: false
                }
            ]
        );
        Ok(0)
    });
    let config = Config::from_entities(vec![nav1().ent(), nav2().ent(), drv1(None).ent()]);
    let selected = select_existing_id(ui, Kind::Navigator, &config).unwrap();
    assert_eq!(selected, "nav1");
}

#[test]
fn test_select_existing_driver() {
    let ui = select_one(|kind, items| {
        assert_eq!(kind, Kind::Driver);
        assert_eq!(
            items,
            &[Selectable {
                item: "drv1",
                checked: false
            }]
        );
        Ok(0)
    });
    let config = Config::from_entities(vec![nav1().ent(), nav2().ent(), drv1(None).ent()]);
    let selected = select_existing_id(ui, Kind::Driver, &config).unwrap();
    assert_eq!(selected, "drv1");
}

#[test]
fn edit_test_select_out_of_bounds() {
    let ui = select_one(|_kind, _items| Ok(usize::MAX));
    let config = Config::from_navigators(vec![nav1(), nav2()]);
    let selected = select_existing_id(ui, Kind::Navigator, &config).unwrap_err();
    assert_eq!(selected.to_string(), "No navigators to edit");
}

#[test]
fn test_edit_existing_navigator() {
    let mut text = AssertPromptText::start("nav1")
        .expect(Field::Name)
        .with_initial_value("bernd")
        .answers("new name")
        .expect(Field::Email)
        .with_initial_value("foo@bar.org")
        .answers("new email")
        .done();

    let mut config = Config::from_entities(vec![nav1().ent(), nav2().ent(), drv1(None).ent()]);
    let modified = edit(
        text.as_ui(),
        Kind::Navigator,
        &mut config,
        PartialIdNav::new("nav1"),
    )
    .unwrap();

    text.expect_done();
    assert_eq!(modified, Modification::Changed);
    assert_eq!(
        &config.navigators,
        &[
            Navigator {
                alias: Id(String::from("nav1")),
                name: String::from("new name"),
                email: String::from("new email"),
            },
            nav2()
        ]
    );
    assert_eq!(&config.drivers, &[drv1(None)]);
}

#[test]
fn test_edit_non_existing_navigator() {
    let mut config = Config::from_navigators(vec![nav1()]);
    let result = edit(
        NoUi,
        Kind::Navigator,
        &mut config,
        PartialIdNav::new("does not exist"),
    )
    .unwrap_err();

    assert_eq!(result.to_string(), "Alias does not exist does not exist.");
    assert_eq!(config, Config::from_navigators(vec![nav1()]));
}

#[test]
fn test_edit_existing_navigator_without_change() {
    let text = prompt_text(|_field, _id, initial| Ok(initial.unwrap()));

    let mut config = Config::from_navigators(vec![nav1()]);
    let modified = edit(
        text,
        Kind::Navigator,
        &mut config,
        PartialIdNav::new("nav1"),
    )
    .unwrap();

    assert_eq!(modified, Modification::Unchanged);
    assert_eq!(config, Config::from_navigators(vec![nav1()]));
}

#[test]
fn test_edit_existing_navigator_with_provided_values() {
    let partial = PartialIdNav::new("nav1")
        .with_name(Some(String::from("new name")))
        .with_email(Some(String::from("new email")));

    let mut text = AssertPromptText::start("nav1")
        .expect(Field::Name)
        .with_initial_value(partial.name.as_deref().unwrap())
        .answers(Initial)
        .expect(Field::Email)
        .with_initial_value(partial.email.as_deref().unwrap())
        .answers(Initial)
        .done();

    let mut config = Config::from_navigators(vec![nav1()]);
    let modified = edit(text.as_ui(), Kind::Navigator, &mut config, partial.clone()).unwrap();

    text.expect_done();
    assert_eq!(modified, Modification::Changed);
    assert_eq!(
        config,
        Config::from_navigators(vec![Navigator {
            alias: Id::from("nav1"),
            name: partial.name.unwrap(),
            email: partial.email.unwrap()
        }])
    );
}

#[test]
fn test_edit_existing_driver() {
    let mut text = AssertPromptText::start("drv1")
        .expect(Field::Name)
        .with_initial_value("ralle")
        .answers("new name")
        .expect(Field::Email)
        .with_initial_value("qux@bar.org")
        .answers("new email")
        .expect(Field::Key)
        .with_initial_value("initial key")
        .answers("new key")
        .done();

    let mut config = Config::from_entities(vec![
        nav1().ent(),
        nav2().ent(),
        drv1(Some("initial key")).ent(),
    ]);
    let modified = edit(
        text.as_ui(),
        Kind::Driver,
        &mut config,
        PartialIdNav::new("drv1"),
    )
    .unwrap();

    text.expect_done();
    assert_eq!(modified, Modification::Changed);
    assert_eq!(&config.navigators, &[nav1(), nav2()]);
    assert_eq!(
        &config.drivers,
        &[Driver {
            navigator: Navigator {
                alias: Id(String::from("drv1")),
                name: String::from("new name"),
                email: String::from("new email"),
            },
            key: Some(String::from("new key"))
        }]
    );
}

#[test]
fn test_edit_non_existing_driver() {
    let mut config = Config::from_drivers(vec![drv1(None)]);
    let result = edit(
        NoUi,
        Kind::Driver,
        &mut config,
        PartialIdNav::new("does not exist"),
    )
    .unwrap_err();

    assert_eq!(result.to_string(), "Alias does not exist does not exist.");
    assert_eq!(config, Config::from_drivers(vec![drv1(None)]));
}

#[test]
fn test_edit_existing_driver_without_change() {
    let text = prompt_text(|_field, _id, initial| Ok(initial.unwrap()));

    let mut config = Config::from_drivers(vec![drv1(Some("key"))]);
    let modified = edit(text, Kind::Driver, &mut config, PartialIdNav::new("drv1")).unwrap();

    assert_eq!(modified, Modification::Unchanged);
    assert_eq!(config, Config::from_drivers(vec![drv1(Some("key"))]));
}

#[test]
fn test_edit_existing_driver_with_provided_values() {
    let partial = PartialIdNav::new("drv1")
        .with_name(Some(String::from("new name")))
        .with_email(Some(String::from("new email")))
        .with_key(Some(String::from("new key")));

    let mut text = AssertPromptText::start("drv1")
        .expect(Field::Name)
        .with_initial_value(partial.name.as_deref().unwrap())
        .answers(Initial)
        .expect(Field::Email)
        .with_initial_value(partial.email.as_deref().unwrap())
        .answers(Initial)
        .expect(Field::Key)
        .with_initial_value(partial.key.as_deref().unwrap())
        .answers(Initial)
        .done();

    let mut config = Config::from_drivers(vec![drv1(Some("key"))]);
    let modified = edit(text.as_ui(), Kind::Driver, &mut config, partial.clone()).unwrap();

    text.expect_done();
    assert_eq!(modified, Modification::Changed);
    assert_eq!(
        config,
        Config::from_drivers(vec![Driver {
            navigator: Navigator {
                alias: Id::from("drv1"),
                name: partial.name.unwrap(),
                email: partial.email.unwrap()
            },
            key: partial.key
        }])
    );
}

#[test]
fn run_edits_the_record_that_is_named() {
    let text = prompt_text(|field, id, _initial| {
        assert_eq!(id, "nav2");
        Ok(format!("new {}", field.to_string()))
    });
    let mut config = Config::from_navigators(vec![nav1(), nav2()]);
    let partial = PartialNav::default().with_id(Some(String::from("nav2")));
    let modified = run(Whole(NoUi, text), Kind::Navigator, &mut config, partial).unwrap();
    assert_eq!(modified, Modification::Changed);
    assert_eq!(
        config.navigators,
        vec![
            nav1(),
            Navigator {
                alias: Id::from("nav2"),
                name: String::from("new name"),
                email: String::from("new email"),
            }
        ]
    );
}

#[test]
fn run_asks_which_record_to_edit() {
    let one = select_one(|_, items| Ok(items.len() - 1));
    let text = prompt_text(|_field, id, initial| {
        assert_eq!(id, "nav2");
        Ok(initial.unwrap())
    });
    let mut config = Config::from_navigators(vec![nav1(), nav2()]);
    let partial = PartialNav::default().with_email(Some(String::from("other@bar.org")));
    let modified = run(Whole(one, text), Kind::Navigator, &mut config, partial).unwrap();
    assert_eq!(modified, Modification::Changed);
    assert_eq!(config.navigators[0], nav1());
    assert_eq!(config.navigators[1].email, "other@bar.org");
    assert_eq!(config.navigators[1].name, "ronny");
}

#[test]
fn blank_answers_are_refused() {
    let text = prompt_text(|field, _id, initial| match field {
        Field::Email => Ok(String::from(" \t")),
        _ => Ok(initial.unwrap()),
    });
    let mut config = Config::from_navigators(vec![nav1()]);
    let err = edit(text, Kind::Navigator, &mut config, PartialIdNav::new("nav1")).unwrap_err();
    assert_eq!(err.to_string(), "The email must not be empty.");
    assert_eq!(config, Config::from_navigators(vec![nav1()]));
}
