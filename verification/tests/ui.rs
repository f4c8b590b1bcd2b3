use git_drive::config::Config;
use git_drive::data::{Driver, Field, Id, IdRef, Kind, Navigator, PartialIdNav, PartialNav};
use git_drive::ui::validation::Validator;
use git_drive::ui::{
    complete_existing_drv, complete_existing_nav, complete_new_drv, complete_new_nav,
    select_id_from, select_ids_from, PromptAlias, PromptText, SelectMany, SelectOne, Selectable,
    UiError,
};
use std::cell::Cell;

fn nav1() -> Navigator {
    Navigator {
        alias: Id::from("nav1"),
        name: String::from("bernd"),
        email: String::from("foo@bar.org"),
    }
}

fn nav2() -> Navigator {
    Navigator {
        alias: Id::from("nav2"),
        name: String::from("ronny"),
        email: String::from("baz@bar.org"),
    }
}

fn drv1(key: Option<&'static str>) -> Driver {
    Driver {
        navigator: Navigator {
            alias: Id::from("drv1"),
            name: String::from("ralle"),
            email: String::from("qux@bar.org"),
        },
        key: key.map(String::from),
    }
}

#[derive(Copy, Clone)]
struct SelectOneFn<F>(F);

impl<F> SelectOne for SelectOneFn<F>
where
    F: FnMut(Kind, &[Selectable<'_>]) -> Result<usize, UiError>,
{
    fn select_one(&mut self, kind: Kind, items: &[Selectable<'_>]) -> Result<usize, UiError> {
        (self.0)(kind, items)
    }
}

fn select_one<F>(f: F) -> SelectOneFn<F>
where
    F: FnMut(Kind, &[Selectable<'_>]) -> Result<usize, UiError>,
{
    SelectOneFn(f)
}

#[derive(Copy, Clone)]
struct SelectManyFn<F>(F);

impl<F> SelectMany for SelectManyFn<F>
where
    F: FnMut(Kind, &[Selectable<'_>]) -> Result<Vec<usize>, UiError>,
{
    fn select_many(&mut self, kind: Kind, items: &[Selectable<'_>]) -> Result<Vec<usize>, UiError> {
        (self.0)(kind, items)
    }
}

fn select_many<F>(f: F) -> SelectManyFn<F>
where
    F: FnMut(Kind, &[Selectable<'_>]) -> Result<Vec<usize>, UiError>,
{
    SelectManyFn(f)
}

#[derive(Copy, Clone)]
struct PromptTextFn<F>(F);

impl<F> PromptText for PromptTextFn<F>
where
    F: FnMut(Field, &str, Option<String>) -> Result<String, UiError>,
{
    fn prompt_for_text<V: Validator>(
        &mut self,
        field: Field,
        id: &str,
        initial: Option<String>,
        _validator: V,
    ) -> Result<String, UiError> {
        (self.0)(field, id, initial)
    }
}

fn prompt_text<F>(f: F) -> PromptTextFn<F>
where
    F: FnMut(Field, &str, Option<String>) -> Result<String, UiError>,
{
    PromptTextFn(f)
}

#[derive(Copy, Clone)]
struct PromptAliasFn<F>(F);

impl<F> PromptAlias for PromptAliasFn<F>
where
    F: FnMut(Kind) -> Result<String, UiError>,
{
    fn prompt_for_alias<V: Validator>(&mut self, kind: Kind, _validator: V) -> Result<String, UiError> {
        (self.0)(kind)
    }
}

fn prompt_alias<F>(f: F) -> PromptAliasFn<F>
where
    F: FnMut(Kind) -> Result<String, UiError>,
{
    PromptAliasFn(f)
}

struct Both<A, B>(A, B);

impl<A: PromptText, B> PromptText for Both<A, B> {
    fn prompt_for_text<V: Validator>(
        &mut self,
        field: Field,
        id: &str,
        initial: Option<String>,
        validator: V,
    ) -> Result<String, UiError> {
        self.0.prompt_for_text(field, id, initial, validator)
    }
}

impl<A, B: PromptAlias> PromptAlias for Both<A, B> {
    fn prompt_for_alias<V: Validator>(&mut self, kind: Kind, validator: V) -> Result<String, UiError> {
        self.1.prompt_for_alias(kind, validator)
    }
}

#[derive(Copy, Clone)]
struct NoUi;

impl SelectOne for NoUi {
    fn select_one(&mut self, kind: Kind, items: &[Selectable<'_>]) -> Result<usize, UiError> {
        panic!(
            "Unexpected call to select_one kind={} items={:?}",
            kind.to_string(),
            items
        )
    }
}

impl SelectMany for NoUi {
    fn select_many(&mut self, kind: Kind, items: &[Selectable<'_>]) -> Result<Vec<usize>, UiError> {
        panic!(
            "Unexpected call to select_many kind={} items={:?}",
            kind.to_string(),
            items
        )
    }
}

impl PromptText for NoUi {
    fn prompt_for_text<V: Validator>(
        &mut self,
        field: Field,
        id: &str,
        initial: Option<String>,
        _validator: V,
    ) -> Result<String, UiError> {
        panic!(
            "Unexpected call to prompt_for_text with field={} id={} initial={:?}",
            field.to_string(),
            id,
            initial
        )
    }
}

impl PromptAlias for NoUi {
    fn prompt_for_alias<V: Validator>(&mut self, kind: Kind, _validator: V) -> Result<String, UiError> {
        panic!(
            "Unexpected call to prompt_for_text with kind={}",
            kind.to_string()
        )
    }
}

enum Matcher {
    Any,
    Nothing,
    Equals(String),
}

impl From<&str> for Matcher {
    fn from(value: &str) -> Self {
        Self::Equals(String::from(value))
    }
}

impl From<&String> for Matcher {
    fn from(value: &String) -> Self {
        Self::Equals(value.clone())
    }
}

impl Matcher {
    fn matches(&self, value: Option<&str>) {
        match self {
            Self::Any => {}
            Self::Nothing => assert_eq!(value, None),
            Self::Equals(s) => assert_eq!(value, Some(s.as_str())),
        }
    }
}

enum Answer {
    Field,
    Initial,
    Value(String),
}

struct Initial;

impl From<Initial> for Answer {
    fn from(_: Initial) -> Self {
        Self::Initial
    }
}

impl From<&str> for Answer {
    fn from(value: &str) -> Self {
        Self::Value(String::from(value))
    }
}

impl From<&String> for Answer {
    fn from(value: &String) -> Self {
        Self::Value(value.clone())
    }
}

impl Answer {
    fn answers(self, field: Field, initial: Option<String>) -> String {
        match self {
            Self::Field => field.to_string(),
            Self::Initial => initial.unwrap(),
            Self::Value(value) => value,
        }
    }
}

struct AssertState {
    current_field: Field,
    initial_matcher: Matcher,
    produced_value: Answer,
}

struct AssertBuilding {
    id: String,
    states: Vec<AssertState>,
}

struct AssertPromptText {
    id: String,
    states: Vec<AssertState>,
}

struct AssertExpect {
    assert: AssertBuilding,
    state: AssertState,
}

impl AssertPromptText {
    fn start(id: &str) -> AssertBuilding {
        AssertBuilding {
            id: String::from(id),
            states: Vec::new(),
        }
    }

    fn as_ui(&mut self) -> &mut Self {
        self
    }

    fn expect_done(&self) {
        assert!(
            self.states.is_empty(),
            "Expected more calls to prompt_for_text"
        );
    }
}

impl AssertBuilding {
    fn expect(self, field: Field) -> AssertExpect {
        let state = AssertState {
            current_field: field,
            initial_matcher: Matcher::Nothing,
            produced_value: Answer::Field,
        };

        AssertExpect {
            assert: self,
            state,
        }
    }

    fn done(mut self) -> AssertPromptText {
        self.states.reverse();
        AssertPromptText {
            id: self.id,
            states: self.states,
        }
    }
}

impl AssertExpect {
    fn with_initial_value(mut self, value: impl Into<Matcher>) -> Self {
        self.state.initial_matcher = value.into();
        self
    }

    fn answers(mut self, value: impl Into<Answer>) -> AssertBuilding {
        self.state.produced_value = value.into();
        self.assert.states.push(self.state);
        self.assert
    }

    fn expect(mut self, field: Field) -> Self {
        self.assert.states.push(self.state);
        self.assert.expect(field)
    }

    fn done(mut self) -> AssertPromptText {
        self.assert.states.push(self.state);
        self.assert.done()
    }
}

impl PromptText for AssertPromptText {
    fn prompt_for_text<V: Validator>(
        &mut self,
        field: Field,
        id: &str,
        initial: Option<String>,
        validator: V,
    ) -> Result<String, UiError> {
        let AssertState {
            current_field,
            initial_matcher,
            produced_value,
        } = match self.states.pop() {
            Some(state) => state,
            None => return NoUi.prompt_for_text(field, id, initial, validator),
        };

        assert_eq!(id, self.id);
        assert_eq!(current_field, field);
        initial_matcher.matches(initial.as_deref());
        Ok(produced_value.answers(field, initial))
    }
}

#[test]
fn test_select_id_with_empty_options() {
    let config = Config::default();

    let selected = select_id_from(NoUi, Kind::Navigator, &config).unwrap();
    assert_eq!(selected, None);

    let selected = select_id_from(NoUi, Kind::Driver, &config).unwrap();
    assert_eq!(selected, None);
}

#[test]
fn test_select_id() {
    let config = Config::from_navigators(vec![nav1(), nav2()]);
    let ui = select_one(|kind, items| {
        assert_eq!(kind, Kind::Navigator);
        assert_eq!(items.len(), 2);
        assert_eq!(items[0].item, "nav1");
        assert_eq!(items[0].checked, false);
        assert_eq!(items[1].item, "nav2");
        assert_eq!(items[1].checked, false);
        Ok(0)
    });

    let selected = select_id_from(ui, Kind::Navigator, &config).unwrap();

    assert_eq!(selected, Some(config.navigators[0].id()));
}

#[test]
fn ui_test_select_out_of_bounds() {
    let config = Config::from_navigators(vec![nav1()]);
    let ui = select_one(|_, _| Ok(usize::MAX));

    let selected = select_id_from(ui, Kind::Navigator, &config).unwrap();

    assert_eq!(selected, None);
}

#[test]
fn test_select_ids_with_empty_options() {
    let config = Config::default();

    let selected = select_ids_from(NoUi, Kind::Navigator, &config, &[]).unwrap();
    assert_eq!(selected, Vec::<&Id>::new());

    let selected = select_ids_from(NoUi, Kind::Driver, &config, &[]).unwrap();
    assert_eq!(selected, Vec::<&Id>::new());
}

#[test]
fn test_select_ids() {
    let config = Config::from_navigators(vec![nav1(), nav2()]);

    let ui = select_many(|kind, items| {
        assert_eq!(kind, Kind::Navigator);
        assert_eq!(items.len(), 2);
        assert_eq!(items[0].item, "nav1");
        assert_eq!(items[1].item, "nav2");
        assert_eq!(items[0].checked, false);
        assert_eq!(items[1].checked, true);
        Ok(vec![0, 1])
    });

    let selected = select_ids_from(ui, Kind::Navigator, &config, &[nav2().id().clone()]).unwrap();

    assert_eq!(selected, vec![nav1().id(), nav2().id()]);
}

#[test]
fn test_select_ids_keeps_selection_order() {
    let config = Config::from_navigators(vec![nav1(), nav2()]);
    let ui = select_many(|_, _| Ok(vec![1, 0]));

    let selected = select_ids_from(ui, Kind::Navigator, &config, &[]).unwrap();

    assert_eq!(selected, vec![nav2().id(), nav1().id()]);
}

#[test]
fn test_select_ids_out_of_bounds() {
    let config = Config::from_navigators(vec![nav1(), nav2()]);
    let ui = select_many(|_, _| Ok(vec![usize::MAX, usize::MAX - 1, usize::MAX - 2]));

    let selected = select_ids_from(ui, Kind::Navigator, &config, &[]).unwrap();

    assert_eq!(selected, Vec::<&Id>::new());
}

#[test]
fn complete_new_nav_with_no_input() {
    let mut text = AssertPromptText::start("alias")
        .expect(Field::Name)
        .expect(Field::Email)
        .done();

    let alias = prompt_alias(|kind| {
        assert_eq!(kind, Kind::Navigator);
        Ok(String::from("alias"))
    });

    let nav = complete_new_nav(
        Both(text.as_ui(), alias),
        PartialNav::default(),
        &Config::default(),
    )
    .unwrap();

    text.expect_done();
    assert_eq!(nav.alias.0, "alias");
    assert_eq!(nav.name, "name");
    assert_eq!(nav.email, "email");
}

#[test]
fn complete_new_nav_with_name() {
    let mut text = AssertPromptText::start("alias")
        .expect(Field::Name)
        .with_initial_value("some name")
        .expect(Field::Email)
        .done();

    let alias = prompt_alias(|kind| {
        assert_eq!(kind, Kind::Navigator);
        Ok(String::from("alias"))
    });

    let nav = complete_new_nav(
        Both(text.as_ui(), alias),
        PartialNav::default().with_name(Some(String::from("some name"))),
        &Config::default(),
    )
    .unwrap();

    text.expect_done();
    assert_eq!(nav.alias.0, "alias");
    assert_eq!(nav.name, "name");
    assert_eq!(nav.email, "email");
}

#[test]
fn complete_new_nav_id_validation() {
    let alias = Cell::new("nav1");

    let prompt = prompt_alias(|kind| {
        assert_eq!(kind, Kind::Navigator);
        Ok(String::from(alias.get()))
    });

    let err = complete_new_nav(
        Both(NoUi, prompt),
        PartialNav::default(),
        &Config::from_navigators(vec![nav1()]),
    )
    .unwrap_err()
    .to_string();

    assert_eq!(err, "Alias nav1 already exists.");

    alias.set("");

    let err = complete_new_nav(Both(NoUi, prompt), PartialNav::default(), &Config::default())
        .unwrap_err()
        .to_string();

    assert_eq!(err, "The alias must not be empty.");
}

#[test]
fn complete_existing_nav_with_no_input() {
    let navigator = nav1();

    let mut text = AssertPromptText::start(navigator.id().as_str())
        .expect(Field::Name)
        .with_initial_value(&navigator.name)
        .answers(Initial)
        .expect(Field::Email)
        .with_initial_value(&navigator.email)
        .answers(Initial)
        .done();

    let config = Config::from_navigators(vec![navigator.clone()]);
    let nav = complete_existing_nav(
        text.as_ui(),
        PartialIdNav::new(navigator.id().as_str()),
        &config,
    )
    .unwrap();

    text.expect_done();
    assert_eq!(nav, navigator);
}

#[test]
fn complete_existing_nav_with_name() {
    let navigator = nav1();

    let mut text = AssertPromptText::start(navigator.id().as_str())
        .expect(Field::Name)
        .with_initial_value("some name")
        .answers(&navigator.name)
        .expect(Field::Email)
        .with_initial_value(&navigator.email)
        .answers(Initial)
        .done();

    let config = Config::from_navigators(vec![navigator.clone()]);

    let nav = complete_existing_nav(
        text.as_ui(),
        PartialIdNav::new(navigator.id().as_str()).with_name(Some(String::from("some name"))),
        &config,
    )
    .unwrap();

    text.expect_done();
    assert_eq!(nav, navigator);
}

#[test]
fn complete_existing_nav_id_validation() {
    let err = complete_existing_nav(
        NoUi,
        PartialIdNav::new("nav2"),
        &Config::from_navigators(vec![nav1()]),
    )
    .unwrap_err()
    .to_string();

    assert_eq!(err, "Alias nav2 does not exist.");

    let err = complete_existing_nav(NoUi, PartialIdNav::new(""), &Config::default())
        .unwrap_err()
        .to_string();

    assert_eq!(err, "The alias must not be empty.");
}

#[test]
fn complete_new_drv_with_no_input() {
    let mut text = AssertPromptText::start("alias")
        .expect(Field::Name)
        .expect(Field::Email)
        .expect(Field::Key)
        .done();

    let alias = prompt_alias(|kind| {
        assert_eq!(kind, Kind::Driver);
        Ok(String::from("alias"))
    });

    let drv = complete_new_drv(
        Both(text.as_ui(), alias),
        PartialNav::default(),
        &Config::default(),
    )
    .unwrap();

    text.expect_done();
    assert_eq!(drv.navigator.alias.0, "alias");
    assert_eq!(drv.navigator.name, "name");
    assert_eq!(drv.navigator.email, "email");
    assert_eq!(drv.key.as_deref(), Some("signing key"));
}

#[test]
fn complete_new_drv_with_name() {
    let mut text = AssertPromptText::start("alias")
        .expect(Field::Name)
        .with_initial_value("some name")
        .expect(Field::Email)
        .expect(Field::Key)
        .done();

    let alias = prompt_alias(|kind| {
        assert_eq!(kind, Kind::Driver);
        Ok(String::from("alias"))
    });

    let drv = complete_new_drv(
        Both(text.as_ui(), alias),
        PartialNav::default().with_name(Some(String::from("some name"))),
        &Config::default(),
    )
    .unwrap();

    text.expect_done();
    assert_eq!(drv.navigator.alias.0, "alias");
    assert_eq!(drv.navigator.name, "name");
    assert_eq!(drv.navigator.email, "email");
    assert_eq!(drv.key.as_deref(), Some("signing key"));
}

#[test]
fn complete_new_drv_empty_key_is_none() {
    let text = prompt_text(|field, _id, _initial| match field {
        Field::Key => Ok(String::new()),
        otherwise => Ok(otherwise.to_string()),
    });

    let alias = prompt_alias(|_kind| Ok(String::from("alias")));

    let drv =
        complete_new_drv(Both(text, alias), PartialNav::default(), &Config::default()).unwrap();

    assert_eq!(drv.key, None);
}

#[test]
fn complete_new_drv_id_validation() {
    let alias = Cell::new("drv1");

    let prompt = prompt_alias(|kind| {
        assert_eq!(kind, Kind::Driver);
        Ok(String::from(alias.get()))
    });

    let config = Config::from_drivers(vec![drv1(None)]);

    let err = complete_new_drv(Both(NoUi, prompt), PartialNav::default(), &config)
        .unwrap_err()
        .to_string();

    assert_eq!(err, "Alias drv1 already exists.");

    alias.set("");

    let err = complete_new_drv(Both(NoUi, prompt), PartialNav::default(), &config)
        .unwrap_err()
        .to_string();

    assert_eq!(err, "The alias must not be empty.");
}

#[test]
fn complete_existing_drv_with_no_input() {
    let driver = drv1(Some("a key"));

    let mut text = AssertPromptText::start(driver.id().as_str())
        .expect(Field::Name)
        .with_initial_value(&driver.navigator.name)
        .answers(Initial)
        .expect(Field::Email)
        .with_initial_value(&driver.navigator.email)
        .answers(Initial)
        .expect(Field::Key)
        .with_initial_value("a key")
        .answers(Initial)
        .done();

    let config = Config::from_drivers(vec![driver.clone()]);

    let drv = complete_existing_drv(
        text.as_ui(),
        PartialIdNav::new(driver.id().as_str()),
        &config,
    )
    .unwrap();

    text.expect_done();
    assert_eq!(drv, driver);
}

#[test]
fn complete_existing_drv_with_name() {
    let driver = drv1(Some("a key"));

    let mut text = AssertPromptText::start(driver.id().as_str())
        .expect(Field::Name)
        .with_initial_value("some name")
        .answers(&driver.navigator.name)
        .expect(Field::Email)
        .with_initial_value(&driver.navigator.email)
        .answers(Initial)
        .expect(Field::Key)
        .with_initial_value("a key")
        .answers(Initial)
        .done();

    let config = Config::from_drivers(vec![driver.clone()]);

    let drv = complete_existing_drv(
        text.as_ui(),
        PartialIdNav::new(driver.id().as_str()).with_name(Some(String::from("some name"))),
        &config,
    )
    .unwrap();

    text.expect_done();
    assert_eq!(drv, driver);
}

#[test]
fn complete_existing_drv_empty_key_is_none() {
    let text = prompt_text(|field, _id, _initial| match field {
        Field::Key => Ok(String::new()),
        otherwise => Ok(otherwise.to_string()),
    });

    let config = Config::from_drivers(vec![drv1(None)]);

    let drv = complete_existing_drv(text, PartialIdNav::new("drv1"), &config).unwrap();

    assert_eq!(drv.key, None);
}

#[test]
fn complete_existing_drv_id_validation() {
    let config = Config::from_drivers(vec![drv1(None)]);

    let err = complete_existing_drv(NoUi, PartialIdNav::new("drv2"), &config)
        .unwrap_err()
        .to_string();

    assert_eq!(err, "Alias drv2 does not exist.");

    let err = complete_existing_drv(NoUi, PartialIdNav::new(""), &config)
        .unwrap_err()
        .to_string();

    assert_eq!(err, "The alias must not be empty.");
}
