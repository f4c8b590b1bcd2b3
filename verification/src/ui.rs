//! What is asked of the user, and what is made of the answers.
//!
//! The user interface itself is behind four small traits. Nothing is known
//! of what an implementation answers, so each function here says what it
//! hands to the interface, and what it makes of whatever comes back.

use crate::config::{position, Config, ConfigView};
use crate::data::{
    field_text, kind_text, opt_view, Driver, Field, Id, Kind, Navigator, NavigatorView,
    PartialIdNav, PartialNav,
};
use crate::text::push_str;
use vstd::prelude::*;

pub mod validation;

verus! {

/// The two sentences that ask for a field that was left empty. They take
/// turns.
#[derive(Clone, Copy, Debug, PartialEq, Eq, Structural)]
pub enum MsgTemplate {
    MustNotBeEmpty,
    EnterANonEmptyName,
}

/// What a [`UiError`] holds.
pub ghost enum UiErrorView {
    Failed { reason: Seq<char> },
    Empty { field: Field, template: MsgTemplate },
    AliasExists { alias: Seq<char> },
    AliasMissing { alias: Seq<char> },
    NothingToEdit { kind: Kind },
}

/// Why a record could not be completed or chosen.
#[derive(Clone, Debug, PartialEq, Eq)]
pub enum UiError {
    /// The user interface gave up; the reason is its own.
    Failed { reason: String },
    /// A field that must not be empty was left empty.
    Empty { field: Field, template: MsgTemplate },
    /// The alias of a new record is taken.
    AliasExists { alias: String },
    /// No record goes by the alias.
    AliasMissing { alias: String },
    /// There is no record of the kind to choose from.
    NothingToEdit { kind: Kind },
}

impl View for UiError {
    type V = UiErrorView;

    open spec fn view(&self) -> UiErrorView {
        match *self {
            UiError::Failed { reason } => UiErrorView::Failed { reason: reason@ },
            UiError::Empty { field, template } => UiErrorView::Empty { field, template },
            UiError::AliasExists { alias } => UiErrorView::AliasExists { alias: alias@ },
            UiError::AliasMissing { alias } => UiErrorView::AliasMissing { alias: alias@ },
            UiError::NothingToEdit { kind } => UiErrorView::NothingToEdit { kind },
        }
    }
}

impl UiErrorView {
    /// The message for the user.
    pub open spec fn message(self) -> Seq<char> {
        match self {
            UiErrorView::Failed { reason } => reason,
            UiErrorView::Empty { field, template } => match template {
                MsgTemplate::MustNotBeEmpty => "The "@ + field_text(field)
                    + " must not be empty."@,
                MsgTemplate::EnterANonEmptyName => "Please enter a non-empty "@ + field_text(field)
                    + "."@,
            },
            UiErrorView::AliasExists { alias } => "Alias "@ + alias + " already exists."@,
            UiErrorView::AliasMissing { alias } => "Alias "@ + alias + " does not exist."@,
            UiErrorView::NothingToEdit { kind } => "No "@ + kind_text(kind) + "s to edit"@,
        }
    }
}

impl UiError {
    /// The message for the user.
    pub fn to_string(&self) -> (r: String)
        ensures
            r@ == self@.message(),
    {
        let mut r = String::new();
        match self {
            UiError::Failed { reason } => {
                push_str(&mut r, reason.as_str());
            },
            UiError::Empty { field, template } => {
                let name = field.to_string();
                match template {
                    MsgTemplate::MustNotBeEmpty => {
                        push_str(&mut r, "The ");
                        push_str(&mut r, name.as_str());
                        push_str(&mut r, " must not be empty.");
                    },
                    MsgTemplate::EnterANonEmptyName => {
                        push_str(&mut r, "Please enter a non-empty ");
                        push_str(&mut r, name.as_str());
                        push_str(&mut r, ".");
                    },
                }
            },
            UiError::AliasExists { alias } => {
                push_str(&mut r, "Alias ");
                push_str(&mut r, alias.as_str());
                push_str(&mut r, " already exists.");
            },
            UiError::AliasMissing { alias } => {
                push_str(&mut r, "Alias ");
                push_str(&mut r, alias.as_str());
                push_str(&mut r, " does not exist.");
            },
            UiError::NothingToEdit { kind } => {
                let name = kind.to_string();
                push_str(&mut r, "No ");
                push_str(&mut r, name.as_str());
                push_str(&mut r, "s to edit");
            },
        }
        proof {
            assert(r@ =~= self@.message());
        }
        r
    }
}

/// What a [`Selectable`] holds.
pub ghost struct SelectableView {
    pub item: Seq<char>,
    pub checked: bool,
}

/// An entry of a menu: the alias to show, and whether it is ticked already.
#[derive(Clone, Copy, Debug, PartialEq, Eq)]
pub struct Selectable<'a> {
    pub item: &'a str,
    pub checked: bool,
}

impl<'a> View for Selectable<'a> {
    type V = SelectableView;

    open spec fn view(&self) -> SelectableView {
        SelectableView { item: self.item@, checked: self.checked }
    }
}

/// Lets the user choose one entry of a menu, and returns its index.
pub trait SelectOne {
    fn select_one(&mut self, kind: Kind, items: &[Selectable<'_>]) -> Result<usize, UiError>;
}

/// Lets the user choose any number of entries of a menu, and returns their
/// indices.
pub trait SelectMany {
    fn select_many(&mut self, kind: Kind, items: &[Selectable<'_>]) -> Result<Vec<usize>, UiError>;
}

/// Asks the user for the text of a field of the record `id`, with `initial`
/// filled in. An implementation may hold each attempt to `validator`.
pub trait PromptText {
    fn prompt_for_text<V: validation::Validator>(
        &mut self,
        field: Field,
        id: &str,
        initial: Option<String>,
        validator: V,
    ) -> Result<String, UiError>;
}

/// Asks the user for the alias of a new record. An implementation may hold
/// each attempt to `validator`.
pub trait PromptAlias {
    fn prompt_for_alias<V: validation::Validator>(&mut self, kind: Kind, validator: V) -> Result<
        String,
        UiError,
    >;
}

impl<'a, T: SelectOne> SelectOne for &'a mut T {
    fn select_one(&mut self, kind: Kind, items: &[Selectable<'_>]) -> Result<usize, UiError> {
        T::select_one(*self, kind, items)
    }
}

impl<'a, T: SelectMany> SelectMany for &'a mut T {
    fn select_many(&mut self, kind: Kind, items: &[Selectable<'_>]) -> Result<Vec<usize>, UiError> {
        T::select_many(*self, kind, items)
    }
}

impl<'a, T: PromptText> PromptText for &'a mut T {
    fn prompt_for_text<V: validation::Validator>(
        &mut self,
        field: Field,
        id: &str,
        initial: Option<String>,
        validator: V,
    ) -> Result<String, UiError> {
        T::prompt_for_text(*self, field, id, initial, validator)
    }
}

impl<'a, T: PromptAlias> PromptAlias for &'a mut T {
    fn prompt_for_alias<V: validation::Validator>(&mut self, kind: Kind, validator: V) -> Result<
        String,
        UiError,
    > {
        T::prompt_for_alias(*self, kind, validator)
    }
}

/// The menu for some aliases: each alias in its order, ticked where it is
/// among `pre_select`.
pub open spec fn menu(aliases: Seq<Seq<char>>, pre_select: Seq<Seq<char>>) -> Seq<SelectableView> {
    aliases.map_values(|a: Seq<char>| SelectableView { item: a, checked: pre_select.contains(a) })
}

/// The characters of each of `ids`.
pub open spec fn ids_view(ids: Seq<Id>) -> Seq<Seq<char>> {
    ids.map_values(|id: Id| id@)
}

/// What each entry of a menu holds.
pub open spec fn menu_view(items: Seq<Selectable<'_>>) -> Seq<SelectableView> {
    items.map_values(|s: Selectable<'_>| s@)
}

/// Whether `alias` is among `ids`.
pub fn is_among(alias: &Id, ids: &[Id]) -> (r: bool)
    ensures
        r == ids_view(ids@).contains(alias@),
{
    let mut i: usize = 0;
    while i < ids.len()
        invariant
            i <= ids.len(),
            forall|k: int| 0 <= k < i ==> ids_view(ids@)[k] != alias@,
        decreases ids.len() - i,
    {
        if ids[i].0 == alias.0 {
            proof {
                assert(ids_view(ids@)[i as int] == alias@);
            }
            return true;
        }
        i += 1;
    }
    false
}

/// The menu of the records of `kind`: see [`menu`].
pub fn selectable_items<'config>(kind: Kind, config: &'config Config, pre_select: &[Id]) -> (r: Vec<
    Selectable<'config>,
>)
    ensures
        menu_view(r@) == menu(config@.aliases(kind), ids_view(pre_select@)),
{
    let mut out: Vec<Selectable<'config>> = Vec::new();
    let ghost aliases = config@.aliases(kind);
    let ghost pre = ids_view(pre_select@);
    match kind {
        Kind::Navigator => {
            let mut i: usize = 0;
            while i < config.navigators.len()
                invariant
                    i <= config.navigators.len(),
                    aliases == config@.navigator_aliases(),
                    pre == ids_view(pre_select@),
                    menu_view(out@) =~= menu(aliases.take(i as int), pre),
                decreases config.navigators.len() - i,
            {
                let nav = &config.navigators[i];
                let ghost before = out@;
                let item = Selectable {
                    item: nav.alias.as_str(),
                    checked: is_among(&nav.alias, pre_select),
                };
                out.push(item);
                proof {
                    assert(menu_view(out@) =~= menu_view(before).push(item@));
                    assert(menu(aliases.take(i + 1), pre) =~= menu(aliases.take(i as int), pre).push(
                        item@,
                    ));
                }
                i += 1;
            }
            proof {
                assert(aliases.take(i as int) =~= aliases);
            }
        },
        Kind::Driver => {
            let mut i: usize = 0;
            while i < config.drivers.len()
                invariant
                    i <= config.drivers.len(),
                    aliases == config@.driver_aliases(),
                    pre == ids_view(pre_select@),
                    menu_view(out@) =~= menu(aliases.take(i as int), pre),
                decreases config.drivers.len() - i,
            {
                let drv = &config.drivers[i];
                let ghost before = out@;
                let item = Selectable {
                    item: drv.navigator.alias.as_str(),
                    checked: is_among(&drv.navigator.alias, pre_select),
                };
                out.push(item);
                proof {
                    assert(menu_view(out@) =~= menu_view(before).push(item@));
                    assert(menu(aliases.take(i + 1), pre) =~= menu(aliases.take(i as int), pre).push(
                        item@,
                    ));
                }
                i += 1;
            }
            proof {
                assert(aliases.take(i as int) =~= aliases);
            }
        },
    }
    out
}

/// The alias at an index, if there is one.
pub open spec fn alias_at(aliases: Seq<Seq<char>>, chosen: int) -> Option<Seq<char>> {
    if 0 <= chosen < aliases.len() {
        Some(aliases[chosen])
    } else {
        None
    }
}

/// The characters of an optional identifier.
pub open spec fn opt_id_view(id: Option<&Id>) -> Option<Seq<char>> {
    match id {
        Some(id) => Some(id@),
        None => None,
    }
}

/// The alias of the record of `kind` at the index `chosen`, if there is one.
pub fn id_at<'config>(kind: Kind, config: &'config Config, chosen: usize) -> (r: Option<
    &'config Id,
>)
    ensures
        opt_id_view(r) == alias_at(config@.aliases(kind), chosen as int),
{
    match kind {
        Kind::Navigator => {
            if chosen < config.navigators.len() {
                Some(&config.navigators[chosen].alias)
            } else {
                None
            }
        },
        Kind::Driver => {
            if chosen < config.drivers.len() {
                Some(&config.drivers[chosen].navigator.alias)
            } else {
                None
            }
        },
    }
}

/// The aliases at the indices `selection`, in the order of the selection.
/// An index at which there is none is passed over.
pub open spec fn aliases_at(aliases: Seq<Seq<char>>, selection: Seq<usize>) -> Seq<Seq<char>>
    decreases selection.len(),
{
    if selection.len() == 0 {
        Seq::empty()
    } else {
        let before = aliases_at(aliases, selection.drop_last());
        match alias_at(aliases, selection.last() as int) {
            Some(a) => before.push(a),
            None => before,
        }
    }
}

/// The characters of each of `ids`.
pub open spec fn id_refs_view(ids: Seq<&Id>) -> Seq<Seq<char>> {
    ids.map_values(|id: &Id| id@)
}

/// The aliases of the records of `kind` at the indices `selection`: see
/// [`aliases_at`].
pub fn ids_at<'config>(kind: Kind, config: &'config Config, selection: &Vec<usize>) -> (r: Vec<
    &'config Id,
>)
    ensures
        id_refs_view(r@) == aliases_at(config@.aliases(kind), selection@),
{
    let mut out: Vec<&'config Id> = Vec::new();
    let ghost aliases = config@.aliases(kind);
    let mut i: usize = 0;
    proof {
        assert(selection@.take(0) =~= Seq::empty());
        assert(id_refs_view(out@) =~= Seq::empty());
    }
    while i < selection.len()
        invariant
            i <= selection.len(),
            aliases == config@.aliases(kind),
            id_refs_view(out@) == aliases_at(aliases, selection@.take(i as int)),
        decreases selection.len() - i,
    {
        proof {
            assert(selection@.take(i + 1).drop_last() =~= selection@.take(i as int));
        }
        let ghost before = out@;
        match id_at(kind, config, selection[i]) {
            Some(id) => {
                out.push(id);
                proof {
                    assert(id_refs_view(out@) =~= id_refs_view(before).push(id@));
                }
            },
            None => {},
        }
        i += 1;
    }
    proof {
        assert(selection@.take(i as int) =~= selection@);
    }
    out
}

/// Lets the user choose one record of `kind`, from the menu that
/// [`selectable_items`] makes with nothing ticked.
///
/// Where there is no record of the kind the user is not asked, and there is
/// no alias. Otherwise the answer of the interface decides: its error is
/// passed on, and its index gives the alias as [`id_at`] says.
pub fn select_id_from<'config, U: SelectOne>(mut ui: U, kind: Kind, config: &'config Config) -> (r:
    Result<Option<&'config Id>, UiError>)
    ensures
        config@.aliases(kind).len() == 0 ==> r matches Ok(None),
        r matches Ok(Some(id)) ==> config@.aliases(kind).contains(id@),
        r matches Ok(found) ==> config@.aliases(kind).len() == 0 || exists|chosen: int|
            opt_id_view(found) == alias_at(config@.aliases(kind), chosen),
{
    let none: Vec<Id> = Vec::new();
    let selectables = selectable_items(kind, config, none.as_slice());
    proof {
        assert(menu_view(selectables@).len() == selectables@.len());
        assert(menu(config@.aliases(kind), ids_view(none@)).len() == config@.aliases(kind).len());
    }
    if selectables.len() == 0 {
        return Ok(None);
    }
    let chosen = match ui.select_one(kind, selectables.as_slice()) {
        Ok(chosen) => chosen,
        Err(e) => {
            return Err(e);
        },
    };
    let found = id_at(kind, config, chosen);
    proof {
        assert(opt_id_view(found) == alias_at(config@.aliases(kind), chosen as int));
    }
    Ok(found)
}

/// Lets the user choose any number of records of `kind`, from the menu
/// that [`selectable_items`] makes with `pre_selected` ticked.
///
/// Where there is no record of the kind the user is not asked, and there is
/// no alias. Otherwise the answer of the interface decides: its error is
/// passed on, and its indices give the aliases as [`ids_at`] says.
pub fn select_ids_from<'config, U: SelectMany>(
    mut ui: U,
    kind: Kind,
    config: &'config Config,
    pre_selected: &[Id],
) -> (r: Result<Vec<&'config Id>, UiError>)
    ensures
        config@.aliases(kind).len() == 0 ==> (r matches Ok(ids) && ids@.len() == 0),
        r matches Ok(ids) ==> forall|k: int|
            0 <= k < ids@.len() ==> config@.aliases(kind).contains(#[trigger] ids@[k]@),
        r matches Ok(ids) ==> exists|selection: Seq<usize>|
            id_refs_view(ids@) == aliases_at(config@.aliases(kind), selection),
{
    let selectable = selectable_items(kind, config, pre_selected);
    proof {
        assert(menu_view(selectable@).len() == selectable@.len());
        assert(menu(config@.aliases(kind), ids_view(pre_selected@)).len() == config@.aliases(
            kind,
        ).len());
    }
    if selectable.len() == 0 {
        let none: Vec<&'config Id> = Vec::new();
        proof {
            assert(id_refs_view(none@) =~= aliases_at(
                config@.aliases(kind),
                Seq::<usize>::empty(),
            ));
        }
        return Ok(none);
    }
    let selection = match ui.select_many(kind, selectable.as_slice()) {
        Ok(selection) => selection,
        Err(e) => {
            return Err(e);
        },
    };
    let ids = ids_at(kind, config, &selection);
    proof {
        lemma_aliases_at(config@.aliases(kind), selection@);
        assert forall|k: int| 0 <= k < ids@.len() implies config@.aliases(kind).contains(
            #[trigger] ids@[k]@,
        ) by {
            assert(id_refs_view(ids@)[k] == ids@[k]@);
        }
    }
    Ok(ids)
}

/// Every alias that [`aliases_at`] gives is one of the aliases.
pub proof fn lemma_aliases_at(aliases: Seq<Seq<char>>, selection: Seq<usize>)
    ensures
        forall|k: int|
            0 <= k < aliases_at(aliases, selection).len() ==> aliases.contains(
                #[trigger] aliases_at(aliases, selection)[k],
            ),
    decreases selection.len(),
{
    if selection.len() > 0 {
        lemma_aliases_at(aliases, selection.drop_last());
        let before = aliases_at(aliases, selection.drop_last());
        let all = aliases_at(aliases, selection);
        assert forall|k: int| 0 <= k < all.len() implies aliases.contains(#[trigger] all[k]) by {
            if k < before.len() {
                assert(all[k] == before[k]);
            } else {
                assert(all[k] == aliases[selection.last() as int]);
            }
        }
    }
}


/// The characters of an optional string that is borrowed.
pub open spec fn opt_ref_view(s: Option<&String>) -> Option<Seq<char>> {
    match s {
        Some(s) => Some(s@),
        None => None,
    }
}

/// The text that a prompt starts with: what was given on the command line,
/// or else what the record holds already.
pub fn initial_text(given: Option<String>, existing: Option<&String>) -> (r: Option<String>)
    ensures
        opt_view(r) == crate::data::or_else(opt_view(given), opt_ref_view(existing)),
{
    match given {
        Some(s) => Some(s),
        None => match existing {
            Some(s) => Some(s.clone()),
            None => None,
        },
    }
}

/// What an answer for a field that must not be empty comes to: the answer,
/// or the refusal with the sentence `template` where the answer is blank.
pub open spec fn answer_verdict(field: Field, template: MsgTemplate, answer: Seq<char>) -> Result<
    Seq<char>,
    UiErrorView,
> {
    if validation::is_blank(answer) {
        Err(UiErrorView::Empty { field, template })
    } else {
        Ok(answer)
    }
}

/// What the outcome of a prompt holds.
pub open spec fn answer_view(r: Result<String, UiError>) -> Result<Seq<char>, UiErrorView> {
    match r {
        Ok(s) => Ok(s@),
        Err(e) => Err(e@),
    }
}

/// Holds the answer for `field` to the check that it is not blank: see
/// [`answer_verdict`].
pub fn checked_answer(field: Field, template: MsgTemplate, answer: String) -> (r: Result<
    String,
    UiError,
>)
    ensures
        answer_view(r) == answer_verdict(field, template, answer@),
{
    if validation::blank(answer.as_str()) {
        Err(UiError::Empty { field, template })
    } else {
        Ok(answer)
    }
}

/// Asks for the text of `field` of the record `id`, and does not take a
/// blank answer: where the interface lets one through, it is refused here,
/// with the sentence whose turn it is.
pub fn prompt_for<U: PromptText>(ui: &mut U, field: Field, id: &str, initial: Option<String>) -> (r:
    Result<String, UiError>)
    ensures
        r matches Ok(s) ==> !validation::is_blank(s@),
{
    let mut validator = validation::CheckForEmpty::new(field);
    let answer = match ui.prompt_for_text(field, id, initial, &mut validator) {
        Ok(answer) => answer,
        Err(e) => {
            return Err(e);
        },
    };
    checked_answer(field, validator.next, answer)
}

/// What holds of a navigator that was completed under `alias`: it goes by
/// that alias, and neither its name nor its address is blank.
pub open spec fn completes(n: NavigatorView, alias: Seq<char>) -> bool {
    &&& n.alias == alias
    &&& !validation::is_blank(n.name)
    &&& !validation::is_blank(n.email)
}

/// Asks for the name and the address of the navigator `alias`, each
/// starting with what was given or else with what `existing` holds.
pub fn finish_nav<U: PromptText>(
    ui: &mut U,
    alias: Id,
    name: Option<String>,
    email: Option<String>,
    existing: Option<&Navigator>,
) -> (r: Result<Navigator, UiError>)
    ensures
        r matches Ok(n) ==> completes(n@, alias@),
{
    let old_name = match existing {
        Some(n) => Some(&n.name),
        None => None,
    };
    let old_email = match existing {
        Some(n) => Some(&n.email),
        None => None,
    };
    let name = match prompt_for(ui, Field::Name, alias.as_str(), initial_text(name, old_name)) {
        Ok(name) => name,
        Err(e) => {
            return Err(e);
        },
    };
    let email = match prompt_for(ui, Field::Email, alias.as_str(), initial_text(email, old_email)) {
        Ok(email) => email,
        Err(e) => {
            return Err(e);
        },
    };
    Ok(Navigator { alias, name, email })
}

/// Asks for the name, the address and the key of the driver `alias`, each
/// starting with what was given or else with what `existing` holds. The key
/// may be left empty, and the driver then has none.
pub fn finish_drv<U: PromptText>(
    ui: &mut U,
    alias: Id,
    name: Option<String>,
    email: Option<String>,
    key: Option<String>,
    existing: Option<&Driver>,
) -> (r: Result<Driver, UiError>)
    ensures
        r matches Ok(d) ==> completes(d@.navigator, alias@) && d@.wf(),
{
    let old_nav = match existing {
        Some(d) => Some(&d.navigator),
        None => None,
    };
    let old_key = match existing {
        Some(d) => match &d.key {
            Some(k) => Some(k),
            None => None,
        },
        None => None,
    };
    let navigator = match finish_nav(ui, alias, name, email, old_nav) {
        Ok(navigator) => navigator,
        Err(e) => {
            return Err(e);
        },
    };
    let check = validation::CheckForEmpty::new(Field::Key).with_allow_empty(true);
    let answer = match ui.prompt_for_text(
        Field::Key,
        navigator.alias.as_str(),
        initial_text(key, old_key),
        check,
    ) {
        Ok(answer) => answer,
        Err(e) => {
            return Err(e);
        },
    };
    Ok(Driver { navigator, key: crate::data::key_from(answer) })
}

/// What the check of an alias comes to: it must not be blank, and it must
/// be taken, or free, among the records of the kind.
pub open spec fn alias_verdict(
    config: ConfigView,
    kind: Kind,
    check: validation::CheckMode,
    template: MsgTemplate,
    alias: Seq<char>,
) -> Result<(), UiErrorView> {
    if validation::is_blank(alias) {
        Err(UiErrorView::Empty { field: Field::Alias, template })
    } else {
        let known = position(config.aliases(kind), alias) is Some;
        match check {
            validation::CheckMode::MustExist => if known {
                Ok(())
            } else {
                Err(UiErrorView::AliasMissing { alias })
            },
            validation::CheckMode::MustNotExist => if known {
                Err(UiErrorView::AliasExists { alias })
            } else {
                Ok(())
            },
        }
    }
}

/// Holds `alias` to the check of an alias: see [`alias_verdict`].
pub fn verify_alias(
    config: &Config,
    kind: Kind,
    check: validation::CheckMode,
    template: MsgTemplate,
    alias: &str,
) -> (r: Result<(), UiError>)
    ensures
        validation::checked_view(r) == alias_verdict(config@, kind, check, template, alias@),
{
    let mut not_empty = validation::CheckForEmpty {
        next: template,
        field: Field::Alias,
        allow_empty: false,
    };
    match validation::Validator::validate(&mut not_empty, alias) {
        Ok(_) => {},
        Err(e) => {
            return Err(e);
        },
    }
    let mut lookup = validation::Lookup::new(config, check, kind);
    validation::Validator::validate(&mut lookup, alias)
}

/// Completes the navigator that `partial` names, which must be in the
/// registry, by asking for its name and its address.
///
/// Where the alias is blank or no navigator goes by it, the user is not
/// asked and the error says so. A navigator that comes back goes by the
/// alias, and neither its name nor its address is blank.
pub fn complete_existing_nav<U: PromptText>(mut ui: U, partial: PartialIdNav, config: &Config) -> (r:
    Result<Navigator, UiError>)
    ensures
        alias_verdict(
            config@,
            Kind::Navigator,
            validation::CheckMode::MustExist,
            MsgTemplate::MustNotBeEmpty,
            partial@.id,
        ) matches Err(e) ==> r matches Err(f) && f@ == e,
        r matches Ok(n) ==> completes(n@, partial@.id) && position(
            config@.navigator_aliases(),
            partial@.id,
        ) is Some,
{
    let PartialIdNav { id, name, email, key: _ } = partial;
    match verify_alias(
        config,
        Kind::Navigator,
        validation::CheckMode::MustExist,
        MsgTemplate::MustNotBeEmpty,
        id.as_str(),
    ) {
        Ok(_) => {},
        Err(e) => {
            return Err(e);
        },
    }
    let lookup = validation::Lookup::new(config, validation::CheckMode::MustExist, Kind::Navigator);
    let existing = lookup.matching_navigator(id.as_str());
    finish_nav(&mut ui, id, name, email, existing)
}

/// Completes the driver that `partial` names, which must be in the
/// registry, by asking for its name, its address and its key.
///
/// Where the alias is blank or no driver goes by it, the user is not asked
/// and the error says so. A driver that comes back goes by the alias,
/// neither its name nor its address is blank, and its key is not empty.
pub fn complete_existing_drv<U: PromptText>(mut ui: U, partial: PartialIdNav, config: &Config) -> (r:
    Result<Driver, UiError>)
    ensures
        alias_verdict(
            config@,
            Kind::Driver,
            validation::CheckMode::MustExist,
            MsgTemplate::MustNotBeEmpty,
            partial@.id,
        ) matches Err(e) ==> r matches Err(f) && f@ == e,
        r matches Ok(d) ==> completes(d@.navigator, partial@.id) && d@.wf() && position(
            config@.driver_aliases(),
            partial@.id,
        ) is Some,
{
    let PartialIdNav { id, name, email, key } = partial;
    match verify_alias(
        config,
        Kind::Driver,
        validation::CheckMode::MustExist,
        MsgTemplate::MustNotBeEmpty,
        id.as_str(),
    ) {
        Ok(_) => {},
        Err(e) => {
            return Err(e);
        },
    }
    let lookup = validation::Lookup::new(config, validation::CheckMode::MustExist, Kind::Driver);
    let existing = lookup.matching_driver(id.as_str());
    finish_drv(&mut ui, id, name, email, key, existing)
}

/// Settles the alias of a new record of `kind`: the one that was given, or
/// else the one that the user enters. Either is held to the check that it
/// is not blank and not taken.
pub fn prompt_alias<U: PromptAlias>(ui: &mut U, kind: Kind, config: &Config, given: Option<String>) -> (r:
    Result<Id, UiError>)
    ensures
        given matches Some(a) ==> (match alias_verdict(
            config@,
            kind,
            validation::CheckMode::MustNotExist,
            MsgTemplate::MustNotBeEmpty,
            a@,
        ) {
            Ok(_) => r matches Ok(id) && id@ == a@,
            Err(e) => r matches Err(f) && f@ == e,
        }),
        r matches Ok(id) ==> !validation::is_blank(id@) && position(config@.aliases(kind), id@)
            is None,
{
    let mut validator = validation::AndThen(
        validation::CheckForEmpty::new(Field::Alias),
        validation::Lookup::new(config, validation::CheckMode::MustNotExist, kind),
    );
    let id = match given {
        Some(id) => id,
        None => match ui.prompt_for_alias(kind, &mut validator) {
            Ok(id) => id,
            Err(e) => {
                return Err(e);
            },
        },
    };
    match verify_alias(
        config,
        kind,
        validation::CheckMode::MustNotExist,
        validator.0.next,
        id.as_str(),
    ) {
        Ok(_) => Ok(Id(id)),
        Err(e) => Err(e),
    }
}

/// Completes a new navigator from `partial`, by asking for what is not
/// there: the alias, then the name and the address.
///
/// Where an alias is given that is blank or taken, the user is not asked
/// and the error says so. A navigator that comes back goes by the alias that
/// was given, if one was; its alias is not blank and not taken, and neither
/// its name nor its address is blank.
pub fn complete_new_nav<U: PromptAlias + PromptText>(mut ui: U, partial: PartialNav, config: &Config) -> (r:
    Result<Navigator, UiError>)
    ensures
        partial@.id matches Some(a) ==> (alias_verdict(
            config@,
            Kind::Navigator,
            validation::CheckMode::MustNotExist,
            MsgTemplate::MustNotBeEmpty,
            a,
        ) matches Err(e) ==> r matches Err(f) && f@ == e),
        r matches Ok(n) ==> {
            &&& completes(n@, n@.alias)
            &&& !validation::is_blank(n@.alias)
            &&& position(config@.navigator_aliases(), n@.alias) is None
            &&& partial@.id matches Some(a) ==> n@.alias == a
        },
{
    let PartialNav { id, name, email, key: _ } = partial;
    let alias = match prompt_alias(&mut ui, Kind::Navigator, config, id) {
        Ok(alias) => alias,
        Err(e) => {
            return Err(e);
        },
    };
    finish_nav(&mut ui, alias, name, email, None)
}

/// Completes a new driver from `partial`, by asking for what is not there:
/// the alias, then the name, the address and the key.
///
/// Where an alias is given that is blank or taken, the user is not asked
/// and the error says so. A driver that comes back goes by the alias that
/// was given, if one was; its alias is not blank and not taken, neither its
/// name nor its address is blank, and its key is not empty.
pub fn complete_new_drv<U: PromptAlias + PromptText>(mut ui: U, partial: PartialNav, config: &Config) -> (r:
    Result<Driver, UiError>)
    ensures
        partial@.id matches Some(a) ==> (alias_verdict(
            config@,
            Kind::Driver,
            validation::CheckMode::MustNotExist,
            MsgTemplate::MustNotBeEmpty,
            a,
        ) matches Err(e) ==> r matches Err(f) && f@ == e),
        r matches Ok(d) ==> {
            &&& completes(d@.navigator, d@.navigator.alias)
            &&& d@.wf()
            &&& !validation::is_blank(d@.navigator.alias)
            &&& position(config@.driver_aliases(), d@.navigator.alias) is None
            &&& partial@.id matches Some(a) ==> d@.navigator.alias == a
        },
{
    let PartialNav { id, name, email, key } = partial;
    let alias = match prompt_alias(&mut ui, Kind::Driver, config, id) {
        Ok(alias) => alias,
        Err(e) => {
            return Err(e);
        },
    };
    finish_drv(&mut ui, alias, name, email, key, None)
}

} // verus!
