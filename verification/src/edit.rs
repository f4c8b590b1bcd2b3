//! Changing a record of the registry.

use crate::config::{lemma_position_from, position, Config, ConfigView};
use crate::data::{
    DriverView, Driver, Id, Kind, Modification, Navigator, NavigatorView, PartialIdNav, PartialNav,
};
use crate::ui::validation::CheckMode;
use crate::ui::{
    alias_verdict, answer_view, complete_existing_drv, complete_existing_nav, completes,
    opt_id_view, select_id_from, MsgTemplate, PromptAlias, PromptText, SelectOne, UiError,
    UiErrorView,
};
use vstd::pervasive::unreached;
use vstd::prelude::*;

verus! {

/// What the choice of a record to change comes to: its alias, or the error
/// that there is nothing to change where none was chosen.
pub open spec fn chosen_alias(kind: Kind, chosen: Option<Seq<char>>) -> Result<
    Seq<char>,
    UiErrorView,
> {
    match chosen {
        Some(alias) => Ok(alias),
        None => Err(UiErrorView::NothingToEdit { kind }),
    }
}

/// The alias to change, from what was chosen: see [`chosen_alias`].
pub fn existing_id(kind: Kind, chosen: Option<&Id>) -> (r: Result<String, UiError>)
    ensures
        answer_view(r) == chosen_alias(kind, opt_id_view(chosen)),
{
    match chosen {
        Some(id) => Ok(id.0.clone()),
        None => Err(UiError::NothingToEdit { kind }),
    }
}

/// Lets the user choose the record of `kind` to change.
///
/// Where there is no record of the kind, the user is not asked and the
/// error says that there is nothing to change. An alias that comes back is
/// one of the registry.
pub fn select_existing_id<U: SelectOne>(ui: U, kind: Kind, config: &Config) -> (r: Result<
    String,
    UiError,
>)
    ensures
        config@.aliases(kind).len() == 0 ==> (r matches Err(e) && e@ == (
        UiErrorView::NothingToEdit { kind })),
        r matches Ok(alias) ==> config@.aliases(kind).contains(alias@),
{
    match select_id_from(ui, kind, config) {
        Ok(id) => existing_id(kind, id),
        Err(e) => Err(e),
    }
}

/// The navigators with the first one that goes by the alias of `n`
/// replaced by `n`.
pub open spec fn with_navigator_replaced(navigators: Seq<NavigatorView>, n: NavigatorView) -> Seq<
    NavigatorView,
> {
    match position(navigators.map_values(|m: NavigatorView| m.alias), n.alias) {
        Some(i) => navigators.update(i, n),
        None => navigators,
    }
}

/// The drivers with the first one that goes by the alias of `d` replaced
/// by `d`.
pub open spec fn with_driver_replaced(drivers: Seq<DriverView>, d: DriverView) -> Seq<DriverView> {
    match position(drivers.map_values(|m: DriverView| m.navigator.alias), d.navigator.alias) {
        Some(i) => drivers.update(i, d),
        None => drivers,
    }
}

/// Whether two registries differ.
pub open spec fn differs(before: ConfigView, after: ConfigView) -> Modification {
    if before == after {
        Modification::Unchanged
    } else {
        Modification::Changed
    }
}

/// Puts `navigator` in the place of the first navigator that goes by its
/// alias, and says whether that changed anything.
pub fn replace_navigator(config: &mut Config, navigator: Navigator) -> (r: Modification)
    requires
        position(old(config)@.navigator_aliases(), navigator@.alias) is Some,
    ensures
        final(config)@.navigators == with_navigator_replaced(old(config)@.navigators, navigator@),
        final(config)@.drivers == old(config)@.drivers,
        r == differs(old(config)@, final(config)@),
{
    let ghost before = config@;
    match config.find_navigator(navigator.alias.as_str()) {
        Some(i) => {
            if navigator != config.navigators[i] {
                let ghost n = navigator@;
                config.navigators.set(i, navigator);
                proof {
                    assert(config@.navigators =~= before.navigators.update(i as int, n));
                    assert(config@.navigators[i as int] != before.navigators[i as int]);
                }
                Modification::Changed
            } else {
                proof {
                    assert(before.navigators.update(i as int, navigator@) =~= before.navigators);
                }
                Modification::Unchanged
            }
        },
        None => unreached(),
    }
}

/// Puts `driver` in the place of the first driver that goes by its alias,
/// and says whether that changed anything.
pub fn replace_driver(config: &mut Config, driver: Driver) -> (r: Modification)
    requires
        position(old(config)@.driver_aliases(), driver@.navigator.alias) is Some,
    ensures
        final(config)@.drivers == with_driver_replaced(old(config)@.drivers, driver@),
        final(config)@.navigators == old(config)@.navigators,
        r == differs(old(config)@, final(config)@),
{
    let ghost before = config@;
    match config.find_driver(driver.navigator.alias.as_str()) {
        Some(i) => {
            if driver != config.drivers[i] {
                let ghost d = driver@;
                config.drivers.set(i, driver);
                proof {
                    assert(config@.drivers =~= before.drivers.update(i as int, d));
                    assert(config@.drivers[i as int] != before.drivers[i as int]);
                }
                Modification::Changed
            } else {
                proof {
                    assert(before.drivers.update(i as int, driver@) =~= before.drivers);
                }
                Modification::Unchanged
            }
        },
        None => unreached(),
    }
}

/// Whether `after` is `before` with the record of `kind` that goes by
/// `alias` replaced by one that was completed under that alias.
pub open spec fn edited(before: ConfigView, after: ConfigView, kind: Kind, alias: Seq<char>) -> bool {
    match kind {
        Kind::Navigator => {
            &&& position(before.navigator_aliases(), alias) matches Some(i)
            &&& after.drivers == before.drivers
            &&& after.navigators == before.navigators.update(i, after.navigators[i])
            &&& completes(after.navigators[i], alias)
        },
        Kind::Driver => {
            &&& position(before.driver_aliases(), alias) matches Some(i)
            &&& after.navigators == before.navigators
            &&& after.drivers == before.drivers.update(i, after.drivers[i])
            &&& completes(after.drivers[i].navigator, alias)
            &&& after.drivers[i].wf()
        },
    }
}

/// A registry that is in order stays in order when a record is changed.
pub proof fn lemma_edited_keeps_wf(
    before: ConfigView,
    after: ConfigView,
    kind: Kind,
    alias: Seq<char>,
)
    requires
        before.wf(),
        edited(before, after, kind, alias),
    ensures
        after.wf(),
{
    match kind {
        Kind::Navigator => {
            lemma_position_from(before.navigator_aliases(), alias, 0);
            let p = position(before.navigator_aliases(), alias)->0;
            assert(before.navigator_aliases()[p] == before.navigators[p].alias);
            assert forall|i: int, j: int| 0 <= i < j < after.navigators.len() implies after.navigators[i].alias
                != after.navigators[j].alias by {
                assert(after.navigators[i].alias == before.navigators[i].alias);
                assert(after.navigators[j].alias == before.navigators[j].alias);
            }
        },
        Kind::Driver => {
            lemma_position_from(before.driver_aliases(), alias, 0);
            let p = position(before.driver_aliases(), alias)->0;
            assert(before.driver_aliases()[p] == before.drivers[p].navigator.alias);
            assert forall|i: int, j: int| 0 <= i < j < after.drivers.len() implies after.drivers[i].navigator.alias
                != after.drivers[j].navigator.alias by {
                assert(after.drivers[i].navigator.alias == before.drivers[i].navigator.alias);
                assert(after.drivers[j].navigator.alias == before.drivers[j].navigator.alias);
            }
            assert forall|i: int| 0 <= i < after.drivers.len() implies (
            #[trigger] after.drivers[i]).wf() by {
                if i != p {
                    assert(after.drivers[i] == before.drivers[i]);
                }
            }
        },
    }
}

/// Completes the record of `kind` that `new` names with the help of the
/// user, and puts it in the place of the one in the registry.
///
/// Where the alias is blank or no record of the kind goes by it, the user
/// is not asked and the error says so. Where the record cannot be completed
/// the registry stays as it is; so it does where the user changed nothing,
/// and the result says so. Otherwise the one record is replaced: see
/// [`edited`].
pub fn edit<U: PromptText>(ui: U, kind: Kind, config: &mut Config, new: PartialIdNav) -> (r: Result<
    Modification,
    UiError,
>)
    ensures
        alias_verdict(
            old(config)@,
            kind,
            CheckMode::MustExist,
            MsgTemplate::MustNotBeEmpty,
            new@.id,
        ) matches Err(e) ==> (r matches Err(f) && f@ == e),
        r is Err ==> final(config)@ == old(config)@,
        r matches Ok(m) ==> m == differs(old(config)@, final(config)@) && edited(
            old(config)@,
            final(config)@,
            kind,
            new@.id,
        ),
        old(config)@.wf() ==> final(config)@.wf(),
{
    let ghost before = config@;
    match kind {
        Kind::Navigator => {
            let navigator = match complete_existing_nav(ui, new, config) {
                Ok(navigator) => navigator,
                Err(e) => {
                    return Err(e);
                },
            };
            let m = replace_navigator(config, navigator);
            proof {
                lemma_position_from(before.navigator_aliases(), new@.id, 0);
                assert(config@.navigators.len() == before.navigators.len());
                let i = position(before.navigator_aliases(), new@.id)->0;
                assert(config@.navigators =~= before.navigators.update(i, config@.navigators[i]));
                if before.wf() {
                    lemma_edited_keeps_wf(before, config@, kind, new@.id);
                }
            }
            Ok(m)
        },
        Kind::Driver => {
            let driver = match complete_existing_drv(ui, new, config) {
                Ok(driver) => driver,
                Err(e) => {
                    return Err(e);
                },
            };
            let m = replace_driver(config, driver);
            proof {
                lemma_position_from(before.driver_aliases(), new@.id, 0);
                assert(config@.drivers.len() == before.drivers.len());
                let i = position(before.driver_aliases(), new@.id)->0;
                assert(config@.drivers =~= before.drivers.update(i, config@.drivers[i]));
                if before.wf() {
                    lemma_edited_keeps_wf(before, config@, kind, new@.id);
                }
            }
            Ok(m)
        },
    }
}

/// Changes a record of `kind`: the one that `new` names, or else the one
/// that the user chooses. What `new` holds besides the alias is what the
/// prompts start with.
///
/// Where an alias is named that is blank or that no record of the kind goes
/// by, the user is not asked and the error says so. Where none is named and
/// there is no record of the kind, the error is that there is nothing to
/// change. Where no record is chosen or the record cannot be completed, the
/// registry stays as it is. Otherwise one record is replaced, as [`edited`]
/// says of its alias.
pub fn run<U: SelectOne + PromptText + PromptAlias>(
    mut ui: U,
    kind: Kind,
    config: &mut Config,
    new: PartialNav,
) -> (r: Result<Modification, UiError>)
    ensures
        new@.id matches Some(alias) ==> (alias_verdict(
            old(config)@,
            kind,
            CheckMode::MustExist,
            MsgTemplate::MustNotBeEmpty,
            alias,
        ) matches Err(e) ==> (r matches Err(f) && f@ == e)),
        new@.id is None && old(config)@.aliases(kind).len() == 0 ==> (r matches Err(e) && e@ == (
        UiErrorView::NothingToEdit { kind })),
        r is Err ==> final(config)@ == old(config)@,
        r matches Ok(m) ==> (m == differs(old(config)@, final(config)@) && exists|alias: Seq<char>|
            edited(old(config)@, final(config)@, kind, alias)),
        r is Ok ==> (new@.id matches Some(alias) ==> edited(
            old(config)@,
            final(config)@,
            kind,
            alias,
        )),
        old(config)@.wf() ==> final(config)@.wf(),
{
    let PartialNav { id, name, email, key } = new;
    let id = match id {
        Some(id) => id,
        None => match select_existing_id(&mut ui, kind, config) {
            Ok(id) => id,
            Err(e) => {
                return Err(e);
            },
        },
    };
    let rest = PartialNav { id: None, name, email, key };
    let partial = PartialIdNav::new(id.as_str()).merge(rest);
    edit(ui, kind, config, partial)
}

} // verus!
