//! Adding a record to the registry.

use crate::config::record::{with_driver, with_navigator};
use crate::config::{
    drivers_view, lemma_position_from, navigators_view, position, Config, ConfigView,
};
use crate::data::{Kind, Modification, PartialNav};
use crate::ui::validation::{is_blank, CheckMode};
use crate::ui::{
    alias_verdict, complete_new_drv, complete_new_nav, completes, MsgTemplate, PromptAlias,
    PromptText, UiError,
};
use vstd::prelude::*;

verus! {

/// Whether `after` is `before` with one new record of `kind` at the end:
/// one whose alias is not blank and was not taken, whose name and address
/// are not blank, and whose key, if it is a driver with one, is not empty.
pub open spec fn added(before: ConfigView, after: ConfigView, kind: Kind) -> bool {
    match kind {
        Kind::Navigator => {
            &&& after.navigators.len() == before.navigators.len() + 1
            &&& after == with_navigator(before, after.navigators.last())
            &&& completes(after.navigators.last(), after.navigators.last().alias)
            &&& !is_blank(after.navigators.last().alias)
            &&& position(before.navigator_aliases(), after.navigators.last().alias) is None
        },
        Kind::Driver => {
            &&& after.drivers.len() == before.drivers.len() + 1
            &&& after == with_driver(before, after.drivers.last())
            &&& completes(after.drivers.last().navigator, after.drivers.last().navigator.alias)
            &&& after.drivers.last().wf()
            &&& !is_blank(after.drivers.last().navigator.alias)
            &&& position(before.driver_aliases(), after.drivers.last().navigator.alias) is None
        },
    }
}

/// A registry that is in order stays in order when a record is added.
pub proof fn lemma_added_keeps_wf(before: ConfigView, after: ConfigView, kind: Kind)
    requires
        before.wf(),
        added(before, after, kind),
    ensures
        after.wf(),
{
    match kind {
        Kind::Navigator => {
            let a = after.navigators.last().alias;
            lemma_position_from(before.navigator_aliases(), a, 0);
            assert forall|i: int, j: int| 0 <= i < j < after.navigators.len() implies after.navigators[i].alias
                != after.navigators[j].alias by {
                if j == before.navigators.len() {
                    assert(before.navigator_aliases()[i] == before.navigators[i].alias);
                } else {
                    assert(after.navigators[i] == before.navigators[i]);
                    assert(after.navigators[j] == before.navigators[j]);
                }
            }
        },
        Kind::Driver => {
            let a = after.drivers.last().navigator.alias;
            lemma_position_from(before.driver_aliases(), a, 0);
            assert forall|i: int, j: int| 0 <= i < j < after.drivers.len() implies after.drivers[i].navigator.alias
                != after.drivers[j].navigator.alias by {
                if j == before.drivers.len() {
                    assert(before.driver_aliases()[i] == before.drivers[i].navigator.alias);
                } else {
                    assert(after.drivers[i] == before.drivers[i]);
                    assert(after.drivers[j] == before.drivers[j]);
                }
            }
            assert forall|i: int| 0 <= i < after.drivers.len() implies (
            #[trigger] after.drivers[i]).wf() by {
                if i < before.drivers.len() {
                    assert(after.drivers[i] == before.drivers[i]);
                }
            }
        },
    }
}

/// Completes a new record of `kind` from `partial` with the help of the
/// user, and adds it at the end of the registry.
///
/// Where `partial` names an alias that is blank or taken, the user is not
/// asked and the error says so. Where the record cannot be completed the
/// registry stays as it is. Otherwise it has changed: see [`added`].
pub fn run<U: PromptAlias + PromptText>(
    ui: U,
    kind: Kind,
    config: &mut Config,
    partial: PartialNav,
) -> (r: Result<Modification, UiError>)
    ensures
        partial@.id matches Some(alias) ==> (alias_verdict(
            old(config)@,
            kind,
            CheckMode::MustNotExist,
            MsgTemplate::MustNotBeEmpty,
            alias,
        ) matches Err(e) ==> (r matches Err(f) && f@ == e)),
        r is Err ==> final(config)@ == old(config)@,
        r matches Ok(m) ==> m == Modification::Changed && added(
            old(config)@,
            final(config)@,
            kind,
        ),
        old(config)@.wf() ==> final(config)@.wf(),
{
    let ghost before = config@;
    match kind {
        Kind::Navigator => {
            let navigator = match complete_new_nav(ui, partial, config) {
                Ok(navigator) => navigator,
                Err(e) => {
                    return Err(e);
                },
            };
            let ghost before = config.navigators@;
            config.navigators.push(navigator);
            proof {
                assert(navigators_view(config.navigators@) =~= navigators_view(before).push(
                    navigator@,
                ));
            }
        },
        Kind::Driver => {
            let driver = match complete_new_drv(ui, partial, config) {
                Ok(driver) => driver,
                Err(e) => {
                    return Err(e);
                },
            };
            let ghost before = config.drivers@;
            config.drivers.push(driver);
            proof {
                assert(drivers_view(config.drivers@) =~= drivers_view(before).push(driver@));
            }
        },
    }
    proof {
        if before.wf() {
            lemma_added_keeps_wf(before, config@, kind);
        }
    }
    Ok(Modification::Changed)
}

} // verus!
