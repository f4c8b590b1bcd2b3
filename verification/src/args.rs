//! What a command line asks for.
//!
//! The command line itself is taken apart elsewhere. Here its parts, held as
//! plain values, are turned into the one action that they stand for.

use crate::data::{Id, PartialNav, ShowNav};
use crate::text::push_str;
use vstd::pervasive::unreached;
use vstd::prelude::*;

verus! {

/// What the program can be asked to do.
#[derive(Clone, Debug, PartialEq, Eq)]
pub enum Action {
    DriveFromSelection,
    DriveWith(Id),
    DriveWithAll(Vec<Id>),
    DriveAlone,
    ListNavigators,
    ListDrivers,
    ShowCurrentNavigator(ShowNav),
    NewNavigator(PartialNav),
    EditNavigator(PartialNav),
    DeleteNavigatorFromSelection,
    DeleteNavigator(Id),
    DeleteAllNavigators(Vec<Id>),
    DriveAsFromSelection,
    DriveAs(Id),
    NewDriver(PartialNav),
    EditDriver(PartialNav),
    DeleteDriverFromSelection,
    DeleteDriver(Id),
    DeleteAllDrivers(Vec<Id>),
}

/// The values that a command was given.
#[derive(Clone, Debug, PartialEq, Eq)]
pub struct Values {
    /// The aliases that were listed, if any were.
    pub ids: Option<Vec<String>>,
    /// The alias given with `--as`.
    pub alias_as: Option<String>,
    /// The alias given on its own.
    pub alias: Option<String>,
    pub name: Option<String>,
    pub email: Option<String>,
    pub key: Option<String>,
    /// The color to show the current navigators in.
    pub color: Option<String>,
    pub fail_if_empty: bool,
}

/// A command line, taken apart: the command, if there is one, with its
/// values, and the command under it, if there is one, with its own.
#[derive(Clone, Debug, PartialEq, Eq)]
pub struct Matches {
    pub command: Option<String>,
    pub values: Values,
    pub nested: Option<String>,
    pub nested_values: Values,
}

/// Why a command line stands for no action.
#[derive(Clone, Debug, PartialEq, Eq)]
pub enum ArgsError {
    /// `me` was given without a command under it.
    MissingSubcommand,
    /// The command is none of those that there are.
    UnknownCommand { name: String },
}

/// The message for an error of the command line.
pub open spec fn args_error_text(e: ArgsError) -> Seq<char> {
    match e {
        ArgsError::MissingSubcommand => "A subcommand is required but one was not provided."@,
        ArgsError::UnknownCommand { name } => "The subcommand '"@ + name@ + "' wasn't recognized"@,
    }
}

impl ArgsError {
    /// The message for the user.
    pub fn to_string(&self) -> (r: String)
        ensures
            r@ == args_error_text(*self),
    {
        let mut r = String::new();
        match self {
            ArgsError::MissingSubcommand => {
                push_str(&mut r, "A subcommand is required but one was not provided.");
            },
            ArgsError::UnknownCommand { name } => {
                push_str(&mut r, "The subcommand '");
                push_str(&mut r, name.as_str());
                push_str(&mut r, "' wasn't recognized");
            },
        }
        proof {
            assert(r@ =~= args_error_text(*self));
        }
        r
    }
}

/// The error for a command that is none of those that there are.
pub fn unknown_command(name: &str) -> (r: ArgsError)
    ensures
        r matches ArgsError::UnknownCommand { name: n } && n@ == name@,
{
    ArgsError::UnknownCommand { name: name.to_owned() }
}

/// The identifiers that hold the strings of `items`.
pub open spec fn as_ids(items: Seq<String>) -> Seq<Id> {
    items.map_values(|s: String| Id(s))
}

/// The identifiers that hold the strings of `items`.
pub fn into_ids(items: Vec<String>) -> (r: Vec<Id>)
    ensures
        r@ == as_ids(items@),
{
    let ghost all = items@;
    let mut out: Vec<Id> = Vec::new();
    for s in it: items
        invariant
            it.seq() == all,
            out@ =~= as_ids(all.take(it.index() as int)),
    {
        out.push(Id(s));
    }
    proof {
        assert(all.take(all.len() as int) =~= all);
    }
    out
}

/// What a list of aliases comes to.
#[derive(Clone, Debug, PartialEq, Eq)]
pub enum Folded {
    /// None was listed.
    Empty,
    /// Exactly one was listed.
    One(Id),
    /// Any other number was listed.
    Many(Vec<Id>),
}

/// Whether `r` is what the list `items` comes to.
pub open spec fn is_folded(items: Option<Vec<String>>, r: Folded) -> bool {
    match items {
        None => r == Folded::Empty,
        Some(v) => if v@.len() == 1 {
            r == Folded::One(Id(v@[0]))
        } else {
            r matches Folded::Many(ids) && ids@ == as_ids(v@)
        },
    }
}

/// What a list of aliases comes to: nothing where none was listed, the
/// alias where exactly one was, and all of them in every other case.
pub fn fold_map(items: Option<Vec<String>>) -> (r: Folded)
    ensures
        is_folded(items, r),
{
    match items {
        None => Folded::Empty,
        Some(v) => {
            if v.len() == 1 {
                let mut v = v;
                match v.pop() {
                    Some(s) => Folded::One(Id(s)),
                    None => unreached(),
                }
            } else {
                Folded::Many(into_ids(v))
            }
        },
    }
}

/// The first of two optional strings that is there.
pub open spec fn either(first: Option<String>, second: Option<String>) -> Option<String> {
    match first {
        Some(_) => first,
        None => second,
    }
}

/// The partial record that the values of a command stand for. The alias is
/// the one given with `--as`, or else the one given on its own. A key counts
/// only where `key` says so.
pub fn partial_nav(values: Values, key: bool) -> (r: PartialNav)
    ensures
        r == (PartialNav {
            id: either(values.alias_as, values.alias),
            name: values.name,
            email: values.email,
            key: if key {
                values.key
            } else {
                None
            },
        }),
{
    let Values { ids: _, alias_as, alias, name, email, key: given, color: _, fail_if_empty: _ } =
        values;
    PartialNav {
        id: match alias_as {
            Some(a) => Some(a),
            None => alias,
        },
        name,
        email,
        key: if key {
            given
        } else {
            None
        },
    }
}

/// What a list of aliases stands for with the three actions of a command:
/// `empty` where none was listed, `one` of the alias where exactly one was,
/// and an action for which `many` holds, of all of them, in every other
/// case.
pub open spec fn folded(
    items: Option<Vec<String>>,
    r: Action,
    empty: Action,
    one: spec_fn(Id) -> Action,
    many: spec_fn(Action) -> Option<Vec<Id>>,
) -> bool {
    match items {
        None => r == empty,
        Some(v) => if v@.len() == 1 {
            r == one(Id(v@[0]))
        } else {
            many(r) matches Some(ids) && ids@ == as_ids(v@)
        },
    }
}

/// Whether `r` is what the command `name` with `values` stands for, where
/// `name` is a command of the first level other than `me`.
pub open spec fn is_action_of(name: Seq<char>, values: Values, nested: bool, r: Result<
    Action,
    ArgsError,
>) -> bool {
    if name == "with"@ {
        r matches Ok(a) && folded(
            values.ids,
            a,
            Action::DriveAlone,
            |id: Id| Action::DriveWith(id),
            |a: Action| match a { Action::DriveWithAll(ids) => Some(ids), _ => None },
        )
    } else if name == "alone"@ {
        r == Ok::<Action, ArgsError>(Action::DriveAlone)
    } else if name == "list"@ {
        r == Ok::<Action, ArgsError>(
            if nested {
                Action::ListDrivers
            } else {
                Action::ListNavigators
            },
        )
    } else if name == "show"@ {
        r matches Ok(Action::ShowCurrentNavigator(show)) && Some(show.color) == values.color
            && show.fail_if_empty == values.fail_if_empty
    } else if name == "new"@ {
        r matches Ok(Action::NewNavigator(p)) && p == (PartialNav {
            id: either(values.alias_as, values.alias),
            name: values.name,
            email: values.email,
            key: None,
        })
    } else if name == "edit"@ {
        r matches Ok(Action::EditNavigator(p)) && p == (PartialNav {
            id: either(values.alias_as, values.alias),
            name: values.name,
            email: values.email,
            key: None,
        })
    } else if name == "delete"@ {
        r matches Ok(a) && folded(
            values.ids,
            a,
            Action::DeleteNavigatorFromSelection,
            |id: Id| Action::DeleteNavigator(id),
            |a: Action| match a { Action::DeleteAllNavigators(ids) => Some(ids), _ => None },
        )
    } else if name == "as"@ {
        r matches Ok(a) && (match values.ids {
            None => a == Action::DriveAsFromSelection,
            Some(v) => a == Action::DriveAs(Id(v@[0])),
        })
    } else {
        r matches Err(ArgsError::UnknownCommand { name: n }) && n@ == name
    }
}

/// Whether `r` is what the command `name` under `me`, with `values`, stands
/// for.
pub open spec fn is_driver_action_of(name: Seq<char>, values: Values, r: Result<
    Action,
    ArgsError,
>) -> bool {
    if name == "list"@ {
        r == Ok::<Action, ArgsError>(Action::ListDrivers)
    } else if name == "new"@ {
        r matches Ok(Action::NewDriver(p)) && p == (PartialNav {
            id: either(values.alias_as, values.alias),
            name: values.name,
            email: values.email,
            key: values.key,
        })
    } else if name == "edit"@ {
        r matches Ok(Action::EditDriver(p)) && p == (PartialNav {
            id: either(values.alias_as, values.alias),
            name: values.name,
            email: values.email,
            key: values.key,
        })
    } else if name == "delete"@ {
        r matches Ok(a) && folded(
            values.ids,
            a,
            Action::DeleteDriverFromSelection,
            |id: Id| Action::DeleteDriver(id),
            |a: Action| match a { Action::DeleteAllDrivers(ids) => Some(ids), _ => None },
        )
    } else {
        r matches Err(ArgsError::UnknownCommand { name: n }) && n@ == name
    }
}

/// Whether `r` is what a command line stands for: the choice of navigators
/// where there is no command, and else what its command stands for.
pub open spec fn is_action_for(m: Matches, r: Result<Action, ArgsError>) -> bool {
    match m.command {
        None => r == Ok::<Action, ArgsError>(Action::DriveFromSelection),
        Some(name) => if name@ == "me"@ {
            match m.nested {
                None => r == Err::<Action, ArgsError>(ArgsError::MissingSubcommand),
                Some(under) => is_driver_action_of(under@, m.nested_values, r),
            }
        } else {
            is_action_of(name@, m.values, m.nested is Some, r)
        },
    }
}

/// What has to hold of a command line that is turned into an action: `show`
/// comes with a color, and `as` with at most one alias.
pub open spec fn is_sound(m: Matches) -> bool {
    m.command matches Some(name) ==> {
        &&& name@ == "show"@ ==> m.values.color is Some
        &&& name@ == "as"@ ==> (m.values.ids matches Some(v) ==> v@.len() == 1)
    }
}

fn is_word(s: &String, word: &str) -> (r: bool)
    ensures
        r == (s@ == word@),
{
    *s == word.to_owned()
}

fn driver_action(name: String, values: Values) -> (r: Result<Action, ArgsError>)
    ensures
        is_driver_action_of(name@, values, r),
{
    proof {
        lemma_words_differ();
    }
    if is_word(&name, "list") {
        Ok(Action::ListDrivers)
    } else if is_word(&name, "new") {
        Ok(Action::NewDriver(partial_nav(values, true)))
    } else if is_word(&name, "edit") {
        Ok(Action::EditDriver(partial_nav(values, true)))
    } else if is_word(&name, "delete") {
        match fold_map(values.ids) {
            Folded::Empty => Ok(Action::DeleteDriverFromSelection),
            Folded::One(id) => Ok(Action::DeleteDriver(id)),
            Folded::Many(ids) => Ok(Action::DeleteAllDrivers(ids)),
        }
    } else {
        Err(unknown_command(name.as_str()))
    }
}

/// The words for the commands are all different.
proof fn lemma_words_differ()
    ensures
        "with"@.len() == 4,
        "alone"@.len() == 5,
        "list"@.len() == 4,
        "show"@.len() == 4,
        "new"@.len() == 3,
        "edit"@.len() == 4,
        "delete"@.len() == 6,
        "as"@.len() == 2,
        "me"@.len() == 2,
        "with"@[0] == 'w',
        "list"@[0] == 'l',
        "show"@[0] == 's',
        "edit"@[0] == 'e',
        "as"@[0] == 'a',
        "me"@[0] == 'm',
{
    reveal_strlit("with");
    reveal_strlit("alone");
    reveal_strlit("list");
    reveal_strlit("show");
    reveal_strlit("new");
    reveal_strlit("edit");
    reveal_strlit("delete");
    reveal_strlit("as");
    reveal_strlit("me");
}

fn navigator_action(name: String, values: Values, nested: bool) -> (r: Result<Action, ArgsError>)
    requires
        name@ == "show"@ ==> values.color is Some,
        name@ == "as"@ ==> (values.ids matches Some(v) ==> v@.len() == 1),
    ensures
        is_action_of(name@, values, nested, r),
{
    proof {
        lemma_words_differ();
    }
    if is_word(&name, "with") {
        match fold_map(values.ids) {
            Folded::Empty => Ok(Action::DriveAlone),
            Folded::One(id) => Ok(Action::DriveWith(id)),
            Folded::Many(ids) => Ok(Action::DriveWithAll(ids)),
        }
    } else if is_word(&name, "alone") {
        Ok(Action::DriveAlone)
    } else if is_word(&name, "list") {
        if nested {
            Ok(Action::ListDrivers)
        } else {
            Ok(Action::ListNavigators)
        }
    } else if is_word(&name, "show") {
        match values.color {
            Some(color) => Ok(
                Action::ShowCurrentNavigator(
                    ShowNav { color, fail_if_empty: values.fail_if_empty },
                ),
            ),
            None => unreached(),
        }
    } else if is_word(&name, "new") {
        Ok(Action::NewNavigator(partial_nav(values, false)))
    } else if is_word(&name, "edit") {
        Ok(Action::EditNavigator(partial_nav(values, false)))
    } else if is_word(&name, "delete") {
        match fold_map(values.ids) {
            Folded::Empty => Ok(Action::DeleteNavigatorFromSelection),
            Folded::One(id) => Ok(Action::DeleteNavigator(id)),
            Folded::Many(ids) => Ok(Action::DeleteAllNavigators(ids)),
        }
    } else if is_word(&name, "as") {
        match fold_map(values.ids) {
            Folded::Empty => Ok(Action::DriveAsFromSelection),
            Folded::One(id) => Ok(Action::DriveAs(id)),
            Folded::Many(_) => unreached(),
        }
    } else {
        Err(unknown_command(name.as_str()))
    }
}

/// The action that a command line stands for: see [`is_action_for`].
pub fn action_from_matches(matches: Matches) -> (r: Result<Action, ArgsError>)
    requires
        is_sound(matches),
    ensures
        is_action_for(matches, r),
{
    let Matches { command, values, nested, nested_values } = matches;
    let name = match command {
        None => {
            return Ok(Action::DriveFromSelection);
        },
        Some(name) => name,
    };
    if is_word(&name, "me") {
        match nested {
            None => Err(ArgsError::MissingSubcommand),
            Some(under) => driver_action(under, nested_values),
        }
    } else {
        navigator_action(name, values, nested.is_some())
    }
}

} // verus!
