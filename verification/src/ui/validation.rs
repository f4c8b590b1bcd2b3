//! The checks that an answer of the user is held to.

use crate::config::{position, Config};
use crate::data::{Field, Kind, Navigator, NavigatorView, Driver, DriverView};
use crate::text::{chars_of, trim, trim_span};
use crate::ui::{MsgTemplate, UiError, UiErrorView};
use vstd::prelude::*;

verus! {

/// What the outcome of a check holds.
pub open spec fn checked_view(r: Result<(), UiError>) -> Result<(), UiErrorView> {
    match r {
        Ok(_) => Ok(()),
        Err(e) => Err(e@),
    }
}

/// A check of what the user typed. A check may change with each attempt.
pub trait Validator {
    /// What this check, as it stands, makes of `input`.
    spec fn verdict(&self, input: Seq<char>) -> Result<(), UiErrorView>;

    /// Whether `next` is this check after it was held to `input`.
    spec fn turns_into(&self, input: Seq<char>, next: &Self) -> bool;

    /// Accepts `input`, or says why not.
    fn validate(&mut self, input: &str) -> (r: Result<(), UiError>)
        ensures
            checked_view(r) == old(self).verdict(input@),
            old(self).turns_into(input@, final(self)),
    ;
}

impl<T: Validator> Validator for &mut T {
    open spec fn verdict(&self, input: Seq<char>) -> Result<(), UiErrorView> {
        (**self).verdict(input)
    }

    open spec fn turns_into(&self, input: Seq<char>, next: &Self) -> bool {
        (**self).turns_into(input, &**next)
    }

    fn validate(&mut self, input: &str) -> (r: Result<(), UiError>) {
        T::validate(*self, input)
    }
}

/// The check that accepts everything.
#[derive(Clone, Copy, Debug, PartialEq, Eq, Structural)]
pub struct NoOp;

impl Validator for NoOp {
    open spec fn verdict(&self, input: Seq<char>) -> Result<(), UiErrorView> {
        Ok(())
    }

    open spec fn turns_into(&self, input: Seq<char>, next: &Self) -> bool {
        true
    }

    fn validate(&mut self, input: &str) -> (r: Result<(), UiError>) {
        Ok(())
    }
}

/// Whether there is nothing but white space in `s`.
pub open spec fn is_blank(s: Seq<char>) -> bool {
    trim(s).len() == 0
}

/// Whether there is nothing but white space in `s`.
pub fn blank(s: &str) -> (r: bool)
    ensures
        r == is_blank(s@),
{
    let chars = chars_of(s);
    proof {
        assert(chars@.subrange(0, chars@.len() as int) =~= chars@);
    }
    let (a, b) = trim_span(&chars, 0, chars.len());
    a == b
}

/// The sentence that follows `template`.
pub open spec fn turn(template: MsgTemplate) -> MsgTemplate {
    match template {
        MsgTemplate::MustNotBeEmpty => MsgTemplate::EnterANonEmptyName,
        MsgTemplate::EnterANonEmptyName => MsgTemplate::MustNotBeEmpty,
    }
}

/// The check that a field was not left empty. Each time it refuses, it does
/// so with the other of its two sentences.
#[derive(Clone, Copy, Debug, PartialEq, Eq, Structural)]
pub struct CheckForEmpty {
    pub next: MsgTemplate,
    pub field: Field,
    pub allow_empty: bool,
}

impl CheckForEmpty {
    /// The check for `field`, which refuses an empty answer, at first with
    /// the sentence `MustNotBeEmpty`.
    pub fn new(field: Field) -> (r: Self)
        ensures
            r == (CheckForEmpty { next: MsgTemplate::MustNotBeEmpty, field, allow_empty: false }),
    {
        CheckForEmpty { next: MsgTemplate::MustNotBeEmpty, field, allow_empty: false }
    }

    /// This check, refusing an empty answer or not.
    pub fn with_allow_empty(self, allow_empty: bool) -> (r: Self)
        ensures
            r == (CheckForEmpty { allow_empty, ..self }),
    {
        CheckForEmpty { next: self.next, field: self.field, allow_empty }
    }
}

impl Validator for CheckForEmpty {
    /// Nothing is wrong where an empty answer is allowed or the answer is
    /// not blank. Otherwise the answer is refused with the sentence whose
    /// turn it is.
    open spec fn verdict(&self, input: Seq<char>) -> Result<(), UiErrorView> {
        if self.allow_empty || !is_blank(input) {
            Ok(())
        } else {
            Err(UiErrorView::Empty { field: self.field, template: self.next })
        }
    }

    /// A check that accepts stays as it is. One that refuses takes the other
    /// sentence for the next time.
    open spec fn turns_into(&self, input: Seq<char>, next: &Self) -> bool {
        *next == if self.verdict(input) is Ok {
            *self
        } else {
            CheckForEmpty { next: turn(self.next), ..*self }
        }
    }

    fn validate(&mut self, input: &str) -> (r: Result<(), UiError>) {
        if self.allow_empty || !blank(input) {
            return Ok(());
        }
        let template = self.next;
        self.next = match template {
            MsgTemplate::MustNotBeEmpty => MsgTemplate::EnterANonEmptyName,
            MsgTemplate::EnterANonEmptyName => MsgTemplate::MustNotBeEmpty,
        };
        Err(UiError::Empty { field: self.field, template })
    }
}

/// Two checks in a row: the second is asked where the first accepts.
#[derive(Clone, Copy, Debug, PartialEq, Eq)]
pub struct AndThen<A, B>(pub A, pub B);

impl<A: Validator, B: Validator> Validator for AndThen<A, B> {
    /// What the first check makes of `input` where it refuses, and else
    /// what the second makes of it.
    open spec fn verdict(&self, input: Seq<char>) -> Result<(), UiErrorView> {
        match self.0.verdict(input) {
            Ok(_) => self.1.verdict(input),
            Err(e) => Err(e),
        }
    }

    /// The first check was held to `input`; the second was too where the
    /// first accepted, and is as before where it did not.
    open spec fn turns_into(&self, input: Seq<char>, next: &Self) -> bool {
        &&& self.0.turns_into(input, &next.0)
        &&& if self.0.verdict(input) is Ok {
            self.1.turns_into(input, &next.1)
        } else {
            next.1 == self.1
        }
    }

    fn validate(&mut self, input: &str) -> (r: Result<(), UiError>) {
        match self.0.validate(input) {
            Ok(_) => {},
            Err(e) => {
                return Err(e);
            },
        }
        self.1.validate(input)
    }
}

impl<A, B> AndThen<A, B> {
    /// The two checks.
    pub fn into_inner(self) -> (r: (A, B))
        ensures
            r.0 == self.0,
            r.1 == self.1,
    {
        (self.0, self.1)
    }
}

/// Whether an alias must be taken or must be free.
#[derive(Clone, Copy, Debug, PartialEq, Eq, Structural)]
pub enum CheckMode {
    MustNotExist,
    MustExist,
}

/// The check of an alias against the records of one kind.
#[derive(Clone, Copy, Debug)]
pub struct Lookup<'config> {
    pub config: &'config Config,
    pub check: CheckMode,
    pub kind: Kind,
}

/// The navigator that an optional reference holds.
pub open spec fn opt_navigator_view(n: Option<&Navigator>) -> Option<NavigatorView> {
    match n {
        Some(n) => Some(n@),
        None => None,
    }
}

/// The driver that an optional reference holds.
pub open spec fn opt_driver_view(d: Option<&Driver>) -> Option<DriverView> {
    match d {
        Some(d) => Some(d@),
        None => None,
    }
}

impl<'config> Lookup<'config> {
    /// The check of an alias against the records of `kind` in `config`.
    pub fn new(config: &'config Config, check: CheckMode, kind: Kind) -> (r: Self)
        ensures
            r.config == config,
            r.check == check,
            r.kind == kind,
    {
        Lookup { config, check, kind }
    }

    /// Whether a record of the kind goes by `id`.
    pub open spec fn knows(&self, id: Seq<char>) -> bool {
        position(self.config@.aliases(self.kind), id) is Some
    }

    /// The navigator, or the navigator of the driver, that first goes by
    /// `id` among the records of the kind.
    pub fn matching_navigator(&self, id: &str) -> (r: Option<&'config Navigator>)
        ensures
            match position(self.config@.aliases(self.kind), id@) {
                Some(i) => opt_navigator_view(r) == Some(
                    match self.kind {
                        Kind::Navigator => self.config@.navigators[i],
                        Kind::Driver => self.config@.drivers[i].navigator,
                    },
                ),
                None => r is None,
            },
    {
        match self.kind {
            Kind::Navigator => match self.config.find_navigator(id) {
                Some(i) => Some(&self.config.navigators[i]),
                None => None,
            },
            Kind::Driver => match self.config.find_driver(id) {
                Some(i) => Some(&self.config.drivers[i].navigator),
                None => None,
            },
        }
    }

    /// The driver that first goes by `id`, where the kind is that of
    /// drivers.
    pub fn matching_driver(&self, id: &str) -> (r: Option<&'config Driver>)
        ensures
            match self.kind {
                Kind::Navigator => r is None,
                Kind::Driver => match position(self.config@.driver_aliases(), id@) {
                    Some(i) => opt_driver_view(r) == Some(self.config@.drivers[i]),
                    None => r is None,
                },
            },
    {
        match self.kind {
            Kind::Navigator => None,
            Kind::Driver => match self.config.find_driver(id) {
                Some(i) => Some(&self.config.drivers[i]),
                None => None,
            },
        }
    }
}

impl<'config> Validator for Lookup<'config> {
    /// An alias that must be taken is refused where no record of the kind
    /// goes by it, and one that must be free where one does.
    open spec fn verdict(&self, input: Seq<char>) -> Result<(), UiErrorView> {
        match self.check {
            CheckMode::MustExist => if self.knows(input) {
                Ok(())
            } else {
                Err(UiErrorView::AliasMissing { alias: input })
            },
            CheckMode::MustNotExist => if self.knows(input) {
                Err(UiErrorView::AliasExists { alias: input })
            } else {
                Ok(())
            },
        }
    }

    /// This check never changes.
    open spec fn turns_into(&self, input: Seq<char>, next: &Self) -> bool {
        *next == *self
    }

    fn validate(&mut self, input: &str) -> (r: Result<(), UiError>) {
        let id_exists = self.matching_navigator(input).is_some();
        match self.check {
            CheckMode::MustExist => {
                if !id_exists {
                    return Err(UiError::AliasMissing { alias: input.to_owned() });
                }
            },
            CheckMode::MustNotExist => {
                if id_exists {
                    return Err(UiError::AliasExists { alias: input.to_owned() });
                }
            },
        }
        Ok(())
    }
}

} // verus!
