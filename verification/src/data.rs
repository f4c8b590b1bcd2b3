//! The records of the registry: identifiers, navigators, drivers, and the
//! partial records that commands build up before a record is complete.

use vstd::prelude::*;
use vstd::std_specs::cmp::PartialEqSpecImpl;
use vstd::std_specs::convert::FromSpecImpl;

verus! {

/// The alias of a navigator or of a driver. Two identifiers are the same
/// exactly when they hold the same characters.
#[derive(Debug, Eq)]
pub struct Id(pub String);

impl View for Id {
    type V = Seq<char>;

    open spec fn view(&self) -> Seq<char> {
        self.0@
    }
}

impl Clone for Id {
    fn clone(&self) -> (r: Self)
        ensures
            r == *self,
    {
        Id(self.0.clone())
    }
}

impl PartialEq for Id {
    fn eq(&self, other: &Self) -> (r: bool) {
        self.0 == other.0
    }
}

impl PartialEqSpecImpl for Id {
    open spec fn obeys_eq_spec() -> bool {
        true
    }

    open spec fn eq_spec(&self, other: &Self) -> bool {
        self@ == other@
    }
}

impl Default for Id {
    fn default() -> (r: Self)
        ensures
            r@ == Seq::<char>::empty(),
    {
        Id(String::new())
    }
}

impl From<String> for Id {
    fn from(value: String) -> (r: Self) {
        Id(value)
    }
}

impl FromSpecImpl<String> for Id {
    open spec fn obeys_from_spec() -> bool {
        true
    }

    open spec fn from_spec(value: String) -> Self {
        Id(value)
    }
}

impl From<&str> for Id {
    fn from(value: &str) -> (r: Self) {
        Id(value.to_owned())
    }
}

impl FromSpecImpl<&str> for Id {
    open spec fn obeys_from_spec() -> bool {
        false
    }

    open spec fn from_spec(value: &str) -> Self {
        arbitrary()
    }
}

impl Id {
    /// The identifier that holds the characters of `alias`.
    pub fn new(alias: &str) -> (r: Self)
        ensures
            r@ == alias@,
    {
        Id(alias.to_owned())
    }

    /// The characters of the identifier.
    pub fn as_str(&self) -> (r: &str)
        ensures
            r@ == self@,
    {
        self.0.as_str()
    }

    /// Whether `other` goes by this alias.
    pub fn same_as_nav(&self, other: &Navigator) -> (r: bool)
        ensures
            r == (self@ == other@.alias),
    {
        self.0 == other.alias.0
    }

    /// Whether `other` goes by this alias.
    pub fn same_as_drv(&self, other: &Driver) -> (r: bool)
        ensures
            r == (self@ == other@.navigator.alias),
    {
        self.0 == other.navigator.alias.0
    }
}

/// What a [`Navigator`] holds.
pub ghost struct NavigatorView {
    pub alias: Seq<char>,
    pub name: Seq<char>,
    pub email: Seq<char>,
}

/// A co-author: the alias it is stored under, and the name and email address
/// that go into a commit trailer.
#[derive(Debug, Eq)]
pub struct Navigator {
    pub alias: Id,
    pub name: String,
    pub email: String,
}

impl View for Navigator {
    type V = NavigatorView;

    open spec fn view(&self) -> NavigatorView {
        NavigatorView { alias: self.alias@, name: self.name@, email: self.email@ }
    }
}

impl Clone for Navigator {
    fn clone(&self) -> (r: Self)
        ensures
            r == *self,
    {
        Navigator { alias: self.alias.clone(), name: self.name.clone(), email: self.email.clone() }
    }
}

impl PartialEq for Navigator {
    fn eq(&self, other: &Self) -> (r: bool) {
        self.alias.0 == other.alias.0 && self.name == other.name && self.email == other.email
    }
}

impl PartialEqSpecImpl for Navigator {
    open spec fn obeys_eq_spec() -> bool {
        true
    }

    open spec fn eq_spec(&self, other: &Self) -> bool {
        self@ == other@
    }
}

/// What a [`Driver`] holds.
pub ghost struct DriverView {
    pub navigator: NavigatorView,
    pub key: Option<Seq<char>>,
}

/// A local operator: a navigator record and, where there is one, the
/// signing key to use.
#[derive(Debug, Eq)]
pub struct Driver {
    pub navigator: Navigator,
    pub key: Option<String>,
}

/// The characters of an optional string.
pub open spec fn opt_view(s: Option<String>) -> Option<Seq<char>> {
    match s {
        Some(s) => Some(s@),
        None => None,
    }
}

impl View for Driver {
    type V = DriverView;

    open spec fn view(&self) -> DriverView {
        DriverView { navigator: self.navigator@, key: opt_view(self.key) }
    }
}

impl Driver {
    /// A stored key is never empty: a driver without a key has none at all.
    pub open spec fn wf(&self) -> bool {
        self@.wf()
    }
}

impl DriverView {
    pub open spec fn wf(self) -> bool {
        self.key matches Some(k) ==> k.len() > 0
    }
}

impl Clone for Driver {
    fn clone(&self) -> (r: Self)
        ensures
            r == *self,
    {
        Driver { navigator: self.navigator.clone(), key: clone_opt(&self.key) }
    }
}

impl PartialEq for Driver {
    fn eq(&self, other: &Self) -> (r: bool) {
        self.navigator == other.navigator && same_opt(&self.key, &other.key)
    }
}

impl PartialEqSpecImpl for Driver {
    open spec fn obeys_eq_spec() -> bool {
        true
    }

    open spec fn eq_spec(&self, other: &Self) -> bool {
        self@ == other@
    }
}

/// A key, if it is not empty: an empty key stands for none.
pub open spec fn key_if_any(key: Seq<char>) -> Option<Seq<char>> {
    if key.len() == 0 {
        None
    } else {
        Some(key)
    }
}

/// The key that a text stands for: none where the text is empty.
pub fn key_from(text: String) -> (r: Option<String>)
    ensures
        opt_view(r) == key_if_any(text@),
{
    if text.as_str().unicode_len() == 0 {
        None
    } else {
        Some(text)
    }
}

/// A copy of an optional string.
pub fn clone_opt(s: &Option<String>) -> (r: Option<String>)
    ensures
        r == *s,
{
    match s {
        Some(s) => Some(s.clone()),
        None => None,
    }
}

/// Whether two optional strings are both absent or hold the same characters.
pub fn same_opt(a: &Option<String>, b: &Option<String>) -> (r: bool)
    ensures
        r == (opt_view(*a) == opt_view(*b)),
{
    match a {
        Some(x) => match b {
            Some(y) => *x == *y,
            None => false,
        },
        None => b.is_none(),
    }
}


/// The two kinds of record.
#[derive(Clone, Copy, Debug, PartialEq, Eq, Structural)]
pub enum Kind {
    Navigator,
    Driver,
}

/// The word for a kind.
pub open spec fn kind_text(kind: Kind) -> Seq<char> {
    match kind {
        Kind::Navigator => "navigator"@,
        Kind::Driver => "driver"@,
    }
}

impl Kind {
    /// The word for this kind: `navigator` or `driver`.
    pub fn to_string(&self) -> (r: String)
        ensures
            r@ == kind_text(*self),
    {
        match self {
            Kind::Navigator => "navigator".to_owned(),
            Kind::Driver => "driver".to_owned(),
        }
    }
}

/// The fields of a record that a user can be asked for.
#[derive(Clone, Copy, Debug, PartialEq, Eq, Structural)]
pub enum Field {
    Alias,
    Name,
    Email,
    Key,
}

/// The words for a field.
pub open spec fn field_text(field: Field) -> Seq<char> {
    match field {
        Field::Alias => "alias"@,
        Field::Name => "name"@,
        Field::Email => "email"@,
        Field::Key => "signing key"@,
    }
}

impl Field {
    /// The words for this field, as they stand in a prompt.
    pub fn to_string(&self) -> (r: String)
        ensures
            r@ == field_text(*self),
    {
        match self {
            Field::Alias => "alias".to_owned(),
            Field::Name => "name".to_owned(),
            Field::Email => "email".to_owned(),
            Field::Key => "signing key".to_owned(),
        }
    }
}

/// What a [`PartialNav`] holds.
pub ghost struct PartialNavView {
    pub id: Option<Seq<char>>,
    pub name: Option<Seq<char>>,
    pub email: Option<Seq<char>>,
    pub key: Option<Seq<char>>,
}

/// A record of which any field may still be unknown.
#[derive(Clone, Debug, PartialEq, Eq)]
pub struct PartialNav {
    pub id: Option<String>,
    pub name: Option<String>,
    pub email: Option<String>,
    pub key: Option<String>,
}

impl View for PartialNav {
    type V = PartialNavView;

    open spec fn view(&self) -> PartialNavView {
        PartialNavView {
            id: opt_view(self.id),
            name: opt_view(self.name),
            email: opt_view(self.email),
            key: opt_view(self.key),
        }
    }
}

impl Default for PartialNav {
    fn default() -> (r: Self)
        ensures
            r@ == (PartialNavView { id: None, name: None, email: None, key: None }),
    {
        PartialNav { id: None, name: None, email: None, key: None }
    }
}

impl PartialNav {
    /// This record with `field` set to `value`, known or not.
    pub fn with(self, field: Field, value: Option<String>) -> (r: Self)
        ensures
            r@ == match field {
                Field::Alias => PartialNavView { id: opt_view(value), ..self@ },
                Field::Name => PartialNavView { name: opt_view(value), ..self@ },
                Field::Email => PartialNavView { email: opt_view(value), ..self@ },
                Field::Key => PartialNavView { key: opt_view(value), ..self@ },
            },
    {
        match field {
            Field::Alias => self.with_id(value),
            Field::Name => self.with_name(value),
            Field::Email => self.with_email(value),
            Field::Key => self.with_key(value),
        }
    }

    /// This record with its alias set to `id`.
    pub fn with_id(self, id: Option<String>) -> (r: Self)
        ensures
            r@ == (PartialNavView { id: opt_view(id), ..self@ }),
    {
        PartialNav { id, name: self.name, email: self.email, key: self.key }
    }

    /// This record with its name set to `name`.
    pub fn with_name(self, name: Option<String>) -> (r: Self)
        ensures
            r@ == (PartialNavView { name: opt_view(name), ..self@ }),
    {
        PartialNav { id: self.id, name, email: self.email, key: self.key }
    }

    /// This record with its address set to `email`.
    pub fn with_email(self, email: Option<String>) -> (r: Self)
        ensures
            r@ == (PartialNavView { email: opt_view(email), ..self@ }),
    {
        PartialNav { id: self.id, name: self.name, email, key: self.key }
    }

    /// This record with its key set to `key`.
    pub fn with_key(self, key: Option<String>) -> (r: Self)
        ensures
            r@ == (PartialNavView { key: opt_view(key), ..self@ }),
    {
        PartialNav { id: self.id, name: self.name, email: self.email, key }
    }
}

/// What a [`PartialIdNav`] holds.
pub ghost struct PartialIdNavView {
    pub id: Seq<char>,
    pub name: Option<Seq<char>>,
    pub email: Option<Seq<char>>,
    pub key: Option<Seq<char>>,
}

/// A record of which the alias is known, and any other field may not be.
#[derive(Clone, Debug, PartialEq, Eq)]
pub struct PartialIdNav {
    pub id: Id,
    pub name: Option<String>,
    pub email: Option<String>,
    pub key: Option<String>,
}

impl View for PartialIdNav {
    type V = PartialIdNavView;

    open spec fn view(&self) -> PartialIdNavView {
        PartialIdNavView {
            id: self.id@,
            name: opt_view(self.name),
            email: opt_view(self.email),
            key: opt_view(self.key),
        }
    }
}

/// The first of two optional values that is there.
pub open spec fn or_else(first: Option<Seq<char>>, second: Option<Seq<char>>) -> Option<
    Seq<char>,
> {
    match first {
        Some(_) => first,
        None => second,
    }
}

/// The first of two optional strings that is there.
pub fn first_of(first: Option<String>, second: Option<String>) -> (r: Option<String>)
    ensures
        opt_view(r) == or_else(opt_view(first), opt_view(second)),
{
    match first {
        Some(s) => Some(s),
        None => second,
    }
}

impl PartialIdNav {
    /// The record of which only the alias `id` is known.
    pub fn new(id: &str) -> (r: Self)
        ensures
            r@ == (PartialIdNavView { id: id@, name: None, email: None, key: None }),
    {
        PartialIdNav { id: Id::new(id), name: None, email: None, key: None }
    }

    /// This record with every field that `partial` knows taken from there.
    /// The alias stays.
    pub fn merge(self, partial: PartialNav) -> (r: Self)
        ensures
            r@ == (PartialIdNavView {
                id: self@.id,
                name: or_else(partial@.name, self@.name),
                email: or_else(partial@.email, self@.email),
                key: or_else(partial@.key, self@.key),
            }),
    {
        PartialIdNav {
            id: self.id,
            name: first_of(partial.name, self.name),
            email: first_of(partial.email, self.email),
            key: first_of(partial.key, self.key),
        }
    }

    /// This record with its name set to `name`.
    pub fn with_name(self, name: Option<String>) -> (r: Self)
        ensures
            r@ == (PartialIdNavView { name: opt_view(name), ..self@ }),
    {
        PartialIdNav { id: self.id, name, email: self.email, key: self.key }
    }

    /// This record with its address set to `email`.
    pub fn with_email(self, email: Option<String>) -> (r: Self)
        ensures
            r@ == (PartialIdNavView { email: opt_view(email), ..self@ }),
    {
        PartialIdNav { id: self.id, name: self.name, email, key: self.key }
    }

    /// This record with its key set to `key`.
    pub fn with_key(self, key: Option<String>) -> (r: Self)
        ensures
            r@ == (PartialIdNavView { key: opt_view(key), ..self@ }),
    {
        PartialIdNav { id: self.id, name: self.name, email: self.email, key }
    }
}

/// How the current navigators are to be shown.
#[derive(Clone, Debug, PartialEq, Eq)]
pub struct ShowNav {
    pub color: String,
    pub fail_if_empty: bool,
}

/// Anything that goes by an alias.
pub trait IdRef {
    /// The characters of the alias.
    spec fn alias(&self) -> Seq<char>;

    /// The alias.
    fn id(&self) -> (r: &Id)
        ensures
            r@ == self.alias(),
    ;
}

impl IdRef for Id {
    open spec fn alias(&self) -> Seq<char> {
        self@
    }

    fn id(&self) -> (r: &Id) {
        self
    }
}

impl IdRef for &Id {
    open spec fn alias(&self) -> Seq<char> {
        (**self)@
    }

    fn id(&self) -> (r: &Id) {
        *self
    }
}

impl IdRef for Navigator {
    open spec fn alias(&self) -> Seq<char> {
        self@.alias
    }

    fn id(&self) -> (r: &Id) {
        &self.alias
    }
}

impl IdRef for Driver {
    open spec fn alias(&self) -> Seq<char> {
        self@.navigator.alias
    }

    fn id(&self) -> (r: &Id) {
        &self.navigator.alias
    }
}

/// Whether a command changed the registry, so that it has to be stored.
#[derive(Clone, Copy, Debug, PartialEq, Eq, Structural)]
pub enum Modification {
    Changed,
    Unchanged,
}

} // verus!
