//! The text format in which the registry is kept on disk.
//!
//! ```text
//! version: 1
//! navigator: <alias>
//! Co-Authored-By: <name> <<email>>
//! driver: <alias>
//! key: <key, or nothing>
//! Co-Authored-By: <name> <<email>>
//! ```
//!
//! The first line is fixed. Each navigator takes two lines and each driver
//! three; the navigators come first when the registry is written, and any
//! order is read.

use crate::config::trailer::{
    read_trailer, trailer_line, trailer_of, trailer_view, Trailer, TrailerFault,
};
use crate::config::{drivers_view, navigators_view, Config, ConfigView};
use crate::data::{opt_view, Driver, DriverView, Id, Navigator, NavigatorView};
use crate::lines::{line_feed, lines_of, Lines};
use crate::text::{
    decimal, find_in, push_decimal, push_str, span_is, span_starts_with, split_once,
    string_of, trim, trim_span,
};
use vstd::prelude::*;

verus! {

/// The first line of the format.
pub open spec fn version_line() -> Seq<char> {
    "version: 1"@
}

/// What the first line begins with.
pub open spec fn version_key() -> Seq<char> {
    "version: "@
}

/// The lines of a navigator, each with its line feed.
pub open spec fn navigator_text(n: NavigatorView) -> Seq<char> {
    "navigator: "@ + n.alias + line_feed() + trailer_line(n.name, n.email) + line_feed()
}

/// The line of a key, without its line feed.
pub open spec fn key_line(key: Option<Seq<char>>) -> Seq<char> {
    match key {
        Some(k) => "key:"@ + " "@ + k,
        None => "key:"@,
    }
}

/// The lines of a driver, each with its line feed.
pub open spec fn driver_text(d: DriverView) -> Seq<char> {
    "driver: "@ + d.navigator.alias + line_feed() + key_line(d.key) + line_feed() + trailer_line(
        d.navigator.name,
        d.navigator.email,
    ) + line_feed()
}

/// The lines of the navigators, in their order.
pub open spec fn navigators_text(navigators: Seq<NavigatorView>) -> Seq<char>
    decreases navigators.len(),
{
    if navigators.len() == 0 {
        Seq::empty()
    } else {
        navigator_text(navigators.first()) + navigators_text(navigators.drop_first())
    }
}

/// The lines of the drivers, in their order.
pub open spec fn drivers_text(drivers: Seq<DriverView>) -> Seq<char>
    decreases drivers.len(),
{
    if drivers.len() == 0 {
        Seq::empty()
    } else {
        driver_text(drivers.first()) + drivers_text(drivers.drop_first())
    }
}

/// The text of a registry: the version line, the navigators, the drivers.
pub open spec fn config_text(c: ConfigView) -> Seq<char> {
    version_line() + line_feed() + navigators_text(c.navigators) + drivers_text(c.drivers)
}

proof fn lemma_navigators_text_push(navigators: Seq<NavigatorView>, n: NavigatorView)
    ensures
        navigators_text(navigators.push(n)) == navigators_text(navigators) + navigator_text(n),
    decreases navigators.len(),
{
    if navigators.len() == 0 {
        assert(navigators.push(n).drop_first() =~= Seq::empty());
        assert(navigators_text(navigators.push(n).drop_first()) =~= Seq::empty());
        assert(navigators_text(navigators.push(n)) =~= navigator_text(n));
        assert(navigators_text(navigators) + navigator_text(n) =~= navigator_text(n));
    } else {
        assert(navigators.push(n).drop_first() =~= navigators.drop_first().push(n));
        lemma_navigators_text_push(navigators.drop_first(), n);
        assert(navigators_text(navigators.push(n)) =~= navigators_text(navigators)
            + navigator_text(n));
    }
}

proof fn lemma_drivers_text_push(drivers: Seq<DriverView>, d: DriverView)
    ensures
        drivers_text(drivers.push(d)) == drivers_text(drivers) + driver_text(d),
    decreases drivers.len(),
{
    if drivers.len() == 0 {
        assert(drivers.push(d).drop_first() =~= Seq::empty());
        assert(drivers_text(drivers.push(d).drop_first()) =~= Seq::empty());
        assert(drivers_text(drivers.push(d)) =~= driver_text(d));
        assert(drivers_text(drivers) + driver_text(d) =~= driver_text(d));
    } else {
        assert(drivers.push(d).drop_first() =~= drivers.drop_first().push(d));
        lemma_drivers_text_push(drivers.drop_first(), d);
        assert(drivers_text(drivers.push(d)) =~= drivers_text(drivers) + driver_text(d));
    }
}

/// Appends the trailer of `nav` and a line feed to `content`.
fn write_nav(content: &mut String, nav: &Navigator)
    ensures
        final(content)@ == old(content)@ + trailer_line(nav@.name, nav@.email) + line_feed(),
{
    push_str(content, "Co-Authored-By: ");
    push_str(content, nav.name.as_str());
    push_str(content, " <");
    push_str(content, nav.email.as_str());
    push_str(content, ">");
    content.push('\n');
    proof {
        assert(final(content)@ =~= old(content)@ + trailer_line(nav@.name, nav@.email)
            + line_feed());
    }
}

/// The text of `config`: see [`config_text`].
pub fn serialize_config(config: &Config) -> (content: String)
    ensures
        content@ == config_text(config@),
{
    let mut content = String::new();
    push_str(&mut content, "version: 1");
    content.push('\n');
    let ghost head = version_line() + line_feed();
    proof {
        assert(content@ =~= head);
        assert(config.navigators@.take(0) =~= Seq::empty());
        assert(navigators_view(config.navigators@.take(0)) =~= Seq::empty());
    }
    let mut i: usize = 0;
    while i < config.navigators.len()
        invariant
            i <= config.navigators.len(),
            head == version_line() + line_feed(),
            content@ == head + navigators_text(navigators_view(config.navigators@.take(i as int))),
        decreases config.navigators.len() - i,
    {
        let nav = &config.navigators[i];
        let ghost before = content@;
        push_str(&mut content, "navigator: ");
        push_str(&mut content, nav.alias.as_str());
        content.push('\n');
        write_nav(&mut content, nav);
        proof {
            let done = navigators_view(config.navigators@.take(i as int));
            assert(navigators_view(config.navigators@.take(i + 1)) =~= done.push(nav@));
            lemma_navigators_text_push(done, nav@);
            assert(content@ =~= before + navigator_text(nav@));
            assert(content@ =~= head + navigators_text(done.push(nav@)));
        }
        i += 1;
    }
    proof {
        assert(config.navigators@.take(i as int) =~= config.navigators@);
        assert(config.drivers@.take(0) =~= Seq::empty());
        assert(drivers_view(config.drivers@.take(0)) =~= Seq::empty());
    }
    let ghost head = head + navigators_text(config@.navigators);
    let mut j: usize = 0;
    while j < config.drivers.len()
        invariant
            j <= config.drivers.len(),
            head == version_line() + line_feed() + navigators_text(config@.navigators),
            content@ == head + drivers_text(drivers_view(config.drivers@.take(j as int))),
        decreases config.drivers.len() - j,
    {
        let drv = &config.drivers[j];
        let ghost before = content@;
        push_str(&mut content, "driver: ");
        push_str(&mut content, drv.navigator.alias.as_str());
        content.push('\n');
        push_str(&mut content, "key:");
        match &drv.key {
            Some(key) => {
                push_str(&mut content, " ");
                push_str(&mut content, key.as_str());
            },
            None => {},
        }
        content.push('\n');
        write_nav(&mut content, &drv.navigator);
        proof {
            let done = drivers_view(config.drivers@.take(j as int));
            assert(drivers_view(config.drivers@.take(j + 1)) =~= done.push(drv@));
            lemma_drivers_text_push(done, drv@);
            assert(content@ =~= before + driver_text(drv@));
            assert(content@ =~= head + drivers_text(done.push(drv@)));
        }
        j += 1;
    }
    proof {
        assert(config.drivers@.take(j as int) =~= config.drivers@);
    }
    content
}


/// What a [`ParseError`] holds.
pub ghost enum ParseErrorView {
    Empty,
    MissingVersion { line: Seq<char> },
    UnknownVersion { version: Seq<char> },
    MalformedHeader { line_number: nat, line: Seq<char> },
    UnknownKind { line_number: nat, kind: Seq<char> },
    MissingTrailer { line_number: nat },
    MissingKey { line_number: nat },
    MalformedKey { line_number: nat, line: Seq<char> },
    MissingDriverTrailer { line_number: nat },
    InvalidTrailer { line_number: nat, fault: TrailerFault },
}

/// Why a text is no registry. Lines are counted from 1.
#[derive(Clone, Debug, PartialEq, Eq)]
pub enum ParseError {
    /// The text has no line at all.
    Empty,
    /// The first line does not begin with `version: `.
    MissingVersion { line: String },
    /// The first line names another version than 1.
    UnknownVersion { version: String },
    /// A record begins with a line without `: ` in it.
    MalformedHeader { line_number: usize, line: String },
    /// A record is neither a `navigator` nor a `driver`.
    UnknownKind { line_number: usize, kind: String },
    /// The text ends where the trailer of a navigator should stand.
    MissingTrailer { line_number: usize },
    /// The text ends where the key of a driver should stand.
    MissingKey { line_number: usize },
    /// The second line of a driver does not begin with `key:`.
    MalformedKey { line_number: usize, line: String },
    /// The text ends where the trailer of a driver should stand.
    MissingDriverTrailer { line_number: usize },
    /// The line where a trailer should stand is none.
    InvalidTrailer { line_number: usize, fault: TrailerFault },
}

impl View for ParseError {
    type V = ParseErrorView;

    open spec fn view(&self) -> ParseErrorView {
        match *self {
            ParseError::Empty => ParseErrorView::Empty,
            ParseError::MissingVersion { line } => ParseErrorView::MissingVersion { line: line@ },
            ParseError::UnknownVersion { version } => ParseErrorView::UnknownVersion {
                version: version@,
            },
            ParseError::MalformedHeader { line_number, line } => ParseErrorView::MalformedHeader {
                line_number: line_number as nat,
                line: line@,
            },
            ParseError::UnknownKind { line_number, kind } => ParseErrorView::UnknownKind {
                line_number: line_number as nat,
                kind: kind@,
            },
            ParseError::MissingTrailer { line_number } => ParseErrorView::MissingTrailer {
                line_number: line_number as nat,
            },
            ParseError::MissingKey { line_number } => ParseErrorView::MissingKey {
                line_number: line_number as nat,
            },
            ParseError::MalformedKey { line_number, line } => ParseErrorView::MalformedKey {
                line_number: line_number as nat,
                line: line@,
            },
            ParseError::MissingDriverTrailer { line_number } => {
                ParseErrorView::MissingDriverTrailer { line_number: line_number as nat }
            },
            ParseError::InvalidTrailer { line_number, fault } => ParseErrorView::InvalidTrailer {
                line_number: line_number as nat,
                fault,
            },
        }
    }
}

/// The sentence for a fault of a trailer.
pub open spec fn fault_text(fault: TrailerFault) -> Seq<char> {
    match fault {
        TrailerFault::MissingTrailerKey => "The trailer is missing the `Co-Authored-By:` key."@,
        TrailerFault::MissingName => "The name of the co-author is missing."@,
        TrailerFault::MissingMail => "The mail of the co-author is missing."@,
    }
}

impl ParseErrorView {
    /// The message for the user: what was expected, what stood there, and
    /// in which line.
    pub open spec fn message(self) -> Seq<char> {
        match self {
            ParseErrorView::Empty => {
                "The config file is empty, expected at least a version key."@
            },
            ParseErrorView::MissingVersion { line } => {
                "Expected `version: $version`, but got `"@ + line + "` in line 1."@
            },
            ParseErrorView::UnknownVersion { version } => {
                "Unknown version: "@ + version + "."@
            },
            ParseErrorView::MalformedHeader { line_number, line } => {
                "Expected `$type: $alias`, but got `"@ + line + "` in line "@ + decimal(
                    line_number,
                ) + "."@
            },
            ParseErrorView::UnknownKind { line_number, kind } => {
                "Unexpted type `"@ + kind + " in line "@ + decimal(line_number)
                    + ", expected either `navigator` or `driver`."@
            },
            ParseErrorView::MissingTrailer { line_number } => {
                "Expected `Co-Authored-By: $name <$email>` in line "@ + decimal(line_number)
                    + ", but reached the end of the file."@
            },
            ParseErrorView::MissingKey { line_number } => {
                "Expected `key: $key` in line "@ + decimal(line_number)
                    + ", but reached the end of the file."@
            },
            ParseErrorView::MalformedKey { line_number, line } => {
                "Expected `key: $key` in line "@ + decimal(line_number) + ", but got "@ + line
                    + "."@
            },
            ParseErrorView::MissingDriverTrailer { line_number } => {
                "Expected a Co-Authored-By in line "@ + decimal(line_number)
                    + ", but reached the end of the file."@
            },
            ParseErrorView::InvalidTrailer { line_number, fault } => {
                "Expected `Co-Authored-By: $name <$email>` in line "@ + decimal(line_number)
                    + ", but got: "@ + fault_text(fault)
            },
        }
    }
}

impl TrailerFault {
    /// The sentence for this fault.
    pub fn to_string(&self) -> (r: String)
        ensures
            r@ == fault_text(*self),
    {
        match self {
            TrailerFault::MissingTrailerKey => {
                "The trailer is missing the `Co-Authored-By:` key.".to_owned()
            },
            TrailerFault::MissingName => "The name of the co-author is missing.".to_owned(),
            TrailerFault::MissingMail => "The mail of the co-author is missing.".to_owned(),
        }
    }
}

impl ParseError {
    /// The message for the user: see [`ParseErrorView::message`].
    pub fn to_string(&self) -> (r: String)
        ensures
            r@ == self@.message(),
    {
        let mut r = String::new();
        match self {
            ParseError::Empty => {
                push_str(&mut r, "The config file is empty, expected at least a version key.");
            },
            ParseError::MissingVersion { line } => {
                push_str(&mut r, "Expected `version: $version`, but got `");
                push_str(&mut r, line.as_str());
                push_str(&mut r, "` in line 1.");
            },
            ParseError::UnknownVersion { version } => {
                push_str(&mut r, "Unknown version: ");
                push_str(&mut r, version.as_str());
                push_str(&mut r, ".");
            },
            ParseError::MalformedHeader { line_number, line } => {
                push_str(&mut r, "Expected `$type: $alias`, but got `");
                push_str(&mut r, line.as_str());
                push_str(&mut r, "` in line ");
                push_decimal(&mut r, *line_number);
                push_str(&mut r, ".");
            },
            ParseError::UnknownKind { line_number, kind } => {
                push_str(&mut r, "Unexpted type `");
                push_str(&mut r, kind.as_str());
                push_str(&mut r, " in line ");
                push_decimal(&mut r, *line_number);
                push_str(&mut r, ", expected either `navigator` or `driver`.");
            },
            ParseError::MissingTrailer { line_number } => {
                push_str(&mut r, "Expected `Co-Authored-By: $name <$email>` in line ");
                push_decimal(&mut r, *line_number);
                push_str(&mut r, ", but reached the end of the file.");
            },
            ParseError::MissingKey { line_number } => {
                push_str(&mut r, "Expected `key: $key` in line ");
                push_decimal(&mut r, *line_number);
                push_str(&mut r, ", but reached the end of the file.");
            },
            ParseError::MalformedKey { line_number, line } => {
                push_str(&mut r, "Expected `key: $key` in line ");
                push_decimal(&mut r, *line_number);
                push_str(&mut r, ", but got ");
                push_str(&mut r, line.as_str());
                push_str(&mut r, ".");
            },
            ParseError::MissingDriverTrailer { line_number } => {
                push_str(&mut r, "Expected a Co-Authored-By in line ");
                push_decimal(&mut r, *line_number);
                push_str(&mut r, ", but reached the end of the file.");
            },
            ParseError::InvalidTrailer { line_number, fault } => {
                push_str(&mut r, "Expected `Co-Authored-By: $name <$email>` in line ");
                push_decimal(&mut r, *line_number);
                push_str(&mut r, ", but got: ");
                let text = fault.to_string();
                push_str(&mut r, text.as_str());
            },
        }
        proof {
            assert(r@ =~= self@.message());
        }
        r
    }
}

/// The navigator that a trailer makes under an alias. A trailer without an
/// address makes none.
pub open spec fn nav_of(alias: Seq<char>, trailer: Trailer, line_number: nat) -> Result<
    NavigatorView,
    ParseErrorView,
> {
    match trailer {
        Ok((name, Some(email))) => Ok(NavigatorView { alias, name, email }),
        Ok((_, None)) => Err(
            ParseErrorView::InvalidTrailer { line_number, fault: TrailerFault::MissingMail },
        ),
        Err(fault) => Err(ParseErrorView::InvalidTrailer { line_number, fault }),
    }
}

/// The navigator that the trailer `parsed`, read in line `line_number`,
/// makes under `alias`: see [`nav_of`].
pub fn read_nav(
    alias: &str,
    parsed: Result<(String, Option<String>), TrailerFault>,
    line_number: usize,
) -> (r: Result<Navigator, ParseError>)
    ensures
        record_view(r) == nav_of(alias@, trailer_view(parsed), line_number as nat),
{
    match parsed {
        Ok((name, Some(email))) => Ok(Navigator { alias: Id::new(alias), name, email }),
        Ok((_, None)) => Err(
            ParseError::InvalidTrailer { line_number, fault: TrailerFault::MissingMail },
        ),
        Err(fault) => Err(ParseError::InvalidTrailer { line_number, fault }),
    }
}

/// What the outcome of reading a navigator holds.
pub open spec fn record_view(r: Result<Navigator, ParseError>) -> Result<
    NavigatorView,
    ParseErrorView,
> {
    match r {
        Ok(n) => Ok(n@),
        Err(e) => Err(e@),
    }
}

/// What the outcome of reading a registry holds.
pub open spec fn outcome_view(r: Result<Config, ParseError>) -> Result<
    ConfigView,
    ParseErrorView,
> {
    match r {
        Ok(c) => Ok(c@),
        Err(e) => Err(e@),
    }
}

/// The key that a key line gives: none where nothing but white space
/// follows the colon. A line that does not begin with `key:` gives nothing.
pub open spec fn key_of(line: Seq<char>) -> Option<Option<Seq<char>>> {
    match split_once(line, seq![':']) {
        Some((word, rest)) => if word == "key"@ {
            if trim(rest).len() == 0 {
                Some(None)
            } else {
                Some(Some(trim(rest)))
            }
        } else {
            None
        },
        None => None,
    }
}

/// `c` with one more navigator at the end.
pub open spec fn with_navigator(c: ConfigView, n: NavigatorView) -> ConfigView {
    ConfigView { navigators: c.navigators.push(n), drivers: c.drivers }
}

/// `c` with one more driver at the end.
pub open spec fn with_driver(c: ConfigView, d: DriverView) -> ConfigView {
    ConfigView { navigators: c.navigators, drivers: c.drivers.push(d) }
}

/// What the lines after the header of a driver make: the driver, or the
/// first error met.
pub open spec fn driver_of(alias: Seq<char>, lines: Seq<Seq<char>>, number: nat) -> Result<
    DriverView,
    ParseErrorView,
> {
    if lines.len() < 2 {
        Err(ParseErrorView::MissingKey { line_number: number + 1 })
    } else {
        match key_of(lines[1]) {
            None => Err(ParseErrorView::MalformedKey { line_number: number + 1, line: lines[1] }),
            Some(key) => {
                if lines.len() < 3 {
                    Err(ParseErrorView::MissingDriverTrailer { line_number: number + 2 })
                } else {
                    match nav_of(alias, trailer_of(lines[2]), number + 2) {
                        Ok(n) => Ok(DriverView { navigator: n, key }),
                        Err(e) => Err(e),
                    }
                }
            },
        }
    }
}

/// The registry that the records in `lines` make when added to `acc`, in
/// their order. `number` is the number of the first of these lines.
pub open spec fn parse_records(lines: Seq<Seq<char>>, number: nat, acc: ConfigView) -> Result<
    ConfigView,
    ParseErrorView,
>
    decreases lines.len(),
{
    if lines.len() == 0 {
        Ok(acc)
    } else {
        match split_once(lines[0], ": "@) {
            None => Err(ParseErrorView::MalformedHeader { line_number: number, line: lines[0] }),
            Some((kind, alias)) => {
                if kind == "navigator"@ {
                    if lines.len() < 2 {
                        Err(ParseErrorView::MissingTrailer { line_number: number + 1 })
                    } else {
                        match nav_of(alias, trailer_of(lines[1]), number + 1) {
                            Ok(n) => parse_records(
                                lines.skip(2),
                                number + 2,
                                with_navigator(acc, n),
                            ),
                            Err(e) => Err(e),
                        }
                    }
                } else if kind == "driver"@ {
                    match driver_of(alias, lines, number) {
                        Ok(d) => parse_records(lines.skip(3), number + 3, with_driver(acc, d)),
                        Err(e) => Err(e),
                    }
                } else {
                    Err(ParseErrorView::UnknownKind { line_number: number, kind })
                }
            },
        }
    }
}

/// What the first line of a text must be for the text to be read.
pub open spec fn version_of(lines: Seq<Seq<char>>) -> Result<(), ParseErrorView> {
    if lines.len() == 0 {
        Err(ParseErrorView::Empty)
    } else if !version_key().is_prefix_of(lines[0]) {
        Err(ParseErrorView::MissingVersion { line: lines[0] })
    } else if lines[0].skip(version_key().len() as int) != "1"@ {
        Err(ParseErrorView::UnknownVersion { version: lines[0].skip(version_key().len() as int) })
    } else {
        Ok(())
    }
}

/// The registry that a text makes: its first line must be the version line,
/// and the lines after it must be records.
pub open spec fn parse_config(text: Seq<char>) -> Result<ConfigView, ParseErrorView> {
    let lines = lines_of(text);
    match version_of(lines) {
        Ok(_) => parse_records(lines.skip(1), 2, ConfigView::empty()),
        Err(e) => Err(e),
    }
}


/// The key in `chars[from..to]`, the line where the key of a driver should
/// stand: see [`key_of`].
fn read_key(chars: &Vec<char>, from: usize, to: usize) -> (r: Option<Option<String>>)
    requires
        from <= to <= chars.len(),
    ensures
        match r {
            Some(key) => key_of(chars@.subrange(from as int, to as int)) == Some(opt_view(key))
                && from + 4 <= to,
            None => key_of(chars@.subrange(from as int, to as int)) is None,
        },
{
    let ghost line = chars@.subrange(from as int, to as int);
    proof {
        reveal_strlit(":");
        reveal_strlit("key");
        assert(":"@ =~= seq![':']);
    }
    match find_in(chars, from, to, ":") {
        None => None,
        Some(i) => {
            proof {
                assert(line.take(i as int) =~= chars@.subrange(from as int, from + i));
                assert(line.skip(i + 1) =~= chars@.subrange(from + i + 1, to as int));
            }
            if span_is(chars, from, from + i, "key") {
                let (a, b) = trim_span(chars, from + i + 1, to);
                if a == b {
                    Some(None)
                } else {
                    Some(Some(string_of(chars, a, b)))
                }
            } else {
                None
            }
        },
    }
}

/// Reads the navigator whose header line is line `at`, and whose alias is
/// `chars[alias_start..alias_end]`, and adds it to `acc`.
fn read_navigator(
    lines: &Lines,
    at: usize,
    alias_start: usize,
    alias_end: usize,
    acc: &mut Config,
) -> (r: Result<usize, ParseError>)
    requires
        lines.wf(),
        at < lines@.len(),
        at + 2 <= alias_start <= alias_end <= lines.chars@.len(),
    ensures
        match r {
            Ok(next) => {
                &&& next == at + 2
                &&& next <= lines@.len()
                &&& nav_of(
                    lines.chars@.subrange(alias_start as int, alias_end as int),
                    trailer_of(lines@[at + 1]),
                    (at + 2) as nat,
                ) matches Ok(n)
                &&& final(acc)@ == with_navigator(old(acc)@, n)
            },
            Err(e) => if at + 1 < lines@.len() {
                nav_of(
                    lines.chars@.subrange(alias_start as int, alias_end as int),
                    trailer_of(lines@[at + 1]),
                    (at + 2) as nat,
                ) == Err::<NavigatorView, ParseErrorView>(e@)
            } else {
                e@ == (ParseErrorView::MissingTrailer { line_number: (at + 2) as nat })
            },
        },
{
    if at + 1 >= lines.len() {
        return Err(ParseError::MissingTrailer { line_number: at + 2 });
    }
    let alias = string_of(&lines.chars, alias_start, alias_end);
    let trailer = lines.line(at + 1);
    let nav = match read_nav(alias.as_str(), read_trailer(trailer.as_str()), at + 2) {
        Ok(nav) => nav,
        Err(e) => {
            return Err(e);
        },
    };
    let ghost before = acc.navigators@;
    acc.navigators.push(nav);
    proof {
        assert(navigators_view(acc.navigators@) =~= navigators_view(before).push(nav@));
    }
    Ok(at + 2)
}

/// Reads the driver whose header line is line `at`, and whose alias is
/// `chars[alias_start..alias_end]`, and adds it to `acc`.
fn read_driver(
    lines: &Lines,
    at: usize,
    alias_start: usize,
    alias_end: usize,
    acc: &mut Config,
) -> (r: Result<usize, ParseError>)
    requires
        lines.wf(),
        at < lines@.len(),
        at + 2 <= alias_start <= alias_end <= lines.chars@.len(),
    ensures
        match r {
            Ok(next) => {
                &&& next == at + 3
                &&& next <= lines@.len()
                &&& driver_of(
                    lines.chars@.subrange(alias_start as int, alias_end as int),
                    lines@.skip(at as int),
                    (at + 1) as nat,
                ) matches Ok(d)
                &&& final(acc)@ == with_driver(old(acc)@, d)
            },
            Err(e) => driver_of(
                lines.chars@.subrange(alias_start as int, alias_end as int),
                lines@.skip(at as int),
                (at + 1) as nat,
            ) == Err::<DriverView, ParseErrorView>(e@),
        },
{
    let ghost rest = lines@.skip(at as int);
    if at + 1 >= lines.len() {
        return Err(ParseError::MissingKey { line_number: at + 2 });
    }
    proof {
        assert(rest[1] == lines@[at + 1]);
    }
    let key_span = lines.span(at + 1);
    let key = match read_key(&lines.chars, key_span.start, key_span.end) {
        Some(key) => key,
        None => {
            return Err(
                ParseError::MalformedKey { line_number: at + 2, line: lines.line(at + 1) },
            );
        },
    };
    if at + 2 >= lines.len() {
        return Err(ParseError::MissingDriverTrailer { line_number: at + 3 });
    }
    proof {
        assert(rest[2] == lines@[at + 2]);
    }
    let alias = string_of(&lines.chars, alias_start, alias_end);
    let trailer = lines.line(at + 2);
    let nav = match read_nav(alias.as_str(), read_trailer(trailer.as_str()), at + 3) {
        Ok(nav) => nav,
        Err(e) => {
            return Err(e);
        },
    };
    let drv = Driver { navigator: nav, key };
    let ghost before = acc.drivers@;
    acc.drivers.push(drv);
    proof {
        assert(drivers_view(acc.drivers@) =~= drivers_view(before).push(drv@));
    }
    Ok(at + 3)
}

/// Reads the record whose header line is line `at`, and adds it to `acc`.
/// Returns the index of the line after the record.
fn read_record(lines: &Lines, at: usize, acc: &mut Config) -> (r: Result<usize, ParseError>)
    requires
        lines.wf(),
        at < lines@.len(),
    ensures
        match r {
            Ok(next) => at < next <= lines@.len() && parse_records(
                lines@.skip(at as int),
                (at + 1) as nat,
                old(acc)@,
            ) == parse_records(lines@.skip(next as int), (next + 1) as nat, final(acc)@),
            Err(e) => parse_records(lines@.skip(at as int), (at + 1) as nat, old(acc)@) == Err::<
                ConfigView,
                ParseErrorView,
            >(e@),
        },
{
    let ghost rest = lines@.skip(at as int);
    let total = lines.len();
    let header = lines.span(at);
    proof {
        reveal_strlit(": ");
        assert(rest[0] == lines@[at as int]);
    }
    let i = match find_in(&lines.chars, header.start, header.end, ": ") {
        Some(i) => i,
        None => {
            return Err(ParseError::MalformedHeader { line_number: at + 1, line: lines.line(at) });
        },
    };
    let kind_end = header.start + i;
    let alias_start = kind_end + 2;
    proof {
        assert(rest[0].take(i as int) =~= lines.chars@.subrange(
            header.start as int,
            kind_end as int,
        ));
        assert(rest[0].skip(i + 2) =~= lines.chars@.subrange(
            alias_start as int,
            header.end as int,
        ));
    }
    if span_is(&lines.chars, header.start, kind_end, "navigator") {
        proof {
            if at + 1 < lines@.len() {
                assert(rest[1] == lines@[at + 1]);
                assert(rest.skip(2) =~= lines@.skip(at + 2));
            }
        }
        read_navigator(lines, at, alias_start, header.end, acc)
    } else if span_is(&lines.chars, header.start, kind_end, "driver") {
        proof {
            if at + 2 < lines@.len() {
                assert(rest.skip(3) =~= lines@.skip(at + 3));
            }
        }
        read_driver(lines, at, alias_start, header.end, acc)
    } else {
        Err(
            ParseError::UnknownKind {
                line_number: at + 1,
                kind: string_of(&lines.chars, header.start, kind_end),
            },
        )
    }
}

/// Accepts the first line if it is the version line.
fn read_version(lines: &Lines) -> (r: Result<(), ParseError>)
    requires
        lines.wf(),
    ensures
        match r {
            Ok(_) => version_of(lines@) is Ok && lines@.len() > 0 && lines@[0] == version_line(),
            Err(e) => version_of(lines@) == Err::<(), ParseErrorView>(e@),
        },
{
    if lines.len() == 0 {
        return Err(ParseError::Empty);
    }
    let first = lines.span(0);
    proof {
        reveal_strlit("version: ");
    }
    if !span_starts_with(&lines.chars, first.start, first.end, "version: ") {
        return Err(ParseError::MissingVersion { line: lines.line(0) });
    }
    proof {
        assert(lines@[0].skip(9) =~= lines.chars@.subrange(first.start + 9, first.end as int));
    }
    if !span_is(&lines.chars, first.start + 9, first.end, "1") {
        return Err(
            ParseError::UnknownVersion {
                version: string_of(&lines.chars, first.start + 9, first.end),
            },
        );
    }
    proof {
        lemma_version_line();
        assert(lines@[0] =~= version_key() + lines@[0].skip(9));
    }
    Ok(())
}

/// The version line is the version key followed by `1`.
proof fn lemma_version_line()
    ensures
        version_line() == version_key() + "1"@,
        version_key().len() == 9,
{
    reveal_strlit("version: ");
    reveal_strlit("version: 1");
    reveal_strlit("1");
    assert(version_line() =~= version_key() + "1"@);
}

/// No driver that is read from records holds an empty key, where none of
/// those read before does.
pub proof fn lemma_record_keys(lines: Seq<Seq<char>>, number: nat, acc: ConfigView)
    requires
        acc.keys_in_order(),
    ensures
        parse_records(lines, number, acc) matches Ok(c) ==> c.keys_in_order(),
    decreases lines.len(),
{
    if lines.len() > 0 {
        match split_once(lines[0], ": "@) {
            None => {},
            Some((kind, alias)) => {
                if kind == "navigator"@ {
                    if lines.len() >= 2 {
                        match nav_of(alias, trailer_of(lines[1]), number + 1) {
                            Ok(n) => {
                                lemma_record_keys(
                                    lines.skip(2),
                                    number + 2,
                                    with_navigator(acc, n),
                                );
                            },
                            Err(_) => {},
                        }
                    }
                } else if kind == "driver"@ {
                    match driver_of(alias, lines, number) {
                        Ok(d) => {
                            let next = with_driver(acc, d);
                            assert forall|i: int| 0 <= i < next.drivers.len() implies (
                            #[trigger] next.drivers[i]).wf() by {
                                if i < acc.drivers.len() {
                                    assert(next.drivers[i] == acc.drivers[i]);
                                }
                            }
                            lemma_record_keys(lines.skip(3), number + 3, next);
                        },
                        Err(_) => {},
                    }
                }
            },
        }
    }
}

/// Reads a registry from its text.
///
/// The outcome is the one that [`parse_config`] gives for the text: the
/// registry with every record in the order of the text, or the first error
/// met. A text whose first line is not `version: 1` is never read.
pub fn deserialize_config(content: &str) -> (r: Result<Config, ParseError>)
    ensures
        outcome_view(r) == parse_config(content@),
        r is Ok ==> lines_of(content@).len() > 0 && lines_of(content@)[0] == version_line(),
        r matches Ok(c) ==> c@.keys_in_order(),
{
    let lines = Lines::of(content);
    let total = lines.len();
    match read_version(&lines) {
        Ok(_) => {},
        Err(e) => {
            return Err(e);
        },
    }
    let mut acc = Config::default();
    let mut at: usize = 1;
    while at < total
        invariant
            lines.wf(),
            total == lines@.len(),
            1 <= at <= total,
            lines@ == lines_of(content@),
            lines@[0] == version_line(),
            parse_config(content@) == parse_records(lines@.skip(1), 2, ConfigView::empty()),
            parse_config(content@) == parse_records(
                lines@.skip(at as int),
                (at + 1) as nat,
                acc@,
            ),
        decreases total - at,
    {
        match read_record(&lines, at, &mut acc) {
            Ok(next) => {
                at = next;
            },
            Err(e) => {
                return Err(e);
            },
        }
    }
    proof {
        assert(lines@.skip(at as int) =~= Seq::empty());
        lemma_record_keys(lines@.skip(1), 2, ConfigView::empty());
        assert(parse_records(lines@.skip(1), 2, ConfigView::empty()) == Ok::<
            ConfigView,
            ParseErrorView,
        >(acc@));
    }
    Ok(acc)
}

} // verus!
