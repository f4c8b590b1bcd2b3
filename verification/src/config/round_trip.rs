//! What is written can be read back: the laws that tie the two directions of
//! the text format together.

use crate::config::record::{
    config_text, driver_of, driver_text, drivers_text, key_line, key_of, nav_of, navigator_text,
    navigators_text, parse_config, parse_records, version_key, version_line, version_of,
    with_driver, with_navigator,
};
use crate::config::trailer::{
    is_plain_mail, is_plain_name, trailer_key, trailer_line, trailer_of,
};
use crate::config::ConfigView;
use crate::data::{DriverView, NavigatorView};
use crate::lines::{lemma_lines_of_cons, line_feed, lines_of, without_cr};
use crate::text::{is_whitespace, lemma_find_is, occurs_at, split_once, trim, trim_start};
use vstd::prelude::*;

verus! {

/// An alias that a header line gives back as it was written: it has no line
/// feed in it and does not end with a carriage return.
pub open spec fn is_plain_alias(alias: Seq<char>) -> bool {
    &&& !alias.contains('\n')
    &&& !(alias.len() > 0 && alias.last() == '\r')
}

/// A key that a key line gives back as it was written: it is not empty, has
/// no line feed in it, and neither begins nor ends with white space.
pub open spec fn is_plain_key(key: Seq<char>) -> bool {
    &&& key.len() > 0
    &&& !key.contains('\n')
    &&& !is_whitespace(key.first())
    &&& !is_whitespace(key.last())
}

/// A navigator whose lines give it back as it was written.
pub open spec fn navigator_round_trips(n: NavigatorView) -> bool {
    &&& is_plain_alias(n.alias)
    &&& is_plain_name(n.name)
    &&& !n.name.contains('\n')
    &&& is_plain_mail(n.email)
    &&& !n.email.contains('\n')
}

/// A driver whose lines give it back as it was written.
pub open spec fn driver_round_trips(d: DriverView) -> bool {
    &&& navigator_round_trips(d.navigator)
    &&& d.key matches Some(k) ==> is_plain_key(k)
}

/// A registry whose text gives it back as it was written.
pub open spec fn round_trips(c: ConfigView) -> bool {
    &&& forall|i: int| 0 <= i < c.navigators.len() ==> navigator_round_trips(#[trigger] c.navigators[i])
    &&& forall|i: int| 0 <= i < c.drivers.len() ==> driver_round_trips(#[trigger] c.drivers[i])
}

/// The trailer written for a plain name and a plain address is read as that
/// name and that address.
pub proof fn lemma_trailer_round_trip(name: Seq<char>, mail: Seq<char>)
    requires
        is_plain_name(name),
        is_plain_mail(mail),
    ensures
        trailer_of(trailer_line(name, mail)) == Ok::<
            (Seq<char>, Option<Seq<char>>),
            crate::config::trailer::TrailerFault,
        >((name, Some(mail))),
{
    reveal_strlit("Co-Authored-By: ");
    reveal_strlit(" <");
    reveal_strlit(">");
    let line = trailer_line(name, mail);
    let key = trailer_key();
    assert(line.subrange(0, key.len() as int) =~= key);
    let rest = line.skip(key.len() as int);
    assert(rest =~= name + " <"@ + mail + ">"@);
    let i = name.len() as int + 1;
    assert(rest.subrange(i, i + 1) =~= seq!['<']);
    assert forall|k: int| 0 <= k < i implies !occurs_at(rest, seq!['<'], k) by {
        if occurs_at(rest, seq!['<'], k) {
            assert(rest.subrange(k, k + 1)[0] == '<');
            if k < name.len() {
                assert(name[k] == '<');
            }
        }
    }
    lemma_find_is(rest, seq!['<'], i);
    assert(rest.take(i - 1) =~= name);
    assert(rest.subrange(i + 1, rest.len() - 1) =~= mail);
}

/// White space before a plain key is trimmed away, and nothing else.
proof fn lemma_trim_key(key: Seq<char>)
    requires
        is_plain_key(key),
    ensures
        trim(seq![' '] + key) == key,
{
    let s = seq![' '] + key;
    assert(s.drop_first() =~= key);
    assert(trim_start(s) == trim_start(key));
}

/// The key line written for a plain key, or for none, is read as that key.
pub proof fn lemma_key_round_trip(key: Option<Seq<char>>)
    requires
        key matches Some(k) ==> is_plain_key(k),
    ensures
        key_of(key_line(key)) == Some(key),
{
    reveal_strlit("key:");
    reveal_strlit("key");
    reveal_strlit(" ");
    let line = key_line(key);
    assert(line.subrange(3, 4) =~= seq![':']);
    assert forall|k: int| 0 <= k < 3 implies !occurs_at(line, seq![':'], k) by {
        if occurs_at(line, seq![':'], k) {
            assert(line.subrange(k, k + 1)[0] == ':');
        }
    }
    lemma_find_is(line, seq![':'], 3);
    assert(line.take(3) =~= "key"@);
    match key {
        Some(k) => {
            assert(line.skip(4) =~= seq![' '] + k);
            lemma_trim_key(k);
        },
        None => {
            assert(line.skip(4) =~= Seq::<char>::empty());
        },
    }
}

/// A header line is split into the kind and the alias that it was written
/// from.
proof fn lemma_header_round_trip(alias: Seq<char>)
    ensures
        split_once("navigator: "@ + alias, ": "@) == Some(("navigator"@, alias)),
        split_once("driver: "@ + alias, ": "@) == Some(("driver"@, alias)),
{
    reveal_strlit("navigator: ");
    reveal_strlit("navigator");
    reveal_strlit("driver: ");
    reveal_strlit("driver");
    reveal_strlit(": ");
    let a = "navigator: "@ + alias;
    assert(a.subrange(9, 11) =~= ": "@);
    assert forall|k: int| 0 <= k < 9 implies !occurs_at(a, ": "@, k) by {
        if occurs_at(a, ": "@, k) {
            assert(a.subrange(k, k + 2)[0] == ':');
        }
    }
    lemma_find_is(a, ": "@, 9);
    assert(a.take(9) =~= "navigator"@);
    assert(a.skip(11) =~= alias);
    let b = "driver: "@ + alias;
    assert(b.subrange(6, 8) =~= ": "@);
    assert forall|k: int| 0 <= k < 6 implies !occurs_at(b, ": "@, k) by {
        if occurs_at(b, ": "@, k) {
            assert(b.subrange(k, k + 2)[0] == ':');
        }
    }
    lemma_find_is(b, ": "@, 6);
    assert(b.take(6) =~= "driver"@);
    assert(b.skip(8) =~= alias);
}

/// The two lines of a navigator.
pub open spec fn navigator_lines(n: NavigatorView) -> Seq<Seq<char>> {
    seq!["navigator: "@ + n.alias, trailer_line(n.name, n.email)]
}

/// The three lines of a driver.
pub open spec fn driver_lines(d: DriverView) -> Seq<Seq<char>> {
    seq![
        "driver: "@ + d.navigator.alias,
        key_line(d.key),
        trailer_line(d.navigator.name, d.navigator.email),
    ]
}

/// A trailer line has no line feed in it and ends with `>`.
proof fn lemma_trailer_is_line(n: NavigatorView)
    requires
        navigator_round_trips(n),
    ensures
        !trailer_line(n.name, n.email).contains('\n'),
        without_cr(trailer_line(n.name, n.email)) == trailer_line(n.name, n.email),
{
    reveal_strlit("Co-Authored-By: ");
    reveal_strlit(" <");
    reveal_strlit(">");
    let line = trailer_line(n.name, n.email);
    assert(line.last() == '>');
    assert forall|k: int| 0 <= k < line.len() implies line[k] != '\n' by {
        if k < 16 {
        } else if k < 16 + n.name.len() {
            assert(line[k] == n.name[k - 16]);
        } else if k < 18 + n.name.len() {
        } else if k < 18 + n.name.len() + n.email.len() {
            assert(line[k] == n.email[k - 18 - n.name.len()]);
        } else {
        }
    }
}

/// The text of a navigator, followed by more text, has the two lines of the
/// navigator followed by the lines of the rest.
proof fn lemma_navigator_lines(n: NavigatorView, rest: Seq<char>)
    requires
        navigator_round_trips(n),
    ensures
        lines_of(navigator_text(n) + rest) == navigator_lines(n) + lines_of(rest),
{
    reveal_strlit("navigator: ");
    let header = "navigator: "@ + n.alias;
    let trailer = trailer_line(n.name, n.email);
    assert forall|k: int| 0 <= k < header.len() implies header[k] != '\n' by {
        if k >= 11 {
            assert(header[k] == n.alias[k - 11]);
        }
    }
    assert(without_cr(header) == header) by {
        if n.alias.len() > 0 {
            assert(header.last() == n.alias.last());
        }
    }
    lemma_trailer_is_line(n);
    let tail = trailer + line_feed() + rest;
    assert(navigator_text(n) + rest =~= header + line_feed() + tail);
    lemma_lines_of_cons(header, tail);
    lemma_lines_of_cons(trailer, rest);
    assert(navigator_lines(n) + lines_of(rest) =~= seq![header] + (seq![trailer] + lines_of(rest)));
}

/// The text of a driver, followed by more text, has the three lines of the
/// driver followed by the lines of the rest.
proof fn lemma_driver_lines(d: DriverView, rest: Seq<char>)
    requires
        driver_round_trips(d),
    ensures
        lines_of(driver_text(d) + rest) == driver_lines(d) + lines_of(rest),
{
    reveal_strlit("driver: ");
    reveal_strlit("key:");
    reveal_strlit(" ");
    let n = d.navigator;
    let header = "driver: "@ + n.alias;
    let key = key_line(d.key);
    let trailer = trailer_line(n.name, n.email);
    assert forall|k: int| 0 <= k < header.len() implies header[k] != '\n' by {
        if k >= 8 {
            assert(header[k] == n.alias[k - 8]);
        }
    }
    assert(without_cr(header) == header) by {
        if n.alias.len() > 0 {
            assert(header.last() == n.alias.last());
        }
    }
    assert forall|k: int| 0 <= k < key.len() implies key[k] != '\n' by {
        if k >= 5 {
            assert(key[k] == d.key->0[k - 5]);
        }
    }
    assert(without_cr(key) == key) by {
        match d.key {
            Some(k) => {
                assert(key.last() == k.last());
            },
            None => {},
        }
    }
    lemma_trailer_is_line(n);
    let tail2 = trailer + line_feed() + rest;
    let tail1 = key + line_feed() + tail2;
    assert(driver_text(d) + rest =~= header + line_feed() + tail1);
    lemma_lines_of_cons(header, tail1);
    lemma_lines_of_cons(key, tail2);
    lemma_lines_of_cons(trailer, rest);
    assert(driver_lines(d) + lines_of(rest) =~= seq![header] + (seq![key] + (seq![trailer]
        + lines_of(rest))));
}

/// The lines of the navigators, in their order.
pub open spec fn navigators_lines(navigators: Seq<NavigatorView>) -> Seq<Seq<char>>
    decreases navigators.len(),
{
    if navigators.len() == 0 {
        Seq::empty()
    } else {
        navigator_lines(navigators.first()) + navigators_lines(navigators.drop_first())
    }
}

/// The lines of the drivers, in their order.
pub open spec fn drivers_lines(drivers: Seq<DriverView>) -> Seq<Seq<char>>
    decreases drivers.len(),
{
    if drivers.len() == 0 {
        Seq::empty()
    } else {
        driver_lines(drivers.first()) + drivers_lines(drivers.drop_first())
    }
}

proof fn lemma_navigators_lines(navigators: Seq<NavigatorView>, rest: Seq<char>)
    requires
        forall|i: int| 0 <= i < navigators.len() ==> navigator_round_trips(#[trigger] navigators[i]),
    ensures
        lines_of(navigators_text(navigators) + rest) == navigators_lines(navigators) + lines_of(
            rest,
        ),
    decreases navigators.len(),
{
    if navigators.len() == 0 {
        assert(navigators_text(navigators) + rest =~= rest);
        assert(navigators_lines(navigators) + lines_of(rest) =~= lines_of(rest));
    } else {
        let n = navigators.first();
        let more = navigators.drop_first();
        assert forall|i: int| 0 <= i < more.len() implies navigator_round_trips(
            #[trigger] more[i],
        ) by {
            assert(more[i] == navigators[i + 1]);
        }
        lemma_navigators_lines(more, rest);
        lemma_navigator_lines(n, navigators_text(more) + rest);
        assert(navigators_text(navigators) + rest =~= navigator_text(n) + (navigators_text(more)
            + rest));
        assert(navigators_lines(navigators) + lines_of(rest) =~= navigator_lines(n) + (
        navigators_lines(more) + lines_of(rest)));
    }
}

proof fn lemma_drivers_lines(drivers: Seq<DriverView>)
    requires
        forall|i: int| 0 <= i < drivers.len() ==> driver_round_trips(#[trigger] drivers[i]),
    ensures
        lines_of(drivers_text(drivers)) == drivers_lines(drivers),
    decreases drivers.len(),
{
    if drivers.len() == 0 {
    } else {
        let d = drivers.first();
        let more = drivers.drop_first();
        assert forall|i: int| 0 <= i < more.len() implies driver_round_trips(#[trigger] more[i]) by {
            assert(more[i] == drivers[i + 1]);
        }
        lemma_drivers_lines(more);
        lemma_driver_lines(d, drivers_text(more));
    }
}

/// `c` with `navigators` added at the end, in their order.
pub open spec fn with_navigators(c: ConfigView, navigators: Seq<NavigatorView>) -> ConfigView {
    ConfigView { navigators: c.navigators + navigators, drivers: c.drivers }
}

/// `c` with `drivers` added at the end, in their order.
pub open spec fn with_drivers(c: ConfigView, drivers: Seq<DriverView>) -> ConfigView {
    ConfigView { navigators: c.navigators, drivers: c.drivers + drivers }
}

proof fn lemma_parse_drivers(drivers: Seq<DriverView>, number: nat, acc: ConfigView)
    requires
        forall|i: int| 0 <= i < drivers.len() ==> driver_round_trips(#[trigger] drivers[i]),
    ensures
        parse_records(drivers_lines(drivers), number, acc) == Ok::<
            ConfigView,
            crate::config::record::ParseErrorView,
        >(with_drivers(acc, drivers)),
    decreases drivers.len(),
{
    if drivers.len() == 0 {
        assert(with_drivers(acc, drivers).drivers =~= acc.drivers);
    } else {
        let d = drivers.first();
        let more = drivers.drop_first();
        let lines = drivers_lines(drivers);
        assert forall|i: int| 0 <= i < more.len() implies driver_round_trips(#[trigger] more[i]) by {
            assert(more[i] == drivers[i + 1]);
        }
        assert(lines[0] == driver_lines(d)[0]);
        assert(lines[1] == driver_lines(d)[1]);
        assert(lines[2] == driver_lines(d)[2]);
        assert(lines.skip(3) =~= drivers_lines(more));
        lemma_header_round_trip(d.navigator.alias);
        lemma_key_round_trip(d.key);
        lemma_trailer_round_trip(d.navigator.name, d.navigator.email);
        lemma_kinds_differ();
        assert(driver_of(d.navigator.alias, lines, number) == Ok::<
            DriverView,
            crate::config::record::ParseErrorView,
        >(d));
        lemma_parse_drivers(more, number + 3, with_driver(acc, d));
        assert(with_drivers(with_driver(acc, d), more).drivers =~= with_drivers(
            acc,
            drivers,
        ).drivers);
    }
}

/// The two kinds of record go by different words.
proof fn lemma_kinds_differ()
    ensures
        "navigator"@ != "driver"@,
{
    reveal_strlit("navigator");
    reveal_strlit("driver");
    assert("navigator"@.len() != "driver"@.len());
}

proof fn lemma_parse_navigators(
    navigators: Seq<NavigatorView>,
    tail: Seq<Seq<char>>,
    number: nat,
    acc: ConfigView,
)
    requires
        forall|i: int| 0 <= i < navigators.len() ==> navigator_round_trips(#[trigger] navigators[i]),
    ensures
        parse_records(navigators_lines(navigators) + tail, number, acc) == parse_records(
            tail,
            number + 2 * navigators.len(),
            with_navigators(acc, navigators),
        ),
    decreases navigators.len(),
{
    if navigators.len() == 0 {
        assert(navigators_lines(navigators) + tail =~= tail);
        assert(with_navigators(acc, navigators).navigators =~= acc.navigators);
    } else {
        let n = navigators.first();
        let more = navigators.drop_first();
        let lines = navigators_lines(navigators) + tail;
        assert forall|i: int| 0 <= i < more.len() implies navigator_round_trips(
            #[trigger] more[i],
        ) by {
            assert(more[i] == navigators[i + 1]);
        }
        assert(lines[0] == navigator_lines(n)[0]);
        assert(lines[1] == navigator_lines(n)[1]);
        assert(lines.skip(2) =~= navigators_lines(more) + tail);
        lemma_header_round_trip(n.alias);
        lemma_trailer_round_trip(n.name, n.email);
        assert(nav_of(n.alias, trailer_of(lines[1]), number + 1) == Ok::<
            NavigatorView,
            crate::config::record::ParseErrorView,
        >(n));
        lemma_parse_navigators(more, tail, number + 2, with_navigator(acc, n));
        assert(with_navigators(with_navigator(acc, n), more).navigators =~= with_navigators(
            acc,
            navigators,
        ).navigators);
    }
}

/// Reading the text of a registry gives the registry back, record for
/// record and in the same order, whenever every alias, name, address and key
/// in it is plain.
pub proof fn lemma_round_trip(c: ConfigView)
    requires
        round_trips(c),
    ensures
        parse_config(config_text(c)) == Ok::<ConfigView, crate::config::record::ParseErrorView>(c),
{
    reveal_strlit("version: 1");
    reveal_strlit("version: ");
    reveal_strlit("1");
    let text = config_text(c);
    let body = navigators_text(c.navigators) + drivers_text(c.drivers);
    assert(text =~= version_line() + line_feed() + body);
    assert forall|k: int| 0 <= k < version_line().len() implies version_line()[k] != '\n' by {}
    lemma_lines_of_cons(version_line(), body);
    lemma_navigators_lines(c.navigators, drivers_text(c.drivers));
    lemma_drivers_lines(c.drivers);
    let lines = lines_of(text);
    let records = navigators_lines(c.navigators) + drivers_lines(c.drivers);
    assert(lines =~= seq![version_line()] + records);
    assert(lines[0] == version_line());
    assert(version_line().subrange(0, 9) =~= version_key());
    assert(version_line().skip(9) =~= "1"@);
    assert(version_of(lines) is Ok);
    assert(lines.skip(1) =~= records);
    lemma_parse_navigators(c.navigators, drivers_lines(c.drivers), 2, ConfigView::empty());
    let mid = with_navigators(ConfigView::empty(), c.navigators);
    lemma_parse_drivers(c.drivers, 2 + 2 * c.navigators.len(), mid);
    assert(with_drivers(mid, c.drivers).navigators =~= c.navigators);
    assert(with_drivers(mid, c.drivers).drivers =~= c.drivers);
}

/// A text whose first line is not the version line is never read, whatever
/// follows: neither an empty text nor one that begins otherwise.
pub proof fn lemma_version_gate(text: Seq<char>)
    requires
        lines_of(text).len() == 0 || lines_of(text)[0] != version_line(),
    ensures
        parse_config(text) is Err,
{
    reveal_strlit("version: 1");
    reveal_strlit("version: ");
    reveal_strlit("1");
    let lines = lines_of(text);
    if lines.len() > 0 && version_key().is_prefix_of(lines[0]) && lines[0].skip(9) == "1"@ {
        assert(lines[0] =~= version_key() + lines[0].skip(9));
        assert(version_line() =~= version_key() + "1"@);
    }
}

} // verus!
