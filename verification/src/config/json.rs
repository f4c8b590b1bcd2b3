//! The older, JSON-encoded form of the registry. It is only ever read.
//!
//! ```text
//! { "navigators": [ { "alias": "..", "name": "..", "email": ".." }, .. ],
//!   "drivers":    [ { "alias": "..", "name": "..", "email": "..", "key": ".." }, .. ] }
//! ```
//!
//! This is no general JSON reader: it accepts this one shape. Space, tab,
//! carriage return and line feed may stand between any two tokens. Positions
//! in errors count characters from 0.

use crate::config::{Config, ConfigView};
use crate::data::{
    key_from, key_if_any, Driver, DriverView, Id, Navigator, NavigatorView, PartialNav,
    PartialNavView,
};
use crate::text::{occurs_at, push_decimal, push_str, stands_at, decimal};
use vstd::prelude::*;

verus! {

/// Where reading stopped: the text is not of the accepted shape from the
/// character at `position` on.
#[derive(Clone, Copy, Debug, PartialEq, Eq, Structural)]
pub struct JsonError {
    pub position: usize,
}

/// The message for an error at `position`.
pub open spec fn json_error_text(position: nat) -> Seq<char> {
    "The legacy config is malformed at character "@ + decimal(position) + "."@
}

impl JsonError {
    /// The message for the user.
    pub fn to_string(&self) -> (r: String)
        ensures
            r@ == json_error_text(self.position as nat),
    {
        let mut r = String::new();
        push_str(&mut r, "The legacy config is malformed at character ");
        push_decimal(&mut r, self.position);
        push_str(&mut r, ".");
        r
    }
}

/// Whether `c` may stand between two tokens.
pub open spec fn is_space(c: char) -> bool {
    c == ' ' || c == '\t' || c == '\r' || c == '\n'
}

/// The first index from `i` on at which no space stands.
pub open spec fn skip_space(s: Seq<char>, i: int) -> int
    decreases s.len() - i,
{
    if 0 <= i < s.len() && is_space(s[i]) {
        skip_space(s, i + 1)
    } else {
        i
    }
}

fn skip_ws(chars: &Vec<char>, i: usize) -> (j: usize)
    requires
        i <= chars.len(),
    ensures
        j == skip_space(chars@, i as int),
        i <= j <= chars.len(),
{
    let mut j: usize = i;
    while j < chars.len() && (chars[j] == ' ' || chars[j] == '\t' || chars[j] == '\r' || chars[j]
        == '\n')
        invariant
            i <= j <= chars.len(),
            skip_space(chars@, i as int) == skip_space(chars@, j as int),
        decreases chars.len() - j,
    {
        j += 1;
    }
    j
}

/// The index after the token `c`, which must be the first thing that is no
/// space from `i` on.
pub open spec fn token(s: Seq<char>, i: int, c: char) -> Result<int, int> {
    let j = skip_space(s, i);
    if 0 <= j < s.len() && s[j] == c {
        Ok(j + 1)
    } else {
        Err(j)
    }
}

/// What a step of reading gives in the model: a value and the index after
/// it, or the index at which reading stopped.
pub open spec fn step_view<T>(r: Result<(T, usize), usize>) -> Result<(T, int), int> {
    match r {
        Ok((v, j)) => Ok((v, j as int)),
        Err(e) => Err(e as int),
    }
}

fn expect(chars: &Vec<char>, i: usize, c: char) -> (r: Result<usize, usize>)
    requires
        i <= chars.len(),
    ensures
        match r {
            Ok(j) => token(chars@, i as int, c) == Ok::<int, int>(j as int) && i < j
                <= chars.len(),
            Err(e) => token(chars@, i as int, c) == Err::<int, int>(e as int) && i <= e
                <= chars.len(),
        },
{
    let j = skip_ws(chars, i);
    if j < chars.len() && chars[j] == c {
        Ok(j + 1)
    } else {
        Err(j)
    }
}

/// The value of a hexadecimal digit.
pub open spec fn hex_value(c: char) -> Option<nat> {
    let n = c as u32;
    if 0x30 <= n <= 0x39 {
        Some((n - 0x30) as nat)
    } else if 0x61 <= n <= 0x66 {
        Some((n - 0x61 + 10) as nat)
    } else if 0x41 <= n <= 0x46 {
        Some((n - 0x41 + 10) as nat)
    } else {
        None
    }
}

fn hex_digit(c: char) -> (r: Option<u32>)
    ensures
        match r {
            Some(v) => hex_value(c) == Some(v as nat) && v < 16,
            None => hex_value(c) is None,
        },
{
    let n: u32 = c as u32;
    if 0x30 <= n && n <= 0x39 {
        Some(n - 0x30)
    } else if 0x61 <= n && n <= 0x66 {
        Some(n - 0x61 + 10)
    } else if 0x41 <= n && n <= 0x46 {
        Some(n - 0x41 + 10)
    } else {
        None
    }
}

/// The number that the four characters behind `\u` stand for: the value of
/// the hexadecimal digits that they begin with. There must be at least one;
/// what follows the digits among the four is passed over.
pub open spec fn code_unit_value(a: char, b: char, c: char, d: char) -> Option<nat> {
    match hex_value(a) {
        None => None,
        Some(x) => match hex_value(b) {
            None => Some(x),
            Some(y) => match hex_value(c) {
                None => Some(x * 16 + y),
                Some(z) => match hex_value(d) {
                    None => Some((x * 16 + y) * 16 + z),
                    Some(w) => Some(((x * 16 + y) * 16 + z) * 16 + w),
                },
            },
        },
    }
}

/// The code unit of a `\u` escape whose `u` stands at `i`, and the index
/// after its four characters.
pub open spec fn code_unit(s: Seq<char>, i: int) -> Result<(nat, int), int> {
    if !(0 <= i < s.len() && s[i] == 'u') {
        Err(i)
    } else if i + 5 > s.len() {
        Err(i + 1)
    } else {
        match code_unit_value(s[i + 1], s[i + 2], s[i + 3], s[i + 4]) {
            Some(n) => Ok((n, i + 5)),
            None => Err(i + 1),
        }
    }
}

fn read_code_unit(chars: &Vec<char>, i: usize) -> (r: Result<(u32, usize), usize>)
    requires
        i <= chars.len(),
    ensures
        match r {
            Ok((n, j)) => code_unit(chars@, i as int) == Ok::<(nat, int), int>(
                (n as nat, j as int),
            ) && n <= 0xFFFF && j == i + 5 && j <= chars.len(),
            Err(e) => code_unit(chars@, i as int) == Err::<(nat, int), int>(e as int) && i <= e
                <= chars.len(),
        },
{
    if !(i < chars.len() && chars[i] == 'u') {
        return Err(i);
    }
    if chars.len() - i < 5 {
        return Err(i + 1);
    }
    let x = match hex_digit(chars[i + 1]) {
        Some(x) => x,
        None => {
            return Err(i + 1);
        },
    };
    let n = match hex_digit(chars[i + 2]) {
        None => x,
        Some(y) => match hex_digit(chars[i + 3]) {
            None => x * 16 + y,
            Some(z) => match hex_digit(chars[i + 4]) {
                None => (x * 16 + y) * 16 + z,
                Some(w) => ((x * 16 + y) * 16 + z) * 16 + w,
            },
        },
    };
    Ok((n, i + 5))
}

/// What stands for a code unit that has no meaning alone.
pub open spec fn replacement() -> char {
    '\u{FFFD}'
}

/// Whether `n` is the first half of a surrogate pair.
pub open spec fn is_high_surrogate(n: nat) -> bool {
    0xD800 <= n <= 0xDBFF
}

/// Whether `n` is the second half of a surrogate pair.
pub open spec fn is_low_surrogate(n: nat) -> bool {
    0xDC00 <= n <= 0xDFFF
}

/// The character that a surrogate pair stands for.
pub open spec fn surrogate_pair(high: nat, low: nat) -> char {
    ((0x10000 + (high - 0xD800) * 0x400 + (low - 0xDC00)) as u32) as char
}

/// The character of a `\u` escape whose `u` stands at `i`, and the index
/// after it. Two escapes that form a surrogate pair make one character. Half
/// a pair alone makes the replacement character, and what follows it is read
/// on its own.
pub open spec fn unicode_escape(s: Seq<char>, i: int) -> Result<(char, int), int> {
    match code_unit(s, i) {
        Err(e) => Err(e),
        Ok((n, j)) => {
            if is_low_surrogate(n) {
                Ok((replacement(), j))
            } else if is_high_surrogate(n) {
                if 0 <= j < s.len() && s[j] == '\\' {
                    match code_unit(s, j + 1) {
                        Ok((m, k)) => if is_low_surrogate(m) {
                            Ok((surrogate_pair(n, m), k))
                        } else {
                            Ok((replacement(), j))
                        },
                        Err(_) => Ok((replacement(), j)),
                    }
                } else {
                    Ok((replacement(), j))
                }
            } else {
                Ok(((n as u32) as char, j))
            }
        },
    }
}

fn read_unicode_escape(chars: &Vec<char>, i: usize) -> (r: Result<(char, usize), usize>)
    requires
        i <= chars.len(),
    ensures
        step_view(r) == unicode_escape(chars@, i as int),
        r matches Ok((_, j)) ==> i < j <= chars.len(),
        r matches Err(e) ==> i <= e <= chars.len(),
{
    let (n, j) = match read_code_unit(chars, i) {
        Ok(found) => found,
        Err(e) => {
            return Err(e);
        },
    };
    if 0xDC00 <= n && n <= 0xDFFF {
        Ok(('\u{FFFD}', j))
    } else if 0xD800 <= n && n <= 0xDBFF {
        if j < chars.len() && chars[j] == '\\' {
            match read_code_unit(chars, j + 1) {
                Ok((m, k)) => {
                    if 0xDC00 <= m && m <= 0xDFFF {
                        let scalar: u32 = 0x10000 + (n - 0xD800) * 0x400 + (m - 0xDC00);
                        match char::from_u32(scalar) {
                            Some(c) => Ok((c, k)),
                            None => Ok(('\u{FFFD}', k)),
                        }
                    } else {
                        Ok(('\u{FFFD}', j))
                    }
                },
                Err(_) => Ok(('\u{FFFD}', j)),
            }
        } else {
            Ok(('\u{FFFD}', j))
        }
    } else {
        match char::from_u32(n) {
            Some(c) => Ok((c, j)),
            None => Ok(('\u{FFFD}', j)),
        }
    }
}

/// The character of the escape whose first character, the one behind the
/// backslash, stands at `i`, and the index after the escape.
pub open spec fn escape(s: Seq<char>, i: int) -> Result<(char, int), int> {
    if !(0 <= i < s.len()) {
        Err(i)
    } else if s[i] == '"' {
        Ok(('"', i + 1))
    } else if s[i] == '\\' {
        Ok(('\\', i + 1))
    } else if s[i] == '/' {
        Ok(('/', i + 1))
    } else if s[i] == 'b' {
        Ok(('\u{8}', i + 1))
    } else if s[i] == 'f' {
        Ok(('\u{C}', i + 1))
    } else if s[i] == 'n' {
        Ok(('\n', i + 1))
    } else if s[i] == 'r' {
        Ok(('\r', i + 1))
    } else if s[i] == 't' {
        Ok(('\t', i + 1))
    } else {
        unicode_escape(s, i)
    }
}

fn read_escape(chars: &Vec<char>, i: usize) -> (r: Result<(char, usize), usize>)
    requires
        i <= chars.len(),
    ensures
        step_view(r) == escape(chars@, i as int),
        r matches Ok((_, j)) ==> i < j <= chars.len(),
        r matches Err(e) ==> i <= e <= chars.len(),
{
    if i >= chars.len() {
        return Err(i);
    }
    let c = chars[i];
    if c == '"' {
        Ok(('"', i + 1))
    } else if c == '\\' {
        Ok(('\\', i + 1))
    } else if c == '/' {
        Ok(('/', i + 1))
    } else if c == 'b' {
        Ok(('\u{8}', i + 1))
    } else if c == 'f' {
        Ok(('\u{C}', i + 1))
    } else if c == 'n' {
        Ok(('\n', i + 1))
    } else if c == 'r' {
        Ok(('\r', i + 1))
    } else if c == 't' {
        Ok(('\t', i + 1))
    } else {
        read_unicode_escape(chars, i)
    }
}

/// The rest of a string from `i` on, added to `acc`, and the index after the
/// closing quote.
pub open spec fn string_body(s: Seq<char>, i: int, acc: Seq<char>) -> Result<(Seq<char>, int), int>
    decreases s.len() - i,
{
    if !(0 <= i < s.len()) {
        Err(i)
    } else if s[i] == '"' {
        Ok((acc, i + 1))
    } else if s[i] == '\\' {
        match escape(s, i + 1) {
            Ok((c, j)) => if i < j {
                string_body(s, j, acc.push(c))
            } else {
                Err(i)
            },
            Err(e) => Err(e),
        }
    } else {
        string_body(s, i + 1, acc.push(s[i]))
    }
}

/// The string whose opening quote stands at `i`, and the index after its
/// closing quote.
pub open spec fn string(s: Seq<char>, i: int) -> Result<(Seq<char>, int), int> {
    if 0 <= i < s.len() && s[i] == '"' {
        string_body(s, i + 1, Seq::empty())
    } else {
        Err(i)
    }
}

/// What a string that was read holds.
pub open spec fn string_step_view(r: Result<(String, usize), usize>) -> Result<
    (Seq<char>, int),
    int,
> {
    match r {
        Ok((v, j)) => Ok((v@, j as int)),
        Err(e) => Err(e as int),
    }
}

fn read_string(chars: &Vec<char>, i: usize) -> (r: Result<(String, usize), usize>)
    requires
        i <= chars.len(),
    ensures
        string_step_view(r) == string(chars@, i as int),
        r matches Ok((_, j)) ==> i < j <= chars.len(),
        r matches Err(e) ==> i <= e <= chars.len(),
{
    if !(i < chars.len() && chars[i] == '"') {
        return Err(i);
    }
    let mut out = String::new();
    let mut at: usize = i + 1;
    loop
        invariant
            i < at <= chars.len(),
            string(chars@, i as int) == string_body(chars@, at as int, out@),
        decreases chars.len() - at,
    {
        if at >= chars.len() {
            return Err(at);
        }
        let c = chars[at];
        if c == '"' {
            return Ok((out, at + 1));
        } else if c == '\\' {
            match read_escape(chars, at + 1) {
                Ok((c, j)) => {
                    out.push(c);
                    at = j;
                },
                Err(e) => {
                    return Err(e);
                },
            }
        } else {
            out.push(c);
            at += 1;
        }
    }
}


/// The string behind a colon: the value of a member whose name ends before
/// `i`.
pub open spec fn string_value(s: Seq<char>, i: int) -> Result<(Seq<char>, int), int> {
    match token(s, i, ':') {
        Ok(j) => string(s, skip_space(s, j)),
        Err(e) => Err(e),
    }
}

fn read_string_value(chars: &Vec<char>, i: usize) -> (r: Result<(String, usize), usize>)
    requires
        i <= chars.len(),
    ensures
        string_step_view(r) == string_value(chars@, i as int),
        r matches Ok((_, j)) ==> i < j <= chars.len(),
        r matches Err(e) ==> i <= e <= chars.len(),
{
    match expect(chars, i, ':') {
        Ok(j) => {
            let k = skip_ws(chars, j);
            read_string(chars, k)
        },
        Err(e) => Err(e),
    }
}

/// The key behind a colon: `null` and the empty string stand for no key.
pub open spec fn key_value(s: Seq<char>, i: int) -> Result<(Option<Seq<char>>, int), int> {
    match token(s, i, ':') {
        Ok(j) => {
            let k = skip_space(s, j);
            if occurs_at(s, "null"@, k) {
                Ok((None, k + 4))
            } else {
                match string(s, k) {
                    Ok((v, m)) => Ok((key_if_any(v), m)),
                    Err(e) => Err(e),
                }
            }
        },
        Err(e) => Err(e),
    }
}

/// What a key that was read holds.
pub open spec fn key_step_view(r: Result<(Option<String>, usize), usize>) -> Result<
    (Option<Seq<char>>, int),
    int,
> {
    match r {
        Ok((v, j)) => Ok((crate::data::opt_view(v), j as int)),
        Err(e) => Err(e as int),
    }
}

fn read_key_value(chars: &Vec<char>, i: usize) -> (r: Result<(Option<String>, usize), usize>)
    requires
        i <= chars.len(),
    ensures
        key_step_view(r) == key_value(chars@, i as int),
        r matches Ok((_, j)) ==> i < j <= chars.len(),
        r matches Err(e) ==> i <= e <= chars.len(),
{
    match expect(chars, i, ':') {
        Ok(j) => {
            let k = skip_ws(chars, j);
            proof {
                reveal_strlit("null");
            }
            if stands_at(chars, k, "null") {
                Ok((None, k + 4))
            } else {
                match read_string(chars, k) {
                    Ok((v, m)) => Ok((key_from(v), m)),
                    Err(e) => Err(e),
                }
            }
        },
        Err(e) => Err(e),
    }
}

/// The record without any field.
pub open spec fn no_fields() -> PartialNavView {
    PartialNavView { id: None, name: None, email: None, key: None }
}

/// One member of a record, whose name begins at `i`: the fields read so far
/// with this one set, and the index after its value. A driver may have a
/// key, a navigator may not.
pub open spec fn field(s: Seq<char>, i: int, with_key: bool, acc: PartialNavView) -> Result<
    (PartialNavView, int),
    int,
> {
    if occurs_at(s, "\"alias\""@, i) {
        match string_value(s, i + 7) {
            Ok((v, j)) => Ok((PartialNavView { id: Some(v), ..acc }, j)),
            Err(e) => Err(e),
        }
    } else if occurs_at(s, "\"name\""@, i) {
        match string_value(s, i + 6) {
            Ok((v, j)) => Ok((PartialNavView { name: Some(v), ..acc }, j)),
            Err(e) => Err(e),
        }
    } else if occurs_at(s, "\"email\""@, i) {
        match string_value(s, i + 7) {
            Ok((v, j)) => Ok((PartialNavView { email: Some(v), ..acc }, j)),
            Err(e) => Err(e),
        }
    } else if with_key && occurs_at(s, "\"key\""@, i) {
        match key_value(s, i + 5) {
            Ok((v, j)) => Ok((PartialNavView { key: v, ..acc }, j)),
            Err(e) => Err(e),
        }
    } else {
        Err(i)
    }
}

/// What the fields read so far hold.
pub open spec fn fields_step_view(r: Result<(PartialNav, usize), usize>) -> Result<
    (PartialNavView, int),
    int,
> {
    match r {
        Ok((v, j)) => Ok((v@, j as int)),
        Err(e) => Err(e as int),
    }
}

fn read_field(chars: &Vec<char>, i: usize, with_key: bool, acc: PartialNav) -> (r: Result<
    (PartialNav, usize),
    usize,
>)
    requires
        i <= chars.len(),
    ensures
        fields_step_view(r) == field(chars@, i as int, with_key, acc@),
        r matches Ok((_, j)) ==> i < j <= chars.len(),
        r matches Err(e) ==> i <= e <= chars.len(),
{
    proof {
        reveal_strlit("\"alias\"");
        reveal_strlit("\"name\"");
        reveal_strlit("\"email\"");
        reveal_strlit("\"key\"");
    }
    if stands_at(chars, i, "\"alias\"") {
        match read_string_value(chars, i + 7) {
            Ok((v, j)) => Ok((acc.with_id(Some(v)), j)),
            Err(e) => Err(e),
        }
    } else if stands_at(chars, i, "\"name\"") {
        match read_string_value(chars, i + 6) {
            Ok((v, j)) => Ok((acc.with_name(Some(v)), j)),
            Err(e) => Err(e),
        }
    } else if stands_at(chars, i, "\"email\"") {
        match read_string_value(chars, i + 7) {
            Ok((v, j)) => Ok((acc.with_email(Some(v)), j)),
            Err(e) => Err(e),
        }
    } else if with_key && stands_at(chars, i, "\"key\"") {
        match read_key_value(chars, i + 5) {
            Ok((v, j)) => Ok((acc.with_key(v), j)),
            Err(e) => Err(e),
        }
    } else {
        Err(i)
    }
}

/// The members of a record from `i` on, where the name of one begins: the
/// fields with each member set in turn, a later one over an earlier one of
/// the same name, and the index after the last value.
pub open spec fn fields(s: Seq<char>, i: int, with_key: bool, acc: PartialNavView) -> Result<
    (PartialNavView, int),
    int,
>
    decreases s.len() - i,
{
    match field(s, i, with_key, acc) {
        Err(e) => Err(e),
        Ok((next, j)) => {
            let k = skip_space(s, j);
            if 0 <= k < s.len() && s[k] == ',' {
                if i < skip_space(s, k + 1) <= s.len() {
                    fields(s, skip_space(s, k + 1), with_key, next)
                } else {
                    Err(i)
                }
            } else {
                Ok((next, j))
            }
        },
    }
}

fn read_fields(chars: &Vec<char>, i: usize, with_key: bool) -> (r: Result<
    (PartialNav, usize),
    usize,
>)
    requires
        i <= chars.len(),
    ensures
        fields_step_view(r) == fields(chars@, i as int, with_key, no_fields()),
        r matches Ok((_, j)) ==> i < j <= chars.len(),
        r matches Err(e) ==> i <= e <= chars.len(),
{
    let mut acc = PartialNav::default();
    let mut at: usize = i;
    loop
        invariant
            i <= at <= chars.len(),
            fields(chars@, i as int, with_key, no_fields()) == fields(
                chars@,
                at as int,
                with_key,
                acc@,
            ),
        decreases chars.len() - at,
    {
        let (next, j) = match read_field(chars, at, with_key, acc) {
            Ok(found) => found,
            Err(e) => {
                return Err(e);
            },
        };
        let k = skip_ws(chars, j);
        if k < chars.len() && chars[k] == ',' {
            acc = next;
            at = skip_ws(chars, k + 1);
        } else {
            return Ok((next, j));
        }
    }
}

/// The record whose opening brace stands at `i`, and the index after its
/// closing brace. Alias, name and address must all be there.
pub open spec fn record(s: Seq<char>, i: int, with_key: bool) -> Result<(DriverView, int), int> {
    if !(0 <= i < s.len() && s[i] == '{') {
        Err(i)
    } else {
        let j = skip_space(s, i + 1);
        match fields(s, j, with_key, no_fields()) {
            Err(e) => Err(e),
            Ok((found, k)) => {
                if found.id is Some && found.name is Some && found.email is Some {
                    match token(s, k, '}') {
                        Ok(m) => Ok(
                            (
                                DriverView {
                                    navigator: NavigatorView {
                                        alias: found.id->0,
                                        name: found.name->0,
                                        email: found.email->0,
                                    },
                                    key: found.key,
                                },
                                m,
                            ),
                        ),
                        Err(e) => Err(e),
                    }
                } else {
                    Err(j)
                }
            },
        }
    }
}

/// What a record that was read holds.
pub open spec fn record_step_view(r: Result<(Driver, usize), usize>) -> Result<
    (DriverView, int),
    int,
> {
    match r {
        Ok((v, j)) => Ok((v@, j as int)),
        Err(e) => Err(e as int),
    }
}

fn read_record(chars: &Vec<char>, i: usize, with_key: bool) -> (r: Result<(Driver, usize), usize>)
    requires
        i <= chars.len(),
    ensures
        record_step_view(r) == record(chars@, i as int, with_key),
        r matches Ok((_, j)) ==> i < j <= chars.len(),
        r matches Err(e) ==> i <= e <= chars.len(),
{
    if !(i < chars.len() && chars[i] == '{') {
        return Err(i);
    }
    let j = skip_ws(chars, i + 1);
    let (found, k) = match read_fields(chars, j, with_key) {
        Ok(found) => found,
        Err(e) => {
            return Err(e);
        },
    };
    let PartialNav { id, name, email, key } = found;
    match id {
        Some(id) => match name {
            Some(name) => match email {
                Some(email) => match expect(chars, k, '}') {
                    Ok(m) => Ok(
                        (Driver { navigator: Navigator { alias: Id(id), name, email }, key }, m),
                    ),
                    Err(e) => Err(e),
                },
                None => Err(j),
            },
            None => Err(j),
        },
        None => Err(j),
    }
}

/// The records of an array from `i` on, where the opening brace of one must
/// stand, added to `acc`, and the index after the last of them.
pub open spec fn records(s: Seq<char>, i: int, with_key: bool, acc: Seq<DriverView>) -> Result<
    (Seq<DriverView>, int),
    int,
>
    decreases s.len() - i,
{
    match record(s, i, with_key) {
        Err(e) => Err(e),
        Ok((d, j)) => {
            let k = skip_space(s, j);
            if 0 <= k < s.len() && s[k] == ',' {
                if i < skip_space(s, k + 1) <= s.len() {
                    records(s, skip_space(s, k + 1), with_key, acc.push(d))
                } else {
                    Err(i)
                }
            } else {
                Ok((acc.push(d), j))
            }
        },
    }
}

/// The array whose opening bracket is the first token from `i` on, and the
/// index after its closing bracket.
pub open spec fn array(s: Seq<char>, i: int, with_key: bool) -> Result<(Seq<DriverView>, int), int> {
    match token(s, i, '[') {
        Err(e) => Err(e),
        Ok(j) => {
            let k = skip_space(s, j);
            if 0 <= k < s.len() && s[k] == '{' {
                match records(s, k, with_key, Seq::empty()) {
                    Ok((v, m)) => match token(s, m, ']') {
                        Ok(n) => Ok((v, n)),
                        Err(e) => Err(e),
                    },
                    Err(e) => Err(e),
                }
            } else {
                match token(s, j, ']') {
                    Ok(n) => Ok((Seq::empty(), n)),
                    Err(e) => Err(e),
                }
            }
        },
    }
}

/// What an array that was read holds.
pub open spec fn array_step_view(r: Result<(Vec<Driver>, usize), usize>) -> Result<
    (Seq<DriverView>, int),
    int,
> {
    match r {
        Ok((v, j)) => Ok((crate::config::drivers_view(v@), j as int)),
        Err(e) => Err(e as int),
    }
}

fn read_records(chars: &Vec<char>, i: usize, with_key: bool) -> (r: Result<
    (Vec<Driver>, usize),
    usize,
>)
    requires
        i <= chars.len(),
    ensures
        array_step_view(r) == records(chars@, i as int, with_key, Seq::empty()),
        r matches Ok((_, j)) ==> i < j <= chars.len(),
        r matches Err(e) ==> i <= e <= chars.len(),
{
    let mut out: Vec<Driver> = Vec::new();
    let mut at: usize = i;
    proof {
        assert(crate::config::drivers_view(out@) =~= Seq::empty());
    }
    loop
        invariant
            i <= at <= chars.len(),
            records(chars@, i as int, with_key, Seq::empty()) == records(
                chars@,
                at as int,
                with_key,
                crate::config::drivers_view(out@),
            ),
        decreases chars.len() - at,
    {
        let (d, j) = match read_record(chars, at, with_key) {
            Ok(found) => found,
            Err(e) => {
                return Err(e);
            },
        };
        let ghost before = out@;
        out.push(d);
        proof {
            assert(crate::config::drivers_view(out@) =~= crate::config::drivers_view(before).push(
                d@,
            ));
        }
        let k = skip_ws(chars, j);
        if k < chars.len() && chars[k] == ',' {
            at = skip_ws(chars, k + 1);
        } else {
            return Ok((out, j));
        }
    }
}

fn read_array(chars: &Vec<char>, i: usize, with_key: bool) -> (r: Result<
    (Vec<Driver>, usize),
    usize,
>)
    requires
        i <= chars.len(),
    ensures
        array_step_view(r) == array(chars@, i as int, with_key),
        r matches Ok((_, j)) ==> i < j <= chars.len(),
        r matches Err(e) ==> i <= e <= chars.len(),
{
    let j = match expect(chars, i, '[') {
        Ok(j) => j,
        Err(e) => {
            return Err(e);
        },
    };
    let k = skip_ws(chars, j);
    if k < chars.len() && chars[k] == '{' {
        match read_records(chars, k, with_key) {
            Ok((v, m)) => match expect(chars, m, ']') {
                Ok(n) => Ok((v, n)),
                Err(e) => Err(e),
            },
            Err(e) => Err(e),
        }
    } else {
        match expect(chars, j, ']') {
            Ok(n) => {
                let v: Vec<Driver> = Vec::new();
                proof {
                    assert(crate::config::drivers_view(v@) =~= Seq::empty());
                }
                Ok((v, n))
            },
            Err(e) => Err(e),
        }
    }
}

/// The navigators that records stand for.
pub open spec fn navigators_of(records: Seq<DriverView>) -> Seq<NavigatorView> {
    records.map_values(|d: DriverView| d.navigator)
}

fn into_navigators(records: Vec<Driver>) -> (r: Vec<Navigator>)
    ensures
        crate::config::navigators_view(r@) == navigators_of(crate::config::drivers_view(records@)),
{
    let mut out: Vec<Navigator> = Vec::new();
    let mut i: usize = 0;
    while i < records.len()
        invariant
            i <= records.len(),
            crate::config::navigators_view(out@) =~= navigators_of(
                crate::config::drivers_view(records@.take(i as int)),
            ),
        decreases records.len() - i,
    {
        let ghost before = out@;
        out.push(records[i].navigator.clone());
        proof {
            assert(crate::config::drivers_view(records@.take(i + 1)) =~= crate::config::drivers_view(
                records@.take(i as int),
            ).push(records@[i as int]@));
            assert(crate::config::navigators_view(out@) =~= crate::config::navigators_view(
                before,
            ).push(records@[i as int]@.navigator));
        }
        i += 1;
    }
    proof {
        assert(records@.take(i as int) =~= records@);
    }
    out
}

/// One member of the registry, whose name begins at `i`: `acc` with the
/// navigators or the drivers replaced by those of the array, and the index
/// after the array.
pub open spec fn member(s: Seq<char>, i: int, acc: ConfigView) -> Result<(ConfigView, int), int> {
    if occurs_at(s, "\"navigators\""@, i) {
        match token(s, i + 12, ':') {
            Ok(j) => match array(s, j, false) {
                Ok((v, k)) => Ok(
                    (ConfigView { navigators: navigators_of(v), drivers: acc.drivers }, k),
                ),
                Err(e) => Err(e),
            },
            Err(e) => Err(e),
        }
    } else if occurs_at(s, "\"drivers\""@, i) {
        match token(s, i + 9, ':') {
            Ok(j) => match array(s, j, true) {
                Ok((v, k)) => Ok((ConfigView { navigators: acc.navigators, drivers: v }, k)),
                Err(e) => Err(e),
            },
            Err(e) => Err(e),
        }
    } else {
        Err(i)
    }
}

/// The members of the registry from `i` on, where the name of one begins:
/// `acc` with each member set in turn, and the index after the last array.
pub open spec fn members(s: Seq<char>, i: int, acc: ConfigView) -> Result<(ConfigView, int), int>
    decreases s.len() - i,
{
    match member(s, i, acc) {
        Err(e) => Err(e),
        Ok((next, j)) => {
            let k = skip_space(s, j);
            if 0 <= k < s.len() && s[k] == ',' {
                if i < skip_space(s, k + 1) <= s.len() {
                    members(s, skip_space(s, k + 1), next)
                } else {
                    Err(i)
                }
            } else {
                Ok((next, j))
            }
        },
    }
}

/// The registry that a text in the older form makes, or the index at which
/// the text is not of that form. The text is one object with at least one
/// member, each named `navigators` or `drivers`, and nothing behind it.
pub open spec fn parse_json(s: Seq<char>) -> Result<ConfigView, int> {
    match token(s, 0, '{') {
        Err(e) => Err(e),
        Ok(j) => match members(s, skip_space(s, j), ConfigView::empty()) {
            Err(e) => Err(e),
            Ok((c, k)) => match token(s, k, '}') {
                Err(e) => Err(e),
                Ok(m) => if m == s.len() {
                    Ok(c)
                } else {
                    Err(m)
                },
            },
        },
    }
}

/// What the members read so far hold.
pub open spec fn config_step_view(r: Result<(Config, usize), usize>) -> Result<
    (ConfigView, int),
    int,
> {
    match r {
        Ok((v, j)) => Ok((v@, j as int)),
        Err(e) => Err(e as int),
    }
}

fn read_member(chars: &Vec<char>, i: usize, acc: Config) -> (r: Result<(Config, usize), usize>)
    requires
        i <= chars.len(),
    ensures
        config_step_view(r) == member(chars@, i as int, acc@),
        r matches Ok((_, j)) ==> i < j <= chars.len(),
        r matches Err(e) ==> i <= e <= chars.len(),
{
    proof {
        reveal_strlit("\"navigators\"");
        reveal_strlit("\"drivers\"");
    }
    if stands_at(chars, i, "\"navigators\"") {
        match expect(chars, i + 12, ':') {
            Ok(j) => match read_array(chars, j, false) {
                Ok((v, k)) => Ok((Config { navigators: into_navigators(v), drivers: acc.drivers }, k)),
                Err(e) => Err(e),
            },
            Err(e) => Err(e),
        }
    } else if stands_at(chars, i, "\"drivers\"") {
        match expect(chars, i + 9, ':') {
            Ok(j) => match read_array(chars, j, true) {
                Ok((v, k)) => Ok((Config { navigators: acc.navigators, drivers: v }, k)),
                Err(e) => Err(e),
            },
            Err(e) => Err(e),
        }
    } else {
        Err(i)
    }
}

fn read_members(chars: &Vec<char>, i: usize) -> (r: Result<(Config, usize), usize>)
    requires
        i <= chars.len(),
    ensures
        config_step_view(r) == members(chars@, i as int, ConfigView::empty()),
        r matches Ok((_, j)) ==> i < j <= chars.len(),
        r matches Err(e) ==> i <= e <= chars.len(),
{
    let mut acc = Config::default();
    let mut at: usize = i;
    loop
        invariant
            i <= at <= chars.len(),
            members(chars@, i as int, ConfigView::empty()) == members(chars@, at as int, acc@),
        decreases chars.len() - at,
    {
        let (next, j) = match read_member(chars, at, acc) {
            Ok(found) => found,
            Err(e) => {
                return Err(e);
            },
        };
        let k = skip_ws(chars, j);
        if k < chars.len() && chars[k] == ',' {
            acc = next;
            at = skip_ws(chars, k + 1);
        } else {
            return Ok((next, j));
        }
    }
}

/// Whether no driver of `drivers` holds an empty key.
pub open spec fn keys_in_order(drivers: Seq<DriverView>) -> bool {
    forall|i: int| 0 <= i < drivers.len() ==> (#[trigger] drivers[i]).wf()
}

/// Whether a key that was read is none or not empty.
pub open spec fn key_in_order(key: Option<Seq<char>>) -> bool {
    key matches Some(k) ==> k.len() > 0
}

proof fn lemma_fields_key(s: Seq<char>, i: int, with_key: bool, acc: PartialNavView)
    requires
        key_in_order(acc.key),
    ensures
        fields(s, i, with_key, acc) matches Ok((found, _)) ==> key_in_order(found.key),
    decreases s.len() - i,
{
    match field(s, i, with_key, acc) {
        Err(_) => {},
        Ok((next, j)) => {
            let k = skip_space(s, j);
            if 0 <= k < s.len() && s[k] == ',' && i < skip_space(s, k + 1) <= s.len() {
                lemma_fields_key(s, skip_space(s, k + 1), with_key, next);
            }
        },
    }
}

proof fn lemma_records_keys(s: Seq<char>, i: int, with_key: bool, acc: Seq<DriverView>)
    requires
        keys_in_order(acc),
    ensures
        records(s, i, with_key, acc) matches Ok((found, _)) ==> keys_in_order(found),
    decreases s.len() - i,
{
    match record(s, i, with_key) {
        Err(_) => {},
        Ok((d, j)) => {
            lemma_fields_key(s, skip_space(s, i + 1), with_key, no_fields());
            assert(d.wf());
            let next = acc.push(d);
            assert forall|n: int| 0 <= n < next.len() implies (#[trigger] next[n]).wf() by {
                if n < acc.len() {
                    assert(next[n] == acc[n]);
                }
            }
            let k = skip_space(s, j);
            if 0 <= k < s.len() && s[k] == ',' && i < skip_space(s, k + 1) <= s.len() {
                lemma_records_keys(s, skip_space(s, k + 1), with_key, next);
            }
        },
    }
}

proof fn lemma_members_keys(s: Seq<char>, i: int, acc: ConfigView)
    requires
        keys_in_order(acc.drivers),
    ensures
        members(s, i, acc) matches Ok((found, _)) ==> keys_in_order(found.drivers),
    decreases s.len() - i,
{
    match member(s, i, acc) {
        Err(_) => {},
        Ok((next, j)) => {
            if occurs_at(s, "\"navigators\""@, i) {
            } else {
                match token(s, i + 9, ':') {
                    Ok(at) => match token(s, at, '[') {
                        Ok(open) => {
                            lemma_records_keys(s, skip_space(s, open), true, Seq::empty());
                        },
                        Err(_) => {},
                    },
                    Err(_) => {},
                }
            }
            assert(keys_in_order(next.drivers));
            let k = skip_space(s, j);
            if 0 <= k < s.len() && s[k] == ',' && i < skip_space(s, k + 1) <= s.len() {
                lemma_members_keys(s, skip_space(s, k + 1), next);
            }
        },
    }
}

/// No driver that is read from the older form holds an empty key.
pub proof fn lemma_json_keys(s: Seq<char>)
    ensures
        parse_json(s) matches Ok(c) ==> c.keys_in_order(),
{
    match token(s, 0, '{') {
        Ok(j) => {
            lemma_members_keys(s, skip_space(s, j), ConfigView::empty());
        },
        Err(_) => {},
    }
}

/// What the outcome of reading the older form holds.
pub open spec fn json_outcome_view(r: Result<Config, JsonError>) -> Result<ConfigView, int> {
    match r {
        Ok(c) => Ok(c@),
        Err(e) => Err(e.position as int),
    }
}

/// Reads a registry from its older, JSON-encoded form: see [`parse_json`].
///
/// No driver read this way has an empty key.
pub fn deserialize_config_json(content: &str) -> (r: Result<Config, JsonError>)
    ensures
        json_outcome_view(r) == parse_json(content@),
        r matches Ok(c) ==> c@.keys_in_order(),
{
    proof {
        lemma_json_keys(content@);
    }
    let chars = crate::text::chars_of(content);
    let j = match expect(&chars, 0, '{') {
        Ok(j) => j,
        Err(e) => {
            return Err(JsonError { position: e });
        },
    };
    let start = skip_ws(&chars, j);
    let (config, k) = match read_members(&chars, start) {
        Ok(found) => found,
        Err(e) => {
            return Err(JsonError { position: e });
        },
    };
    match expect(&chars, k, '}') {
        Ok(m) => {
            if m == chars.len() {
                Ok(config)
            } else {
                Err(JsonError { position: m })
            }
        },
        Err(e) => Err(JsonError { position: e }),
    }
}

} // verus!
