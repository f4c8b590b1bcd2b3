//! Reading the `Co-Authored-By` trailer of a record.

use crate::text::{find, is_whitespace};
use co_authors::{CoAuthor, CoAuthorError};
use vstd::prelude::*;

verus! {

/// Why a line is no trailer.
#[derive(Clone, Copy, Debug, PartialEq, Eq, Structural)]
pub enum TrailerFault {
    /// The line does not begin with the key `Co-Authored-By:`.
    MissingTrailerKey,
    /// There is nothing but white space where the name should be.
    MissingName,
    /// No `<` follows the key, or no address stands in `<` and `>`.
    MissingMail,
}

/// What reading a trailer gives: the name and, where one stands in angle
/// brackets behind it, the address; or the reason why the line is no trailer.
pub type Trailer = Result<(Seq<char>, Option<Seq<char>>), TrailerFault>;

/// What `co_authors::CoAuthor::try_from` makes of a line.
pub uninterp spec fn co_author_of(line: Seq<char>) -> Result<
    (Seq<char>, Option<Seq<char>>),
    TrailerFault,
>;

/// The key of a trailer, with the space that this crate writes behind it.
pub open spec fn trailer_key() -> Seq<char> {
    "Co-Authored-By: "@
}

/// The key of a trailer in lower case.
pub open spec fn bare_key() -> Seq<char> {
    "co-authored-by:"@
}

/// `c`, in lower case if it is one of the letters `A` to `Z`.
pub open spec fn ascii_lower(c: char) -> char {
    if 'A' <= c <= 'Z' {
        ((c as u32) + 32) as char
    } else {
        c
    }
}

/// Whether `s` begins with the trailer key, in whatever case.
pub open spec fn begins_with_key(s: Seq<char>) -> bool {
    s.len() >= bare_key().len() && forall|i: int|
        0 <= i < bare_key().len() ==> ascii_lower(#[trigger] s[i]) == bare_key()[i]
}

/// A name that a trailer gives back as it was written: it is not empty, has
/// no `<` in it, neither begins nor ends with white space, and does not
/// itself begin with the trailer key.
pub open spec fn is_plain_name(name: Seq<char>) -> bool {
    &&& name.len() > 0
    &&& !name.contains('<')
    &&& !is_whitespace(name.first())
    &&& !is_whitespace(name.last())
    &&& !begins_with_key(name)
}

/// An address that a trailer gives back as it was written: it is not empty
/// and has no `>`, space or tab in it.
pub open spec fn is_plain_mail(mail: Seq<char>) -> bool {
    &&& mail.len() > 0
    &&& !mail.contains('>')
    &&& !mail.contains(' ')
    &&& !mail.contains('\t')
}

/// The trailer that this crate writes for a name and an address.
pub open spec fn trailer_line(name: Seq<char>, mail: Seq<char>) -> Seq<char> {
    trailer_key() + name + " <"@ + mail + ">"@
}

/// The name and the address of `line`, where `line` is the trailer that
/// this crate writes for a plain name and a plain address.
pub open spec fn plain_parts(line: Seq<char>) -> Option<(Seq<char>, Seq<char>)> {
    if !trailer_key().is_prefix_of(line) {
        None
    } else {
        let rest = line.skip(trailer_key().len() as int);
        match find(rest, seq!['<']) {
            Some(i) => {
                let name = rest.take(i - 1);
                let mail = rest.subrange(i + 1, rest.len() - 1);
                if 1 <= i && i + 2 <= rest.len() && rest[i - 1] == ' ' && rest.last() == '>'
                    && is_plain_name(name) && is_plain_mail(mail) {
                    Some((name, mail))
                } else {
                    None
                }
            },
            None => None,
        }
    }
}

/// What reading `line` as a trailer gives. For the trailer that this crate
/// writes for a plain name and a plain address, it is that name and that
/// address. For every other line it is whatever `co_authors` makes of it.
pub open spec fn trailer_of(line: Seq<char>) -> Trailer {
    match plain_parts(line) {
        Some((name, mail)) => Ok((name, Some(mail))),
        None => co_author_of(line),
    }
}

/// What a trailer that was read holds.
pub open spec fn trailer_view(r: Result<(String, Option<String>), TrailerFault>) -> Trailer {
    match r {
        Ok((name, mail)) => Ok((name@, crate::data::opt_view(mail))),
        Err(e) => Err(e),
    }
}

/// Reads `line` with `co_authors::CoAuthor::try_from`.
///
/// The contract rests on that crate: after the key, which may be repeated
/// and is matched in any case, it takes what stands before the first `<`,
/// without the white space around it, as the name, and what stands between
/// that `<` and a `>` as the address, if that is not empty and holds no
/// space or tab. So the trailer written for a plain name and a plain address
/// gives both back. Of any other line the contract only says that the result
/// is a function of the line.
#[verifier::external_body]
pub(crate) fn read_trailer(line: &str) -> (r: Result<(String, Option<String>), TrailerFault>)
    ensures
        trailer_view(r) == match plain_parts(line@) {
            Some((name, mail)) => Ok::<(Seq<char>, Option<Seq<char>>), TrailerFault>(
                (name, Some(mail)),
            ),
            None => co_author_of(line@),
        },
{
    match CoAuthor::try_from(line) {
        Ok(found) => Ok((String::from(found.name), found.mail.map(String::from))),
        Err(CoAuthorError::MissingTrailerKey) => Err(TrailerFault::MissingTrailerKey),
        Err(CoAuthorError::MissingName) => Err(TrailerFault::MissingName),
        Err(CoAuthorError::MissingMail) => Err(TrailerFault::MissingMail),
    }
}

} // verus!
