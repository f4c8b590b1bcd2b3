//! Character-level helpers shared by the parsers and printers of this crate.
//!
//! Text is handled as a vector of characters; a piece of it is named by the
//! two indices that bound it.

use vstd::prelude::*;

verus! {

/// `String::push` appends one character at the end and leaves the rest alone.
pub assume_specification[ String::push ](s: &mut String, c: char)
    ensures
        final(s)@ == old(s)@.push(c),
;

/// The characters of `s`, in order.
pub fn chars_of(s: &str) -> (out: Vec<char>)
    ensures
        out@ == s@,
{
    let mut out: Vec<char> = Vec::new();
    for c in it: s.chars()
        invariant
            out@ == it.seq().take(it.index() as int),
            it.seq() == s@,
    {
        out.push(c);
    }
    out
}

/// The string made of the characters `chars[from..to]`.
pub fn string_of(chars: &Vec<char>, from: usize, to: usize) -> (out: String)
    requires
        from <= to <= chars.len(),
    ensures
        out@ == chars@.subrange(from as int, to as int),
{
    let mut out = String::new();
    let mut i: usize = from;
    while i < to
        invariant
            from <= i <= to <= chars.len(),
            out@ == chars@.subrange(from as int, i as int),
        decreases to - i,
    {
        out.push(chars[i]);
        i += 1;
    }
    out
}

/// Whether `pat` stands in `s` at index `i`.
pub open spec fn occurs_at(s: Seq<char>, pat: Seq<char>, i: int) -> bool {
    0 <= i && i + pat.len() <= s.len() && s.subrange(i, i + pat.len()) == pat
}

/// The least index from `i` on at which `pat` stands in `s`, if there is one.
pub open spec fn find_from(s: Seq<char>, pat: Seq<char>, i: int) -> Option<int>
    decreases s.len() - i + 1,
{
    if i < 0 || i + pat.len() > s.len() {
        None
    } else if occurs_at(s, pat, i) {
        Some(i)
    } else {
        find_from(s, pat, i + 1)
    }
}

/// The least index at which `pat` stands in `s`, if there is one.
pub open spec fn find(s: Seq<char>, pat: Seq<char>) -> Option<int> {
    find_from(s, pat, 0)
}

/// The two parts of `s` around the first occurrence of `pat`.
pub open spec fn split_once(s: Seq<char>, pat: Seq<char>) -> Option<(Seq<char>, Seq<char>)> {
    match find(s, pat) {
        Some(i) => Some((s.take(i), s.skip(i + pat.len()))),
        None => None,
    }
}

/// What `find_from` returns is the first occurrence, and `None` means that
/// there is none.
pub proof fn lemma_find_from(s: Seq<char>, pat: Seq<char>, i: int)
    requires
        0 <= i,
    ensures
        match find_from(s, pat, i) {
            Some(j) => i <= j && occurs_at(s, pat, j) && forall|k: int|
                i <= k < j ==> !occurs_at(s, pat, k),
            None => forall|k: int| i <= k ==> !occurs_at(s, pat, k),
        },
    decreases s.len() - i + 1,
{
    if i + pat.len() > s.len() {
    } else if occurs_at(s, pat, i) {
    } else {
        lemma_find_from(s, pat, i + 1);
    }
}

/// An occurrence with none before it is the one that `find` returns.
pub proof fn lemma_find_is(s: Seq<char>, pat: Seq<char>, j: int)
    requires
        occurs_at(s, pat, j),
        forall|k: int| 0 <= k < j ==> !occurs_at(s, pat, k),
    ensures
        find(s, pat) == Some(j),
{
    lemma_find_from(s, pat, 0);
}

/// Whether the characters `chars[at..]` begin with `pat`, and end before `to`.
pub fn matches_at(chars: &Vec<char>, at: usize, to: usize, pat: &str) -> (r: bool)
    requires
        at <= to <= chars.len(),
    ensures
        r == occurs_at(chars@.subrange(0, to as int), pat@, at as int),
{
    let n = pat.unicode_len();
    if n > to - at {
        return false;
    }
    let mut k: usize = 0;
    while k < n
        invariant
            at <= to <= chars.len(),
            n == pat@.len(),
            n <= to - at,
            k <= n,
            chars@.subrange(at as int, at + k) == pat@.take(k as int),
        decreases n - k,
    {
        if chars[at + k] != pat.get_char(k) {
            proof {
                let s = chars@.subrange(0, to as int);
                assert(s.subrange(at as int, at + n)[k as int] == chars@[at + k]);
            }
            return false;
        }
        proof {
            assert(chars@.subrange(at as int, at + k + 1) =~= chars@.subrange(
                at as int,
                at + k,
            ).push(chars@[at + k]));
            assert(pat@.take(k + 1) =~= pat@.take(k as int).push(pat@[k as int]));
        }
        k += 1;
    }
    proof {
        assert(pat@.take(n as int) =~= pat@);
        assert(chars@.subrange(0, to as int).subrange(at as int, at + n) =~= chars@.subrange(
            at as int,
            at + n,
        ));
    }
    true
}

/// Whether `pat` stands in `chars` at index `at`.
pub fn stands_at(chars: &Vec<char>, at: usize, pat: &str) -> (r: bool)
    requires
        at <= chars.len(),
    ensures
        r == occurs_at(chars@, pat@, at as int),
{
    proof {
        assert(chars@.subrange(0, chars@.len() as int) =~= chars@);
    }
    matches_at(chars, at, chars.len(), pat)
}

/// `char::from_u32` gives the character with the scalar value `i`, and
/// nothing where `i` is a surrogate or lies above `0x10FFFF`.
pub assume_specification[ char::from_u32 ](i: u32) -> (r: Option<char>)
    ensures
        (i < 0xD800 || 0xE000 <= i <= 0x10FFFF) ==> r == Some(i as char),
        !(i < 0xD800 || 0xE000 <= i <= 0x10FFFF) ==> r is None,
;

/// Whether the characters `chars[from..to]` are those of `pat`.
pub fn span_is(chars: &Vec<char>, from: usize, to: usize, pat: &str) -> (r: bool)
    requires
        from <= to <= chars.len(),
    ensures
        r == (chars@.subrange(from as int, to as int) == pat@),
{
    let n = pat.unicode_len();
    if n != to - from {
        return false;
    }
    let r = matches_at(chars, from, to, pat);
    proof {
        assert(chars@.subrange(0, to as int).subrange(from as int, from + n) =~= chars@.subrange(
            from as int,
            to as int,
        ));
    }
    r
}

/// Whether the characters `chars[from..to]` begin with `pat`.
pub fn span_starts_with(chars: &Vec<char>, from: usize, to: usize, pat: &str) -> (r: bool)
    requires
        from <= to <= chars.len(),
    ensures
        r == pat@.is_prefix_of(chars@.subrange(from as int, to as int)),
{
    let r = matches_at(chars, from, to, pat);
    proof {
        let s = chars@.subrange(from as int, to as int);
        let n = pat@.len() as int;
        if from + n <= to {
            assert(chars@.subrange(0, to as int).subrange(from as int, from + n) =~= s.subrange(
                0,
                n,
            ));
        }
    }
    r
}

/// Where `pat` first stands in `chars[from..to]`, counted from `from`.
pub fn find_in(chars: &Vec<char>, from: usize, to: usize, pat: &str) -> (r: Option<usize>)
    requires
        from <= to <= chars.len(),
    ensures
        match r {
            Some(i) => find(chars@.subrange(from as int, to as int), pat@) == Some(i as int)
                && from + i + pat@.len() <= to,
            None => find(chars@.subrange(from as int, to as int), pat@) is None,
        },
{
    let ghost s = chars@.subrange(from as int, to as int);
    let n = pat.unicode_len();
    if n > to - from {
        return None;
    }
    let last = to - n;
    let mut i: usize = from;
    loop
        invariant
            from <= i <= last,
            last + n == to,
            to <= chars.len(),
            n == pat@.len(),
            s == chars@.subrange(from as int, to as int),
            find(s, pat@) == find_from(s, pat@, i - from),
        decreases last - i,
    {
        let hit = matches_at(chars, i, to, pat);
        proof {
            assert(chars@.subrange(0, to as int).subrange(i as int, i + n) =~= s.subrange(
                i - from,
                i - from + n,
            ));
        }
        if hit {
            return Some(i - from);
        }
        if i == last {
            assert(find_from(s, pat@, i - from + 1) is None);
            return None;
        }
        i += 1;
    }
}

/// Whether `c` is white space: a character with the Unicode property
/// `White_Space`.
pub open spec fn is_whitespace(c: char) -> bool {
    let n = c as u32;
    (0x09 <= n <= 0x0D) || n == 0x20 || n == 0x85 || n == 0xA0 || n == 0x1680 || (0x2000 <= n
        <= 0x200A) || n == 0x2028 || n == 0x2029 || n == 0x202F || n == 0x205F || n == 0x3000
}

/// Whether `c` is white space.
pub fn is_whitespace_char(c: char) -> (r: bool)
    ensures
        r == is_whitespace(c),
{
    let n: u32 = c as u32;
    (0x09 <= n && n <= 0x0D) || n == 0x20 || n == 0x85 || n == 0xA0 || n == 0x1680 || (0x2000 <= n
        && n <= 0x200A) || n == 0x2028 || n == 0x2029 || n == 0x202F || n == 0x205F || n == 0x3000
}

/// `s` without the white space at its start.
pub open spec fn trim_start(s: Seq<char>) -> Seq<char>
    decreases s.len(),
{
    if s.len() > 0 && is_whitespace(s.first()) {
        trim_start(s.drop_first())
    } else {
        s
    }
}

/// `s` without the white space at its end.
pub open spec fn trim_end(s: Seq<char>) -> Seq<char>
    decreases s.len(),
{
    if s.len() > 0 && is_whitespace(s.last()) {
        trim_end(s.drop_last())
    } else {
        s
    }
}

/// `s` without the white space at its two ends.
pub open spec fn trim(s: Seq<char>) -> Seq<char> {
    trim_end(trim_start(s))
}

/// The bounds of `chars[from..to]` without the white space at its two ends.
pub fn trim_span(chars: &Vec<char>, from: usize, to: usize) -> (r: (usize, usize))
    requires
        from <= to <= chars.len(),
    ensures
        from <= r.0 <= r.1 <= to,
        chars@.subrange(r.0 as int, r.1 as int) == trim(chars@.subrange(from as int, to as int)),
{
    let mut a: usize = from;
    while a < to && is_whitespace_char(chars[a])
        invariant
            from <= a <= to <= chars.len(),
            trim_start(chars@.subrange(from as int, to as int)) == trim_start(
                chars@.subrange(a as int, to as int),
            ),
        decreases to - a,
    {
        proof {
            assert(chars@.subrange(a as int, to as int).drop_first() =~= chars@.subrange(
                a + 1,
                to as int,
            ));
        }
        a += 1;
    }
    let mut b: usize = to;
    while a < b && is_whitespace_char(chars[b - 1])
        invariant
            a <= b <= to <= chars.len(),
            trim_end(chars@.subrange(a as int, to as int)) == trim_end(
                chars@.subrange(a as int, b as int),
            ),
        decreases b - a,
    {
        proof {
            assert(chars@.subrange(a as int, b as int).drop_last() =~= chars@.subrange(
                a as int,
                b - 1,
            ));
        }
        b -= 1;
    }
    (a, b)
}

/// The decimal digit for `d`.
pub open spec fn digit(d: nat) -> char {
    if d == 0 {
        '0'
    } else if d == 1 {
        '1'
    } else if d == 2 {
        '2'
    } else if d == 3 {
        '3'
    } else if d == 4 {
        '4'
    } else if d == 5 {
        '5'
    } else if d == 6 {
        '6'
    } else if d == 7 {
        '7'
    } else if d == 8 {
        '8'
    } else {
        '9'
    }
}

/// The decimal numeral for `n`, without leading zeros.
pub open spec fn decimal(n: nat) -> Seq<char>
    decreases n,
{
    if n < 10 {
        seq![digit(n)]
    } else {
        decimal(n / 10).push(digit(n % 10))
    }
}

fn digit_char(d: usize) -> (c: char)
    requires
        d < 10,
    ensures
        c == digit(d as nat),
{
    if d == 0 {
        '0'
    } else if d == 1 {
        '1'
    } else if d == 2 {
        '2'
    } else if d == 3 {
        '3'
    } else if d == 4 {
        '4'
    } else if d == 5 {
        '5'
    } else if d == 6 {
        '6'
    } else if d == 7 {
        '7'
    } else if d == 8 {
        '8'
    } else {
        '9'
    }
}

/// Appends the decimal numeral for `n` to `out`.
pub fn push_decimal(out: &mut String, n: usize)
    ensures
        final(out)@ == old(out)@ + decimal(n as nat),
    decreases n,
{
    if n >= 10 {
        push_decimal(out, n / 10);
    }
    out.push(digit_char(n % 10));
}

/// Appends the characters of `s` to `out`.
pub fn push_str(out: &mut String, s: &str)
    ensures
        final(out)@ == old(out)@ + s@,
{
    out.append(s);
}

} // verus!
