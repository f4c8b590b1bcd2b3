//! Splitting a text into its lines.

use crate::text::{find, find_in, lemma_find_from, occurs_at, string_of};
use vstd::prelude::*;

verus! {

/// The line feed, as a pattern to look for.
pub open spec fn line_feed() -> Seq<char> {
    seq!['\n']
}

/// `line` without the carriage return at its end, if it has one.
pub open spec fn without_cr(line: Seq<char>) -> Seq<char> {
    if line.len() > 0 && line.last() == '\r' {
        line.drop_last()
    } else {
        line
    }
}

/// The lines of `s`. A line ends with a line feed, or with a carriage return
/// and a line feed, neither of which belongs to it. What follows the last
/// line feed is a line of its own unless it is empty.
pub open spec fn lines_of(s: Seq<char>) -> Seq<Seq<char>>
    decreases s.len(),
{
    if s.len() == 0 {
        Seq::empty()
    } else {
        match find(s, line_feed()) {
            Some(i) => if 0 <= i < s.len() {
                seq![without_cr(s.take(i))] + lines_of(s.skip(i + 1))
            } else {
                seq![s]
            },
            None => seq![s],
        }
    }
}

/// The lines of a text that begins with a line without a line feed in it,
/// followed by a line feed.
pub proof fn lemma_lines_of_cons(line: Seq<char>, rest: Seq<char>)
    requires
        !line.contains('\n'),
    ensures
        lines_of(line + line_feed() + rest) == seq![without_cr(line)] + lines_of(rest),
{
    let s = line + line_feed() + rest;
    let i = line.len() as int;
    assert(s.subrange(i, i + 1) =~= line_feed());
    assert forall|k: int| 0 <= k < i implies !occurs_at(s, line_feed(), k) by {
        if occurs_at(s, line_feed(), k) {
            assert(s.subrange(k, k + 1)[0] == '\n');
            assert(line[k] == '\n');
        }
    }
    crate::text::lemma_find_is(s, line_feed(), i);
    assert(s.take(i) =~= line);
    assert(s.skip(i + 1) =~= rest);
}

/// The bounds of a piece of a text.
#[derive(Clone, Copy, Debug)]
pub struct Span {
    pub start: usize,
    pub end: usize,
}

/// A text together with the bounds of each of its lines.
#[derive(Debug)]
pub struct Lines {
    pub chars: Vec<char>,
    pub spans: Vec<Span>,
}

impl View for Lines {
    type V = Seq<Seq<char>>;

    open spec fn view(&self) -> Seq<Seq<char>> {
        Seq::new(
            self.spans@.len(),
            |k: int| self.chars@.subrange(self.spans@[k].start as int, self.spans@[k].end as int),
        )
    }
}

impl Lines {
    /// Each line lies within the text, and no earlier than its own index:
    /// every line before it took at least one character.
    pub open spec fn wf(&self) -> bool {
        forall|k: int|
            0 <= k < self.spans@.len() ==> k <= (#[trigger] self.spans@[k]).start
                <= self.spans@[k].end <= self.chars@.len()
    }

    /// The lines of `text`.
    pub fn of(text: &str) -> (r: Lines)
        ensures
            r.wf(),
            r@ == lines_of(text@),
            r.chars@ == text@,
    {
        let chars = crate::text::chars_of(text);
        let n = chars.len();
        let mut spans: Vec<Span> = Vec::new();
        let mut pos: usize = 0;
        let ghost all = chars@;
        proof {
            assert(all.skip(0) =~= all);
        }
        while pos < n
            invariant
                pos <= n == chars.len(),
                all == chars@,
                spans@.len() <= pos,
                forall|k: int|
                    0 <= k < spans@.len() ==> k <= (#[trigger] spans@[k]).start <= spans@[k].end
                        <= pos,
                lines_of(all) =~= Seq::new(
                    spans@.len(),
                    |k: int| all.subrange(spans@[k].start as int, spans@[k].end as int),
                ) + lines_of(all.skip(pos as int)),
            decreases n - pos,
        {
            let ghost s = all.skip(pos as int);
            let ghost before = Seq::new(
                spans@.len(),
                |k: int| all.subrange(spans@[k].start as int, spans@[k].end as int),
            );
            proof {
                assert(s =~= all.subrange(pos as int, n as int));
                lemma_find_from(s, line_feed(), 0);
                reveal_strlit("\n");
                assert("\n"@ =~= line_feed());
            }
            let span = match find_in(&chars, pos, n, "\n") {
                Some(i) => {
                    let stop = pos + i;
                    let end = if stop > pos && chars[stop - 1] == '\r' {
                        stop - 1
                    } else {
                        stop
                    };
                    proof {
                        assert(s.take(i as int) =~= all.subrange(pos as int, stop as int));
                        assert(without_cr(s.take(i as int)) =~= all.subrange(
                            pos as int,
                            end as int,
                        ));
                        assert(s.skip(i + 1) =~= all.skip(stop + 1));
                    }
                    let span = Span { start: pos, end };
                    pos = stop + 1;
                    span
                },
                None => {
                    let span = Span { start: pos, end: n };
                    proof {
                        assert(s =~= all.subrange(pos as int, n as int));
                        assert(lines_of(all.skip(n as int)) =~= Seq::<Seq<char>>::empty());
                    }
                    pos = n;
                    span
                },
            };
            spans.push(span);
            proof {
                let after = Seq::new(
                    spans@.len(),
                    |k: int| all.subrange(spans@[k].start as int, spans@[k].end as int),
                );
                assert(after =~= before.push(all.subrange(span.start as int, span.end as int)));
            }
        }
        proof {
            assert(lines_of(all.skip(pos as int)) =~= Seq::<Seq<char>>::empty());
        }
        Lines { chars, spans }
    }

    /// How many lines there are.
    pub fn len(&self) -> (n: usize)
        ensures
            n == self@.len(),
    {
        self.spans.len()
    }

    /// The bounds of line `k`.
    pub fn span(&self, k: usize) -> (s: Span)
        requires
            self.wf(),
            k < self@.len(),
        ensures
            s == self.spans@[k as int],
            k <= s.start <= s.end <= self.chars@.len(),
            self.chars@.subrange(s.start as int, s.end as int) == self@[k as int],
    {
        self.spans[k]
    }

    /// Line `k`, as a string.
    pub fn line(&self, k: usize) -> (s: String)
        requires
            self.wf(),
            k < self@.len(),
        ensures
            s@ == self@[k as int],
    {
        let span = self.span(k);
        string_of(&self.chars, span.start, span.end)
    }
}

} // verus!
