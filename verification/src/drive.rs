//! Finding the navigator that a query means, and what driving with the
//! navigators found comes to.

use crate::config::trailer::trailer_line;
use crate::config::{navigators_view, Config};
use crate::data::{Id, IdRef, Kind, Navigator, NavigatorView};
use crate::lines::line_feed;
use crate::text::{chars_of, find, find_in, lemma_find_from, push_str, string_of};
use crate::ui::{select_ids_from, SelectMany, UiError};
use caseless::Caseless;
use unicode_normalization::UnicodeNormalization;
use vstd::prelude::*;

verus! {

/// The canonical decomposition (NFD) of a text, as `unicode_normalization`
/// computes it.
pub uninterp spec fn nfd_of(s: Seq<char>) -> Seq<char>;

/// The default case folding of a text, as `caseless` computes it.
pub uninterp spec fn case_fold_of(s: Seq<char>) -> Seq<char>;

/// Decomposes `s` with `unicode_normalization::UnicodeNormalization::nfd`.
/// The contract says no more than that the result is a function of the
/// characters of `s`.
#[verifier::external_body]
fn nfd(s: &str) -> (r: String)
    ensures
        r@ == nfd_of(s@),
{
    s.chars().nfd().collect()
}

/// Folds the case of `s` with `caseless::Caseless::default_case_fold`. The
/// contract says no more than that the result is a function of the
/// characters of `s`.
#[verifier::external_body]
fn default_case_fold(s: &str) -> (r: String)
    ensures
        r@ == case_fold_of(s@),
{
    s.chars().default_case_fold().collect()
}

/// Whether `c` is one of the 128 characters of ASCII.
pub open spec fn is_ascii_char(c: char) -> bool {
    (c as u32) < 128
}

/// The characters of `s` that are ASCII, in their order.
pub open spec fn ascii_only(s: Seq<char>) -> Seq<char> {
    s.filter(|c: char| is_ascii_char(c))
}

/// The form in which aliases and queries are compared: decomposed, case
/// folded, and without what is not ASCII.
pub open spec fn folded(s: Seq<char>) -> Seq<char> {
    ascii_only(case_fold_of(nfd_of(s)))
}

/// Whether a query stands for an alias loosely: the folded alias begins with
/// the folded query.
pub open spec fn matches_caseless(query: Seq<char>, alias: Seq<char>) -> bool {
    folded(query).is_prefix_of(folded(alias))
}

/// The characters of `s` that are ASCII, in their order.
pub fn keep_ascii(s: &str) -> (r: Vec<char>)
    ensures
        r@ == ascii_only(s@),
{
    let chars = chars_of(s);
    let mut out: Vec<char> = Vec::new();
    let mut i: usize = 0;
    proof {
        reveal(Seq::filter);
        assert(chars@.take(0) =~= Seq::empty());
    }
    while i < chars.len()
        invariant
            i <= chars.len(),
            out@ == ascii_only(chars@.take(i as int)),
        decreases chars.len() - i,
    {
        proof {
            reveal(Seq::filter);
            assert(chars@.take(i + 1).drop_last() =~= chars@.take(i as int));
        }
        let c = chars[i];
        if (c as u32) < 128 {
            out.push(c);
        }
        i += 1;
    }
    proof {
        assert(chars@.take(i as int) =~= chars@);
    }
    out
}

/// Whether `a` begins with `b`.
pub fn starts_with(a: &Vec<char>, b: &Vec<char>) -> (r: bool)
    ensures
        r == b@.is_prefix_of(a@),
{
    if b.len() > a.len() {
        return false;
    }
    let mut i: usize = 0;
    while i < b.len()
        invariant
            i <= b.len() <= a.len(),
            forall|k: int| 0 <= k < i ==> a@[k] == b@[k],
        decreases b.len() - i,
    {
        if a[i] != b[i] {
            return false;
        }
        i += 1;
    }
    proof {
        assert(a@.subrange(0, b@.len() as int) =~= b@);
    }
    true
}

/// Whether the ASCII characters of `navigator` begin with those of `query`,
/// where both were decomposed and case folded before.
pub fn folded_starts_with(navigator: &str, query: &str) -> (r: bool)
    ensures
        r == ascii_only(query@).is_prefix_of(ascii_only(navigator@)),
{
    let a = keep_ascii(navigator);
    let b = keep_ascii(query);
    starts_with(&a, &b)
}

/// Whether `query` stands for the alias `navigator` loosely: see
/// [`matches_caseless`].
pub fn match_caseless(query: &str, navigator: &str) -> (r: bool)
    ensures
        r == matches_caseless(query@, navigator@),
{
    let alias = default_case_fold(nfd(navigator).as_str());
    let wanted = default_case_fold(nfd(query).as_str());
    folded_starts_with(alias.as_str(), wanted.as_str())
}

/// What a [`ResolveError`] holds.
pub ghost enum ResolveErrorView {
    NotFound { query: Seq<char> },
    Ambiguous { query: Seq<char>, candidates: Seq<Seq<char>> },
}

/// Why a query names no navigator.
#[derive(Clone, Debug, PartialEq, Eq)]
pub enum ResolveError {
    /// No alias is the query, and none begins with it loosely.
    NotFound { query: String },
    /// Several aliases match: every one of them, in the order of the
    /// registry.
    Ambiguous { query: String, candidates: Vec<String> },
}

/// The characters of each string of `v`.
pub open spec fn strings_view(v: Seq<String>) -> Seq<Seq<char>> {
    v.map_values(|s: String| s@)
}

impl View for ResolveError {
    type V = ResolveErrorView;

    open spec fn view(&self) -> ResolveErrorView {
        match *self {
            ResolveError::NotFound { query } => ResolveErrorView::NotFound { query: query@ },
            ResolveError::Ambiguous { query, candidates } => ResolveErrorView::Ambiguous {
                query: query@,
                candidates: strings_view(candidates@),
            },
        }
    }
}

/// The parts, with `sep` between each two of them.
pub open spec fn joined(parts: Seq<Seq<char>>, sep: Seq<char>) -> Seq<char>
    decreases parts.len(),
{
    if parts.len() == 0 {
        Seq::empty()
    } else if parts.len() == 1 {
        parts[0]
    } else {
        joined(parts.drop_last(), sep) + sep + parts.last()
    }
}

/// Appends the parts to `out`, with `sep` between each two of them.
pub fn push_joined(out: &mut String, parts: &Vec<String>, sep: &str)
    ensures
        final(out)@ == old(out)@ + joined(strings_view(parts@), sep@),
{
    let mut i: usize = 0;
    proof {
        assert(parts@.take(0) =~= Seq::empty());
        assert(strings_view(parts@.take(0)) =~= Seq::empty());
        assert(out@ =~= old(out)@ + joined(strings_view(parts@.take(0)), sep@));
    }
    while i < parts.len()
        invariant
            i <= parts.len(),
            out@ == old(out)@ + joined(strings_view(parts@.take(i as int)), sep@),
        decreases parts.len() - i,
    {
        let ghost done = strings_view(parts@.take(i as int));
        let ghost more = strings_view(parts@.take(i + 1));
        proof {
            assert(more.drop_last() =~= done);
            assert(more.last() == parts@[i as int]@);
        }
        if i > 0 {
            push_str(out, sep);
        }
        push_str(out, parts[i].as_str());
        proof {
            if i == 0 {
                assert(joined(done, sep@) =~= Seq::empty());
                assert(out@ =~= old(out)@ + joined(more, sep@));
            } else {
                assert(out@ =~= old(out)@ + joined(more, sep@));
            }
        }
        i += 1;
    }
    proof {
        assert(parts@.take(i as int) =~= parts@);
    }
}

impl ResolveErrorView {
    /// The message for the user.
    pub open spec fn message(self) -> Seq<char> {
        match self {
            ResolveErrorView::NotFound { query } => "No navigator found for `"@ + query + "`"@,
            ResolveErrorView::Ambiguous { query, candidates } => "The query `"@ + query
                + "` is ambiguous, possible candidates: ["@ + joined(candidates, ", "@) + "]"@,
        }
    }
}

impl ResolveError {
    /// The message for the user: the query, and every candidate where there
    /// are several.
    pub fn to_string(&self) -> (r: String)
        ensures
            r@ == self@.message(),
    {
        let mut r = String::new();
        match self {
            ResolveError::NotFound { query } => {
                push_str(&mut r, "No navigator found for `");
                push_str(&mut r, query.as_str());
                push_str(&mut r, "`");
            },
            ResolveError::Ambiguous { query, candidates } => {
                push_str(&mut r, "The query `");
                push_str(&mut r, query.as_str());
                push_str(&mut r, "` is ambiguous, possible candidates: [");
                push_joined(&mut r, candidates, ", ");
                push_str(&mut r, "]");
            },
        }
        proof {
            assert(r@ =~= self@.message());
        }
        r
    }
}

/// The navigators whose alias is the query, in the order of the registry.
pub open spec fn exact_hits(query: Seq<char>, navigators: Seq<NavigatorView>) -> Seq<
    NavigatorView,
> {
    navigators.filter(|n: NavigatorView| n.alias == query)
}

/// The navigators that the query stands for loosely, in the order of the
/// registry.
pub open spec fn loose_hits(query: Seq<char>, navigators: Seq<NavigatorView>) -> Seq<
    NavigatorView,
> {
    navigators.filter(|n: NavigatorView| matches_caseless(query, n.alias))
}

/// The aliases of navigators.
pub open spec fn aliases_of(navigators: Seq<NavigatorView>) -> Seq<Seq<char>> {
    navigators.map_values(|n: NavigatorView| n.alias)
}

/// What a round of matching comes to: nothing where nothing matched, the
/// navigator where one matched, and an error that names them all where
/// several did.
pub open spec fn verdict(query: Seq<char>, hits: Seq<NavigatorView>) -> Option<
    Result<NavigatorView, ResolveErrorView>,
> {
    if hits.len() == 0 {
        None
    } else if hits.len() == 1 {
        Some(Ok(hits[0]))
    } else {
        Some(Err(ResolveErrorView::Ambiguous { query, candidates: aliases_of(hits) }))
    }
}

/// The navigator that a query means. Aliases that are the query decide
/// alone where there are any; only where there is none does loose matching
/// count.
pub open spec fn resolve(query: Seq<char>, navigators: Seq<NavigatorView>) -> Result<
    NavigatorView,
    ResolveErrorView,
> {
    match verdict(query, exact_hits(query, navigators)) {
        Some(r) => r,
        None => match verdict(query, loose_hits(query, navigators)) {
            Some(r) => r,
            None => Err(ResolveErrorView::NotFound { query }),
        },
    }
}

/// Where no element of `s` meets `pred`, nothing is left of `s`.
proof fn lemma_filter_none<A>(s: Seq<A>, pred: spec_fn(A) -> bool)
    requires
        forall|j: int| 0 <= j < s.len() ==> !pred(s[j]),
    ensures
        s.filter(pred) == Seq::<A>::empty(),
    decreases s.len(),
{
    reveal(Seq::filter);
    if s.len() > 0 {
        assert forall|j: int| 0 <= j < s.drop_last().len() implies !pred(s.drop_last()[j]) by {
            assert(s.drop_last()[j] == s[j]);
        }
        lemma_filter_none(s.drop_last(), pred);
    }
}

/// Where the element at `i` is the only one of `s` that meets `pred`, it
/// is all that is left of `s`.
proof fn lemma_filter_single<A>(s: Seq<A>, pred: spec_fn(A) -> bool, i: int)
    requires
        0 <= i < s.len(),
        pred(s[i]),
        forall|j: int| 0 <= j < s.len() && j != i ==> !pred(s[j]),
    ensures
        s.filter(pred) == seq![s[i]],
    decreases s.len(),
{
    reveal(Seq::filter);
    let front = s.drop_last();
    if i == s.len() - 1 {
        assert forall|j: int| 0 <= j < front.len() implies !pred(front[j]) by {
            assert(front[j] == s[j]);
        }
        lemma_filter_none(front, pred);
        assert(s.filter(pred) =~= seq![s[i]]);
    } else {
        assert(front[i] == s[i]);
        assert forall|j: int| 0 <= j < front.len() && j != i implies !pred(front[j]) by {
            assert(front[j] == s[j]);
        }
        lemma_filter_single(front, pred, i);
    }
}

/// An alias that is the query is found, whatever other aliases begin with
/// it: where no two navigators share an alias, the navigator whose alias is
/// the query is the one that the query means.
pub proof fn lemma_exact_match_wins(query: Seq<char>, navigators: Seq<NavigatorView>, i: int)
    requires
        0 <= i < navigators.len(),
        navigators[i].alias == query,
        forall|a: int, b: int|
            0 <= a < b < navigators.len() ==> navigators[a].alias != navigators[b].alias,
    ensures
        resolve(query, navigators) == Ok::<NavigatorView, ResolveErrorView>(navigators[i]),
{
    lemma_filter_single(navigators, |n: NavigatorView| n.alias == query, i);
}

/// No query is settled in silence: where a query means a navigator, that
/// navigator is the only one whose alias is the query, or no alias is the
/// query and it is the only one that the query stands for loosely.
pub proof fn lemma_no_silent_winner(
    query: Seq<char>,
    navigators: Seq<NavigatorView>,
    found: NavigatorView,
)
    requires
        resolve(query, navigators) == Ok::<NavigatorView, ResolveErrorView>(found),
    ensures
        exact_hits(query, navigators) == seq![found] || (exact_hits(query, navigators).len() == 0
            && loose_hits(query, navigators) == seq![found]),
{
    let exact = exact_hits(query, navigators);
    let loose = loose_hits(query, navigators);
    if exact.len() == 1 {
        assert(exact =~= seq![found]);
    } else {
        assert(loose =~= seq![found]);
    }
}

/// A query that matches several aliases fails, and the error names each of
/// them in the order of the registry.
pub proof fn lemma_ambiguity_is_reported(query: Seq<char>, navigators: Seq<NavigatorView>)
    requires
        exact_hits(query, navigators).len() == 0,
        loose_hits(query, navigators).len() > 1,
    ensures
        resolve(query, navigators) == Err::<NavigatorView, ResolveErrorView>(
            ResolveErrorView::Ambiguous {
                query,
                candidates: aliases_of(loose_hits(query, navigators)),
            },
        ),
{
}

/// The navigators at the indices `hits`.
pub open spec fn picked(navigators: Seq<Navigator>, hits: Seq<usize>) -> Seq<NavigatorView> {
    hits.map_values(|i: usize| navigators[i as int]@)
}

/// What the outcome of resolving a query holds.
pub open spec fn resolved_view(r: Result<&Navigator, ResolveError>) -> Result<
    NavigatorView,
    ResolveErrorView,
> {
    match r {
        Ok(n) => Ok(n@),
        Err(e) => Err(e@),
    }
}

/// What a round of matching holds.
pub open spec fn verdict_view(r: Option<Result<&Navigator, ResolveError>>) -> Option<
    Result<NavigatorView, ResolveErrorView>,
> {
    match r {
        Some(r) => Some(resolved_view(r)),
        None => None,
    }
}

/// What the matches at the indices `hits` come to: see [`verdict`].
pub fn validate_matches<'c>(query: &Id, navigators: &'c Vec<Navigator>, hits: &Vec<usize>) -> (r:
    Option<Result<&'c Navigator, ResolveError>>)
    requires
        forall|k: int| 0 <= k < hits@.len() ==> hits@[k] < navigators@.len(),
    ensures
        verdict_view(r) == verdict(query@, picked(navigators@, hits@)),
{
    if hits.len() == 0 {
        return None;
    }
    if hits.len() == 1 {
        return Some(Ok(&navigators[hits[0]]));
    }
    let mut candidates: Vec<String> = Vec::new();
    let mut k: usize = 0;
    let ghost all = picked(navigators@, hits@);
    proof {
        assert(strings_view(candidates@) =~= aliases_of(all.take(0)));
    }
    while k < hits.len()
        invariant
            k <= hits.len(),
            all == picked(navigators@, hits@),
            forall|k: int| 0 <= k < hits@.len() ==> hits@[k] < navigators@.len(),
            strings_view(candidates@) == aliases_of(all.take(k as int)),
        decreases hits.len() - k,
    {
        let ghost before = candidates@;
        candidates.push(navigators[hits[k]].alias.0.clone());
        proof {
            assert(strings_view(candidates@) =~= strings_view(before).push(all[k as int].alias));
            assert(aliases_of(all.take(k + 1)) =~= aliases_of(all.take(k as int)).push(
                all[k as int].alias,
            ));
        }
        k += 1;
    }
    proof {
        assert(all.take(k as int) =~= all);
    }
    Some(Err(ResolveError::Ambiguous { query: query.0.clone(), candidates }))
}

/// The indices of the navigators whose alias is `query`.
fn exact_indices(query: &Id, navigators: &Vec<Navigator>) -> (hits: Vec<usize>)
    ensures
        forall|k: int| 0 <= k < hits@.len() ==> hits@[k] < navigators@.len(),
        picked(navigators@, hits@) == exact_hits(query@, navigators_view(navigators@)),
{
    let mut hits: Vec<usize> = Vec::new();
    let mut i: usize = 0;
    let ghost wanted = query@;
    proof {
        reveal(Seq::filter);
        assert(navigators@.take(0) =~= Seq::empty());
        assert(navigators_view(navigators@.take(0)) =~= Seq::empty());
        assert(picked(navigators@, hits@) =~= Seq::empty());
    }
    while i < navigators.len()
        invariant
            i <= navigators.len(),
            wanted == query@,
            forall|k: int| 0 <= k < hits@.len() ==> hits@[k] < navigators@.len(),
            picked(navigators@, hits@) == exact_hits(
                wanted,
                navigators_view(navigators@.take(i as int)),
            ),
        decreases navigators.len() - i,
    {
        let ghost before = hits@;
        proof {
            reveal(Seq::filter);
            assert(navigators_view(navigators@.take(i + 1)).drop_last() =~= navigators_view(
                navigators@.take(i as int),
            ));
            assert(navigators_view(navigators@.take(i + 1)).last() == navigators@[i as int]@);
        }
        if query.same_as_nav(&navigators[i]) {
            hits.push(i);
            proof {
                assert(picked(navigators@, hits@) =~= picked(navigators@, before).push(
                    navigators@[i as int]@,
                ));
            }
        }
        i += 1;
    }
    proof {
        assert(navigators@.take(i as int) =~= navigators@);
    }
    hits
}

/// The indices of the navigators that `query` stands for loosely.
fn loose_indices(query: &Id, navigators: &Vec<Navigator>) -> (hits: Vec<usize>)
    ensures
        forall|k: int| 0 <= k < hits@.len() ==> hits@[k] < navigators@.len(),
        picked(navigators@, hits@) == loose_hits(query@, navigators_view(navigators@)),
{
    let mut hits: Vec<usize> = Vec::new();
    let mut i: usize = 0;
    let ghost wanted = query@;
    proof {
        reveal(Seq::filter);
        assert(navigators@.take(0) =~= Seq::empty());
        assert(navigators_view(navigators@.take(0)) =~= Seq::empty());
        assert(picked(navigators@, hits@) =~= Seq::empty());
    }
    while i < navigators.len()
        invariant
            i <= navigators.len(),
            wanted == query@,
            forall|k: int| 0 <= k < hits@.len() ==> hits@[k] < navigators@.len(),
            picked(navigators@, hits@) == loose_hits(
                wanted,
                navigators_view(navigators@.take(i as int)),
            ),
        decreases navigators.len() - i,
    {
        let ghost before = hits@;
        proof {
            reveal(Seq::filter);
            assert(navigators_view(navigators@.take(i + 1)).drop_last() =~= navigators_view(
                navigators@.take(i as int),
            ));
            assert(navigators_view(navigators@.take(i + 1)).last() == navigators@[i as int]@);
        }
        if match_caseless(query.as_str(), navigators[i].alias.as_str()) {
            hits.push(i);
            proof {
                assert(picked(navigators@, hits@) =~= picked(navigators@, before).push(
                    navigators@[i as int]@,
                ));
            }
        }
        i += 1;
    }
    proof {
        assert(navigators@.take(i as int) =~= navigators@);
    }
    hits
}

/// The navigator of `config` that `query` means: see [`resolve`].
///
/// An alias that is the query is found whatever other aliases begin with
/// it. A query that matches several aliases is never settled in silence: the
/// error names each of them.
pub fn match_navigator<'c>(query: &Id, config: &'c Config) -> (r: Result<
    &'c Navigator,
    ResolveError,
>)
    ensures
        resolved_view(r) == resolve(query@, config@.navigators),
{
    let direct = exact_indices(query, &config.navigators);
    match validate_matches(query, &config.navigators, &direct) {
        Some(r) => {
            return r;
        },
        None => {},
    }
    let partial = loose_indices(query, &config.navigators);
    match validate_matches(query, &config.navigators, &partial) {
        Some(r) => {
            return r;
        },
        None => {},
    }
    Err(ResolveError::NotFound { query: query.0.clone() })
}


/// What a [`Plan`] holds.
pub ghost enum PlanView {
    Alone,
    With { template: Seq<char>, current: Seq<char> },
}

/// What is to be done to drive with the navigators that were found.
#[derive(Clone, Debug, PartialEq, Eq)]
pub enum Plan {
    /// There is no navigator: the commit template is unset, and the note of
    /// the current navigators removed.
    Alone,
    /// The commit template gets the text `template`, and the note of the
    /// current navigators the text `current`.
    With { template: String, current: String },
}

impl View for Plan {
    type V = PlanView;

    open spec fn view(&self) -> PlanView {
        match *self {
            Plan::Alone => PlanView::Alone,
            Plan::With { template, current } => PlanView::With {
                template: template@,
                current: current@,
            },
        }
    }
}

/// What stands between two aliases in the note of the current navigators:
/// the character U+001F, information separator one.
pub open spec fn separator() -> Seq<char> {
    seq!['\u{1F}']
}

/// The trailers of the navigators, each on a line of its own.
pub open spec fn trailers_text(navigators: Seq<NavigatorView>) -> Seq<char>
    decreases navigators.len(),
{
    if navigators.len() == 0 {
        Seq::empty()
    } else {
        trailers_text(navigators.drop_last()) + trailer_line(
            navigators.last().name,
            navigators.last().email,
        ) + line_feed()
    }
}

/// The text of the commit template: two empty lines, then the trailers.
pub open spec fn template_text(navigators: Seq<NavigatorView>) -> Seq<char> {
    line_feed() + line_feed() + trailers_text(navigators)
}

/// The text of the note of the current navigators: their aliases, with the
/// separator between each two.
pub open spec fn current_text(navigators: Seq<NavigatorView>) -> Seq<char> {
    joined(aliases_of(navigators), separator())
}

/// The plan for driving with `navigators`: alone where there is none.
pub open spec fn plan_for(navigators: Seq<NavigatorView>) -> PlanView {
    if navigators.len() == 0 {
        PlanView::Alone
    } else {
        PlanView::With {
            template: template_text(navigators),
            current: current_text(navigators),
        }
    }
}

/// What each of the navigators holds.
pub open spec fn refs_view(navigators: Seq<&Navigator>) -> Seq<NavigatorView> {
    navigators.map_values(|n: &Navigator| n@)
}

/// The plan for driving with `navigators`: see [`plan_for`].
pub fn drive_with(navigators: &Vec<&Navigator>) -> (r: Plan)
    ensures
        r@ == plan_for(refs_view(navigators@)),
{
    if navigators.len() == 0 {
        return Plan::Alone;
    }
    let ghost all = refs_view(navigators@);
    let mut template = String::new();
    template.push('\n');
    template.push('\n');
    let mut aliases: Vec<String> = Vec::new();
    let mut i: usize = 0;
    proof {
        assert(template@ =~= line_feed() + line_feed() + trailers_text(all.take(0)));
        assert(strings_view(aliases@) =~= aliases_of(all.take(0)));
    }
    while i < navigators.len()
        invariant
            i <= navigators.len(),
            all == refs_view(navigators@),
            template@ == line_feed() + line_feed() + trailers_text(all.take(i as int)),
            strings_view(aliases@) == aliases_of(all.take(i as int)),
        decreases navigators.len() - i,
    {
        let n = navigators[i];
        let ghost before = aliases@;
        proof {
            assert(all.take(i + 1).drop_last() =~= all.take(i as int));
            assert(all.take(i + 1).last() == n@);
            reveal_strlit("Co-Authored-By: ");
        }
        push_str(&mut template, "Co-Authored-By: ");
        push_str(&mut template, n.name.as_str());
        push_str(&mut template, " <");
        push_str(&mut template, n.email.as_str());
        push_str(&mut template, ">");
        template.push('\n');
        aliases.push(n.alias.0.clone());
        proof {
            assert(template@ =~= line_feed() + line_feed() + trailers_text(all.take(i + 1)));
            assert(strings_view(aliases@) =~= strings_view(before).push(n@.alias));
            assert(aliases_of(all.take(i + 1)) =~= aliases_of(all.take(i as int)).push(n@.alias));
        }
        i += 1;
    }
    proof {
        assert(all.take(i as int) =~= all);
        reveal_strlit("\u{1F}");
        assert("\u{1F}"@ =~= separator());
    }
    let mut current = String::new();
    push_joined(&mut current, &aliases, "\u{1F}");
    proof {
        assert(current@ =~= current_text(all));
    }
    Plan::With { template, current }
}

/// The navigators that the queries mean, one for each and in their order,
/// or the error of the first query that means none.
pub open spec fn resolve_all(queries: Seq<Seq<char>>, navigators: Seq<NavigatorView>) -> Result<
    Seq<NavigatorView>,
    ResolveErrorView,
>
    decreases queries.len(),
{
    if queries.len() == 0 {
        Ok(Seq::empty())
    } else {
        match resolve_all(queries.drop_last(), navigators) {
            Err(e) => Err(e),
            Ok(found) => match resolve(queries.last(), navigators) {
                Ok(n) => Ok(found.push(n)),
                Err(e) => Err(e),
            },
        }
    }
}

/// The plan that the queries come to: the plan for the navigators that they
/// mean.
pub open spec fn plan_of(queries: Seq<Seq<char>>, navigators: Seq<NavigatorView>) -> Result<
    PlanView,
    ResolveErrorView,
> {
    match resolve_all(queries, navigators) {
        Ok(found) => Ok(plan_for(found)),
        Err(e) => Err(e),
    }
}

/// What the outcome of planning holds.
pub open spec fn plan_view(r: Result<Plan, ResolveError>) -> Result<PlanView, ResolveErrorView> {
    match r {
        Ok(p) => Ok(p@),
        Err(e) => Err(e@),
    }
}

/// The plan for driving with the navigators that `ids` mean: see
/// [`plan_of`]. Every query must mean a navigator.
pub fn run<I: IdRef>(ids: &[I], config: &Config) -> (r: Result<Plan, ResolveError>)
    ensures
        plan_view(r) == plan_of(crate::delete::aliases_of(ids@), config@.navigators),
{
    let mut navigators: Vec<&Navigator> = Vec::new();
    let ghost queries = crate::delete::aliases_of(ids@);
    let mut i: usize = 0;
    proof {
        assert(queries.take(0) =~= Seq::empty());
        assert(refs_view(navigators@) =~= Seq::empty());
    }
    while i < ids.len()
        invariant
            i <= ids.len(),
            queries == crate::delete::aliases_of(ids@),
            resolve_all(queries.take(i as int), config@.navigators) == Ok::<
                Seq<NavigatorView>,
                ResolveErrorView,
            >(refs_view(navigators@)),
        decreases ids.len() - i,
    {
        proof {
            assert(queries.take(i + 1).drop_last() =~= queries.take(i as int));
            assert(queries.take(i + 1).last() == ids@[i as int].alias());
        }
        let ghost before = navigators@;
        match match_navigator(ids[i].id(), config) {
            Ok(n) => {
                navigators.push(n);
                proof {
                    assert(refs_view(navigators@) =~= refs_view(before).push(n@));
                }
            },
            Err(e) => {
                proof {
                    lemma_resolve_all_fails(queries, config@.navigators, i as int);
                }
                return Err(e);
            },
        }
        i += 1;
    }
    proof {
        assert(queries.take(i as int) =~= queries);
    }
    Ok(drive_with(&navigators))
}

/// Where the queries before the one at `i` all mean a navigator and that
/// one does not, its error is the error of the whole.
proof fn lemma_resolve_all_fails(
    queries: Seq<Seq<char>>,
    navigators: Seq<NavigatorView>,
    i: int,
)
    requires
        0 <= i < queries.len(),
        resolve_all(queries.take(i + 1), navigators) is Err,
    ensures
        resolve_all(queries, navigators) == resolve_all(queries.take(i + 1), navigators),
    decreases queries.len(),
{
    if i + 1 == queries.len() {
        assert(queries.take(i + 1) =~= queries);
    } else {
        assert(queries.drop_last().take(i + 1) =~= queries.take(i + 1));
        lemma_resolve_all_fails(queries.drop_last(), navigators, i);
    }
}

/// Why no plan was made.
#[derive(Clone, Debug, PartialEq, Eq)]
pub enum DriveError {
    /// The user interface gave up.
    Ui(UiError),
    /// A query means no navigator.
    Resolve(ResolveError),
}

impl DriveError {
    /// The message for the user.
    pub fn to_string(&self) -> (r: String)
        ensures
            r@ == match *self {
                DriveError::Ui(e) => e@.message(),
                DriveError::Resolve(e) => e@.message(),
            },
    {
        match self {
            DriveError::Ui(e) => e.to_string(),
            DriveError::Resolve(e) => e.to_string(),
        }
    }
}

/// Lets the user choose the navigators to drive with, with those ticked
/// that go by one of `currently`, and makes the plan for those chosen.
///
/// Where the registry has no navigator the user is not asked, and there is
/// no plan. Otherwise there is a plan, or the error of the interface or of
/// an alias that means no navigator.
pub fn select<U: SelectMany>(ui: U, config: &Config, currently: &[Id]) -> (r: Result<
    Option<Plan>,
    DriveError,
>)
    ensures
        config@.navigators.len() == 0 <==> r matches Ok(None),
        r matches Ok(Some(plan)) ==> exists|queries: Seq<Seq<char>>|
            crate::delete::chosen_from(config@.navigator_aliases(), queries) && plan_of(
                queries,
                config@.navigators,
            ) == Ok::<PlanView, ResolveErrorView>(plan@),
{
    if config.navigators.len() == 0 {
        return Ok(None);
    }
    match select_navigators(ui, config, currently) {
        Ok(plan) => Ok(Some(plan)),
        Err(e) => Err(e),
    }
}

/// Lets the user choose among the navigators, and makes the plan for those
/// chosen.
///
/// Where the registry has no navigator the user is not asked, and the plan
/// is to drive alone. Otherwise the outcome is the error of the interface,
/// or what [`plan_of`] gives for the aliases chosen, which are aliases of
/// the registry: the plan, or the error of the first that means no
/// navigator.
pub fn select_navigators<U: SelectMany>(ui: U, config: &Config, currently: &[Id]) -> (r: Result<
    Plan,
    DriveError,
>)
    ensures
        config@.navigators.len() == 0 ==> (r matches Ok(plan) && plan@ == PlanView::Alone),
        r matches Ok(plan) ==> exists|queries: Seq<Seq<char>>|
            crate::delete::chosen_from(config@.navigator_aliases(), queries) && plan_of(
                queries,
                config@.navigators,
            ) == Ok::<PlanView, ResolveErrorView>(plan@),
        r matches Err(DriveError::Resolve(e)) ==> exists|queries: Seq<Seq<char>>|
            crate::delete::chosen_from(config@.navigator_aliases(), queries) && plan_of(
                queries,
                config@.navigators,
            ) == Err::<PlanView, ResolveErrorView>(e@),
{
    let ids = match select_ids_from(ui, Kind::Navigator, config, currently) {
        Ok(ids) => ids,
        Err(e) => {
            return Err(DriveError::Ui(e));
        },
    };
    let ghost queries = crate::delete::aliases_of(ids@);
    proof {
        assert(config@.navigators.len() == config@.navigator_aliases().len());
        assert forall|k: int| 0 <= k < queries.len() implies config@.navigator_aliases().contains(
            #[trigger] queries[k],
        ) by {
            assert(queries[k] == ids@[k]@);
        }
        assert(crate::delete::chosen_from(config@.navigator_aliases(), queries));
        if config@.navigators.len() == 0 {
            assert(queries =~= Seq::empty());
        }
    }
    match run(ids.as_slice(), config) {
        Ok(plan) => Ok(plan),
        Err(e) => Err(DriveError::Resolve(e)),
    }
}

/// The pieces of `s` between the occurrences of `sep`: one more than there
/// are occurrences, so at least one.
pub open spec fn pieces(s: Seq<char>, sep: Seq<char>) -> Seq<Seq<char>>
    decreases s.len(),
{
    match find(s, sep) {
        Some(i) => if 0 <= i && sep.len() > 0 && i + sep.len() <= s.len() {
            seq![s.take(i)] + pieces(s.skip(i + sep.len()), sep)
        } else {
            seq![s]
        },
        None => seq![s],
    }
}

/// The parts joined are the first part, and behind it the separator and
/// the other parts joined.
proof fn lemma_joined_front(parts: Seq<Seq<char>>, sep: Seq<char>)
    requires
        parts.len() >= 2,
    ensures
        joined(parts, sep) == parts.first() + sep + joined(parts.drop_first(), sep),
    decreases parts.len(),
{
    if parts.len() == 2 {
        assert(parts.drop_last() =~= seq![parts.first()]);
        assert(parts.drop_first() =~= seq![parts.last()]);
        assert(joined(parts.drop_last(), sep) == parts.first());
        assert(joined(parts.drop_first(), sep) == parts.last());
        assert(joined(parts, sep) =~= parts.first() + sep + joined(parts.drop_first(), sep));
    } else {
        lemma_joined_front(parts.drop_last(), sep);
        assert(parts.drop_last().drop_first() =~= parts.drop_first().drop_last());
        assert(joined(parts.drop_first(), sep) == joined(parts.drop_first().drop_last(), sep)
            + sep + parts.drop_first().last());
        assert(parts.drop_last().first() == parts.first());
        assert(parts.drop_first().last() == parts.last());
        assert(joined(parts, sep) =~= parts.first() + sep + joined(parts.drop_first(), sep));
    }
}

/// What is written into the note of the current navigators is read back:
/// aliases without the separator in them, joined by it, are the pieces of
/// the text that they make.
pub proof fn lemma_pieces_of_joined(parts: Seq<Seq<char>>)
    requires
        parts.len() > 0,
        forall|i: int| 0 <= i < parts.len() ==> !(#[trigger] parts[i]).contains('\u{1F}'),
    ensures
        pieces(joined(parts, separator()), separator()) == parts,
    decreases parts.len(),
{
    let sep = separator();
    let first = parts.first();
    if parts.len() == 1 {
        lemma_find_from(first, sep, 0);
        assert(find(first, sep) is None) by {
            if find(first, sep) is Some {
                let j = find(first, sep)->0;
                assert(first.subrange(j, j + 1)[0] == '\u{1F}');
                assert(first[j] == '\u{1F}');
            }
        }
        assert(pieces(first, sep) =~= parts);
    } else {
        let rest = parts.drop_first();
        lemma_joined_front(parts, sep);
        assert forall|i: int| 0 <= i < rest.len() implies !(#[trigger] rest[i]).contains(
            '\u{1F}',
        ) by {
            assert(rest[i] == parts[i + 1]);
        }
        lemma_pieces_of_joined(rest);
        let text = first + sep + joined(rest, sep);
        let at = first.len() as int;
        assert(text.subrange(at, at + 1) =~= sep);
        assert forall|k: int| 0 <= k < at implies !crate::text::occurs_at(text, sep, k) by {
            if crate::text::occurs_at(text, sep, k) {
                assert(text.subrange(k, k + 1)[0] == '\u{1F}');
                assert(first[k] == '\u{1F}');
            }
        }
        crate::text::lemma_find_is(text, sep, at);
        assert(text.take(at) =~= first);
        assert(text.skip(at + 1) =~= joined(rest, sep));
        assert(pieces(text, sep) =~= seq![first] + rest);
        assert(seq![first] + rest =~= parts);
    }
}

/// The aliases in the note of the current navigators: the pieces of `data`
/// between the separators.
pub fn get_current(data: &str) -> (r: Vec<Id>)
    ensures
        crate::ui::ids_view(r@) == pieces(data@, separator()),
{
    let chars = chars_of(data);
    let n = chars.len();
    let mut out: Vec<Id> = Vec::new();
    let mut pos: usize = 0;
    let ghost all = chars@;
    proof {
        assert(all.skip(0) =~= all);
        assert(crate::ui::ids_view(out@) =~= Seq::empty());
        reveal_strlit("\u{1F}");
        assert("\u{1F}"@ =~= separator());
    }
    loop
        invariant
            pos <= n == chars.len(),
            all == chars@,
            all == data@,
            "\u{1F}"@ == separator(),
            pieces(all, separator()) == crate::ui::ids_view(out@) + pieces(
                all.skip(pos as int),
                separator(),
            ),
        decreases n - pos,
    {
        let ghost s = all.skip(pos as int);
        let ghost before = out@;
        proof {
            assert(s =~= all.subrange(pos as int, n as int));
        }
        match find_in(&chars, pos, n, "\u{1F}") {
            Some(i) => {
                let piece = string_of(&chars, pos, pos + i);
                proof {
                    assert(s.take(i as int) =~= all.subrange(pos as int, pos + i));
                    assert(s.skip(i + 1) =~= all.skip(pos + i + 1));
                }
                out.push(Id(piece));
                proof {
                    assert(crate::ui::ids_view(out@) =~= crate::ui::ids_view(before).push(
                        s.take(i as int),
                    ));
                    assert(crate::ui::ids_view(before) + (seq![s.take(i as int)] + pieces(
                        s.skip(i + 1),
                        separator(),
                    )) =~= crate::ui::ids_view(out@) + pieces(s.skip(i + 1), separator()));
                }
                pos = pos + i + 1;
            },
            None => {
                let piece = string_of(&chars, pos, n);
                out.push(Id(piece));
                proof {
                    assert(crate::ui::ids_view(out@) =~= crate::ui::ids_view(before).push(s));
                    assert(pieces(s, separator()) == seq![s]);
                    assert(crate::ui::ids_view(before) + seq![s] =~= crate::ui::ids_view(
                        before,
                    ).push(s));
                }
                return out;
            },
        }
    }
}

/// Whether showing the current navigators has to end in failure: it was
/// asked to fail where there is none, and there is none or they could not
/// be had.
pub fn current_fails(fail_if_empty: bool, has_current: Option<bool>) -> (r: bool)
    ensures
        r == (fail_if_empty && has_current != Some(true)),
{
    match has_current {
        Some(true) => false,
        _ => fail_if_empty,
    }
}

} // verus!
