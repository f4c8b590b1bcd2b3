//! Taking records out of the registry.

use crate::config::{drivers_view, navigators_view, Config, ConfigView};
use crate::data::{Driver, DriverView, Id, IdRef, Kind, Modification, Navigator, NavigatorView};
use crate::ui::{select_ids_from, SelectMany, UiError};
use vstd::prelude::*;

verus! {

/// The aliases that `ids` go by.
pub open spec fn aliases_of<I: IdRef>(ids: Seq<I>) -> Seq<Seq<char>> {
    ids.map_values(|id: I| id.alias())
}

/// The records that stay when those that go by one of `wanted` leave.
pub open spec fn kept<T: IdRef>(data: Seq<T>, wanted: Seq<Seq<char>>) -> Seq<T> {
    data.filter(|t: T| !wanted.contains(t.alias()))
}

/// The navigators that stay when those that go by one of `wanted` leave.
pub open spec fn kept_navigators(data: Seq<NavigatorView>, wanted: Seq<Seq<char>>) -> Seq<
    NavigatorView,
> {
    data.filter(|n: NavigatorView| !wanted.contains(n.alias))
}

/// The drivers that stay when those that go by one of `wanted` leave.
pub open spec fn kept_drivers(data: Seq<DriverView>, wanted: Seq<Seq<char>>) -> Seq<DriverView> {
    data.filter(|d: DriverView| !wanted.contains(d.navigator.alias))
}

/// The registry without the records of `kind` that go by one of `wanted`.
/// The records of the other kind stay as they are, and those that stay keep
/// their order.
pub open spec fn without(c: ConfigView, kind: Kind, wanted: Seq<Seq<char>>) -> ConfigView {
    match kind {
        Kind::Navigator => ConfigView {
            navigators: kept_navigators(c.navigators, wanted),
            drivers: c.drivers,
        },
        Kind::Driver => ConfigView {
            navigators: c.navigators,
            drivers: kept_drivers(c.drivers, wanted),
        },
    }
}

/// Whether each of `wanted` is one of `aliases`.
pub open spec fn chosen_from(aliases: Seq<Seq<char>>, wanted: Seq<Seq<char>>) -> bool {
    forall|k: int| 0 <= k < wanted.len() ==> aliases.contains(#[trigger] wanted[k])
}

/// Whether a record left: whether fewer are there than before.
pub open spec fn shrunk(before: nat, after: nat) -> Modification {
    if after < before {
        Modification::Changed
    } else {
        Modification::Unchanged
    }
}

/// Whether one of `ids` goes by `alias`.
pub fn is_listed<I: IdRef>(ids: &[I], alias: &Id) -> (r: bool)
    ensures
        r == aliases_of(ids@).contains(alias@),
{
    let mut k: usize = 0;
    while k < ids.len()
        invariant
            k <= ids.len(),
            forall|j: int| 0 <= j < k ==> aliases_of(ids@)[j] != alias@,
        decreases ids.len() - k,
    {
        if ids[k].id().0 == alias.0 {
            proof {
                assert(aliases_of(ids@)[k as int] == alias@);
            }
            return true;
        }
        k += 1;
    }
    false
}

/// Removes from `data` every record that goes by one of `ids`. What stays
/// keeps its order.
pub fn do_delete<T: IdRef, I: IdRef>(data: &mut Vec<T>, ids: &[I]) -> (r: Modification)
    ensures
        final(data)@ == kept(old(data)@, aliases_of(ids@)),
        r == shrunk(old(data)@.len(), final(data)@.len()),
{
    let mut changed = Modification::Unchanged;
    let mut i: usize = 0;
    let ghost orig = data@;
    let ghost wanted = aliases_of(ids@);
    let ghost done: int = 0;
    proof {
        reveal(Seq::filter);
        assert(orig.take(0) =~= Seq::empty());
        assert(orig.skip(0) =~= orig);
        assert(data@ =~= kept(orig.take(0), wanted) + orig.skip(0));
    }
    while i != data.len()
        invariant
            orig == old(data)@,
            wanted == aliases_of(ids@),
            0 <= done <= orig.len(),
            i == kept(orig.take(done), wanted).len(),
            data@ == kept(orig.take(done), wanted) + orig.skip(done),
            changed == shrunk(done as nat, i as nat),
            i <= done,
        decreases orig.len() - done,
    {
        proof {
            reveal(Seq::filter);
            assert(orig.take(done + 1).drop_last() =~= orig.take(done));
            assert(orig.take(done + 1).last() == orig[done]);
            assert(data@[i as int] == orig[done]);
        }
        if is_listed(ids, data[i].id()) {
            let gone = data.remove(i);
            changed = Modification::Changed;
            proof {
                assert(data@ =~= kept(orig.take(done + 1), wanted) + orig.skip(done + 1));
            }
        } else {
            proof {
                assert(data@ =~= kept(orig.take(done + 1), wanted) + orig.skip(done + 1));
            }
            i += 1;
        }
        proof {
            done = done + 1;
        }
    }
    proof {
        assert(orig.take(done) =~= orig);
        assert(data@ =~= kept(orig, wanted));
    }
    changed
}

/// Taking the views of the navigators that stay is the same as letting the
/// views of those leave that go by a wanted alias.
proof fn lemma_kept_navigators(data: Seq<Navigator>, wanted: Seq<Seq<char>>)
    ensures
        navigators_view(kept(data, wanted)) == kept_navigators(navigators_view(data), wanted),
    decreases data.len(),
{
    reveal(Seq::filter);
    if data.len() == 0 {
        assert(navigators_view(kept(data, wanted)) =~= kept_navigators(
            navigators_view(data),
            wanted,
        ));
    } else {
        lemma_kept_navigators(data.drop_last(), wanted);
        assert(navigators_view(data).drop_last() =~= navigators_view(data.drop_last()));
        assert(navigators_view(data).last() == data.last()@);
        assert(navigators_view(kept(data, wanted)) =~= kept_navigators(
            navigators_view(data),
            wanted,
        ));
    }
}

/// Taking the views of the drivers that stay is the same as letting the
/// views of those leave that go by a wanted alias.
proof fn lemma_kept_drivers(data: Seq<Driver>, wanted: Seq<Seq<char>>)
    ensures
        drivers_view(kept(data, wanted)) == kept_drivers(drivers_view(data), wanted),
    decreases data.len(),
{
    reveal(Seq::filter);
    if data.len() == 0 {
        assert(drivers_view(kept(data, wanted)) =~= kept_drivers(drivers_view(data), wanted));
    } else {
        lemma_kept_drivers(data.drop_last(), wanted);
        assert(drivers_view(data).drop_last() =~= drivers_view(data.drop_last()));
        assert(drivers_view(data).last() == data.last()@);
        assert(drivers_view(kept(data, wanted)) =~= kept_drivers(drivers_view(data), wanted));
    }
}

/// What stays of records without a doubled alias has no doubled alias.
proof fn lemma_kept_distinct<A>(
    s: Seq<A>,
    pred: spec_fn(A) -> bool,
    alias: spec_fn(A) -> Seq<char>,
)
    requires
        forall|i: int, j: int| 0 <= i < j < s.len() ==> alias(s[i]) != alias(s[j]),
    ensures
        forall|i: int, j: int|
            0 <= i < j < s.filter(pred).len() ==> alias(s.filter(pred)[i]) != alias(
                s.filter(pred)[j],
            ),
        forall|i: int| 0 <= i < s.filter(pred).len() ==> s.contains(#[trigger] s.filter(pred)[i]),
    decreases s.len(),
{
    reveal(Seq::filter);
    if s.len() > 0 {
        let front = s.drop_last();
        assert forall|i: int, j: int| 0 <= i < j < front.len() implies alias(front[i]) != alias(
            front[j],
        ) by {
            assert(front[i] == s[i] && front[j] == s[j]);
        }
        lemma_kept_distinct(front, pred, alias);
        let kept = s.filter(pred);
        let before = front.filter(pred);
        assert forall|i: int| 0 <= i < kept.len() implies s.contains(#[trigger] kept[i]) by {
            if i < before.len() {
                assert(front.contains(before[i]));
                let k = choose|k: int| 0 <= k < front.len() && front[k] == before[i];
                assert(s[k] == kept[i]);
            } else {
                assert(kept[i] == s.last());
            }
        }
        assert forall|i: int, j: int| 0 <= i < j < kept.len() implies alias(kept[i]) != alias(
            kept[j],
        ) by {
            if j < before.len() {
                assert(kept[i] == before[i] && kept[j] == before[j]);
            } else {
                assert(kept[j] == s.last());
                assert(front.contains(before[i]));
                let k = choose|k: int| 0 <= k < front.len() && front[k] == before[i];
                assert(s[k] == kept[i]);
            }
        }
    }
}

/// A registry that is in order stays in order when records leave.
pub proof fn lemma_without_keeps_wf(c: ConfigView, kind: Kind, wanted: Seq<Seq<char>>)
    requires
        c.wf(),
    ensures
        without(c, kind, wanted).wf(),
{
    match kind {
        Kind::Navigator => {
            lemma_kept_distinct(
                c.navigators,
                |n: NavigatorView| !wanted.contains(n.alias),
                |n: NavigatorView| n.alias,
            );
        },
        Kind::Driver => {
            lemma_kept_distinct(
                c.drivers,
                |d: DriverView| !wanted.contains(d.navigator.alias),
                |d: DriverView| d.navigator.alias,
            );
            let kept = kept_drivers(c.drivers, wanted);
            assert forall|i: int| 0 <= i < kept.len() implies (#[trigger] kept[i]).wf() by {
                assert(c.drivers.contains(kept[i]));
            }
        },
    }
}

/// Removes from the registry every record of `kind` that goes by one of
/// `ids`: see [`without`]. Says whether any record left.
pub fn run<I: IdRef>(kind: Kind, config: &mut Config, ids: &[I]) -> (r: Modification)
    ensures
        final(config)@ == without(old(config)@, kind, aliases_of(ids@)),
        r == shrunk(old(config)@.aliases(kind).len(), final(config)@.aliases(kind).len()),
        old(config)@.wf() ==> final(config)@.wf(),
{
    proof {
        if config@.wf() {
            lemma_without_keeps_wf(config@, kind, aliases_of(ids@));
        }
        lemma_kept_navigators(config.navigators@, aliases_of(ids@));
        lemma_kept_drivers(config.drivers@, aliases_of(ids@));
    }
    match kind {
        Kind::Navigator => do_delete(&mut config.navigators, ids),
        Kind::Driver => do_delete(&mut config.drivers, ids),
    }
}

/// Lets the user choose records of `kind`, and removes those chosen.
///
/// Where there is no record of the kind the user is not asked, and nothing
/// changes. Where the interface fails the registry stays as it is. Otherwise
/// the records leave that go by the aliases chosen, which are aliases of the
/// registry, as [`without`] says, and the result says whether any did.
pub fn select<U: SelectMany>(ui: U, kind: Kind, config: &mut Config) -> (r: Result<
    Modification,
    UiError,
>)
    ensures
        old(config)@.aliases(kind).len() == 0 ==> r == Ok::<Modification, UiError>(
            Modification::Unchanged,
        ) && final(config)@ == old(config)@,
        r is Err ==> final(config)@ == old(config)@,
        r matches Ok(m) ==> m == shrunk(
            old(config)@.aliases(kind).len(),
            final(config)@.aliases(kind).len(),
        ) && exists|wanted: Seq<Seq<char>>|
            chosen_from(old(config)@.aliases(kind), wanted) && final(config)@ == without(
                old(config)@,
                kind,
                wanted,
            ),
        old(config)@.wf() ==> final(config)@.wf(),
{
    let ghost before = config@;
    let none: Vec<Id> = Vec::new();
    let chosen = match select_ids_from(ui, kind, config, none.as_slice()) {
        Ok(ids) => {
            let mut owned: Vec<Id> = Vec::new();
            let mut k: usize = 0;
            while k < ids.len()
                invariant
                    k <= ids.len(),
                    owned@.len() == k,
                    forall|j: int| 0 <= j < k ==> (#[trigger] owned@[j])@ == ids@[j]@,
                decreases ids.len() - k,
            {
                owned.push(ids[k].clone());
                k += 1;
            }
            proof {
                assert forall|j: int| 0 <= j < owned@.len() implies before.aliases(kind).contains(
                    #[trigger] aliases_of(owned@)[j],
                ) by {
                    assert(aliases_of(owned@)[j] == owned@[j]@);
                    assert(before.aliases(kind).contains(ids@[j]@));
                }
            }
            owned
        },
        Err(e) => {
            return Err(e);
        },
    };
    let m = run(kind, config, chosen.as_slice());
    proof {
        assert(chosen_from(before.aliases(kind), aliases_of(chosen@)));
        if before.aliases(kind).len() == 0 {
            reveal(Seq::filter);
            assert(before.navigators.len() == before.navigator_aliases().len());
            assert(before.drivers.len() == before.driver_aliases().len());
            assert(config@.navigators =~= before.navigators);
            assert(config@.drivers =~= before.drivers);
        }
    }
    Ok(m)
}

} // verus!
