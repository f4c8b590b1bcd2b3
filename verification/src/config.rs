//! The registry as a whole, and the decisions around loading and storing it.

use crate::data::{Driver, DriverView, Kind, Navigator, NavigatorView};
use vstd::prelude::*;

pub mod json;
pub mod record;
pub mod round_trip;
pub mod store;
pub mod trailer;

verus! {

/// What a [`Config`] holds.
pub ghost struct ConfigView {
    pub navigators: Seq<NavigatorView>,
    pub drivers: Seq<DriverView>,
}

impl ConfigView {
    /// The registry without any record.
    pub open spec fn empty() -> ConfigView {
        ConfigView { navigators: Seq::empty(), drivers: Seq::empty() }
    }

    /// No driver holds an empty key.
    pub open spec fn keys_in_order(self) -> bool {
        forall|i: int| 0 <= i < self.drivers.len() ==> (#[trigger] self.drivers[i]).wf()
    }

    /// No two navigators share an alias, no two drivers share an alias, and
    /// no driver holds an empty key.
    pub open spec fn wf(self) -> bool {
        &&& forall|i: int, j: int|
            0 <= i < j < self.navigators.len() ==> self.navigators[i].alias
                != self.navigators[j].alias
        &&& forall|i: int, j: int|
            0 <= i < j < self.drivers.len() ==> self.drivers[i].navigator.alias
                != self.drivers[j].navigator.alias
        &&& self.keys_in_order()
    }
}

/// The least index from `i` on at which `id` stands among `aliases`, if
/// there is one.
pub open spec fn position_from(aliases: Seq<Seq<char>>, id: Seq<char>, i: int) -> Option<int>
    decreases aliases.len() - i,
{
    if i < 0 || i >= aliases.len() {
        None
    } else if aliases[i] == id {
        Some(i)
    } else {
        position_from(aliases, id, i + 1)
    }
}

/// The least index at which `id` stands among `aliases`, if there is one.
pub open spec fn position(aliases: Seq<Seq<char>>, id: Seq<char>) -> Option<int> {
    position_from(aliases, id, 0)
}

/// What `position_from` returns is the first place of `id`, and `None`
/// means that `id` is nowhere from `i` on.
pub proof fn lemma_position_from(aliases: Seq<Seq<char>>, id: Seq<char>, i: int)
    requires
        0 <= i,
    ensures
        match position_from(aliases, id, i) {
            Some(j) => i <= j < aliases.len() && aliases[j] == id && forall|k: int|
                i <= k < j ==> aliases[k] != id,
            None => forall|k: int| i <= k < aliases.len() ==> aliases[k] != id,
        },
    decreases aliases.len() - i,
{
    if i < aliases.len() && aliases[i] != id {
        lemma_position_from(aliases, id, i + 1);
    }
}

impl ConfigView {
    /// The aliases of the navigators, in their order.
    pub open spec fn navigator_aliases(self) -> Seq<Seq<char>> {
        self.navigators.map_values(|n: NavigatorView| n.alias)
    }

    /// The aliases of the drivers, in their order.
    pub open spec fn driver_aliases(self) -> Seq<Seq<char>> {
        self.drivers.map_values(|d: DriverView| d.navigator.alias)
    }

    /// The aliases of the records of a kind, in their order.
    pub open spec fn aliases(self, kind: Kind) -> Seq<Seq<char>> {
        match kind {
            Kind::Navigator => self.navigator_aliases(),
            Kind::Driver => self.driver_aliases(),
        }
    }
}

/// What each navigator of `v` holds.
pub open spec fn navigators_view(v: Seq<Navigator>) -> Seq<NavigatorView> {
    v.map_values(|n: Navigator| n@)
}

/// What each driver of `v` holds.
pub open spec fn drivers_view(v: Seq<Driver>) -> Seq<DriverView> {
    v.map_values(|d: Driver| d@)
}

/// The registry: the navigators and the drivers, each in the order in which
/// they were added.
#[derive(Clone, Debug, PartialEq, Eq)]
pub struct Config {
    pub navigators: Vec<Navigator>,
    pub drivers: Vec<Driver>,
}

impl View for Config {
    type V = ConfigView;

    open spec fn view(&self) -> ConfigView {
        ConfigView {
            navigators: navigators_view(self.navigators@),
            drivers: drivers_view(self.drivers@),
        }
    }
}

impl Default for Config {
    fn default() -> (r: Self)
        ensures
            r@ == ConfigView::empty(),
    {
        let r = Config { navigators: Vec::new(), drivers: Vec::new() };
        proof {
            assert(r@.navigators =~= Seq::empty());
            assert(r@.drivers =~= Seq::empty());
        }
        r
    }
}

/// A record of either kind.
#[derive(Clone, Debug)]
pub enum Entity {
    Nav(Navigator),
    Drv(Driver),
}

impl Navigator {
    /// This navigator as a record of either kind.
    pub fn ent(self) -> (r: Entity)
        ensures
            r == Entity::Nav(self),
    {
        Entity::Nav(self)
    }
}

impl Driver {
    /// This driver as a record of either kind.
    pub fn ent(self) -> (r: Entity)
        ensures
            r == Entity::Drv(self),
    {
        Entity::Drv(self)
    }
}

/// The navigators among `items`, in their order.
pub open spec fn navigators_among(items: Seq<Entity>) -> Seq<NavigatorView>
    decreases items.len(),
{
    if items.len() == 0 {
        Seq::empty()
    } else {
        match items.last() {
            Entity::Nav(n) => navigators_among(items.drop_last()).push(n@),
            Entity::Drv(_) => navigators_among(items.drop_last()),
        }
    }
}

/// The drivers among `items`, in their order.
pub open spec fn drivers_among(items: Seq<Entity>) -> Seq<DriverView>
    decreases items.len(),
{
    if items.len() == 0 {
        Seq::empty()
    } else {
        match items.last() {
            Entity::Nav(_) => drivers_among(items.drop_last()),
            Entity::Drv(d) => drivers_among(items.drop_last()).push(d@),
        }
    }
}

impl Config {
    /// The invariant of a registry: see [`ConfigView::wf`].
    pub open spec fn wf(&self) -> bool {
        self@.wf()
    }

    /// Where the first navigator with the alias `id` stands.
    pub fn find_navigator(&self, id: &str) -> (r: Option<usize>)
        ensures
            match r {
                Some(i) => position(self@.navigator_aliases(), id@) == Some(i as int) && i
                    < self.navigators@.len(),
                None => position(self@.navigator_aliases(), id@) is None,
            },
    {
        let ghost aliases = self@.navigator_aliases();
        let wanted = id.to_owned();
        let mut i: usize = 0;
        while i < self.navigators.len()
            invariant
                i <= self.navigators.len(),
                aliases == self@.navigator_aliases(),
                wanted@ == id@,
                position(aliases, id@) == position_from(aliases, id@, i as int),
            decreases self.navigators.len() - i,
        {
            if self.navigators[i].alias.0 == wanted {
                return Some(i);
            }
            i += 1;
        }
        None
    }

    /// Where the first driver with the alias `id` stands.
    pub fn find_driver(&self, id: &str) -> (r: Option<usize>)
        ensures
            match r {
                Some(i) => position(self@.driver_aliases(), id@) == Some(i as int) && i
                    < self.drivers@.len(),
                None => position(self@.driver_aliases(), id@) is None,
            },
    {
        let ghost aliases = self@.driver_aliases();
        let wanted = id.to_owned();
        let mut i: usize = 0;
        while i < self.drivers.len()
            invariant
                i <= self.drivers.len(),
                aliases == self@.driver_aliases(),
                wanted@ == id@,
                position(aliases, id@) == position_from(aliases, id@, i as int),
            decreases self.drivers.len() - i,
        {
            if self.drivers[i].navigator.alias.0 == wanted {
                return Some(i);
            }
            i += 1;
        }
        None
    }

    /// The registry of these navigators and no driver.
    pub fn from_navigators(navigators: Vec<Navigator>) -> (r: Self)
        ensures
            r@.navigators == navigators_view(navigators@),
            r@.drivers == Seq::<DriverView>::empty(),
    {
        let r = Config { navigators, drivers: Vec::new() };
        proof {
            assert(r@.drivers =~= Seq::empty());
        }
        r
    }

    /// The registry of these drivers and no navigator.
    pub fn from_drivers(drivers: Vec<Driver>) -> (r: Self)
        ensures
            r@.navigators == Seq::<NavigatorView>::empty(),
            r@.drivers == drivers_view(drivers@),
    {
        let r = Config { navigators: Vec::new(), drivers };
        proof {
            assert(r@.navigators =~= Seq::empty());
        }
        r
    }

    /// The registry of these records: the navigators among them, and the
    /// drivers among them.
    pub fn from_entities(items: Vec<Entity>) -> (r: Self)
        ensures
            r@.navigators == navigators_among(items@),
            r@.drivers == drivers_among(items@),
    {
        let mut navigators: Vec<Navigator> = Vec::new();
        let mut drivers: Vec<Driver> = Vec::new();
        let mut i: usize = 0;
        proof {
            assert(items@.take(0) =~= Seq::empty());
            assert(navigators_view(navigators@) =~= Seq::empty());
            assert(drivers_view(drivers@) =~= Seq::empty());
        }
        while i < items.len()
            invariant
                i <= items.len(),
                navigators_view(navigators@) == navigators_among(items@.take(i as int)),
                drivers_view(drivers@) == drivers_among(items@.take(i as int)),
            decreases items.len() - i,
        {
            proof {
                assert(items@.take(i + 1).drop_last() =~= items@.take(i as int));
            }
            let ghost old_navs = navigators@;
            let ghost old_drvs = drivers@;
            match &items[i] {
                Entity::Nav(n) => {
                    navigators.push(n.clone());
                    proof {
                        assert(navigators_view(navigators@) =~= navigators_view(old_navs).push(n@));
                    }
                },
                Entity::Drv(d) => {
                    drivers.push(d.clone());
                    proof {
                        assert(drivers_view(drivers@) =~= drivers_view(old_drvs).push(d@));
                    }
                },
            }
            i += 1;
        }
        proof {
            assert(items@.take(i as int) =~= items@);
        }
        Config { navigators, drivers }
    }
}

} // verus!
