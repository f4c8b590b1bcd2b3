//! Listing the records of the registry.

use crate::config::{Config, ConfigView};
use crate::data::{Kind, Navigator, NavigatorView};
use crate::text::push_str;
use vstd::prelude::*;

verus! {

/// The line that shows a navigator: `alias: name <email>`.
pub open spec fn nav_line(n: NavigatorView) -> Seq<char> {
    n.alias + ": "@ + n.name + " <"@ + n.email + ">"@
}

/// The line that shows `nav`: see [`nav_line`].
pub fn format_nav(nav: &Navigator) -> (r: String)
    ensures
        r@ == nav_line(nav@),
{
    let mut r = String::new();
    push_str(&mut r, nav.alias.as_str());
    push_str(&mut r, ": ");
    push_str(&mut r, nav.name.as_str());
    push_str(&mut r, " <");
    push_str(&mut r, nav.email.as_str());
    push_str(&mut r, ">");
    proof {
        assert(r@ =~= nav_line(nav@));
    }
    r
}

/// The navigators that the records of a kind show as: the navigators
/// themselves, or the navigator of each driver.
pub open spec fn shown(c: ConfigView, kind: Kind) -> Seq<NavigatorView> {
    match kind {
        Kind::Navigator => c.navigators,
        Kind::Driver => c.drivers.map_values(|d: crate::data::DriverView| d.navigator),
    }
}

/// The lines of a list: one for each record, in their order.
pub open spec fn lines_for(navigators: Seq<NavigatorView>) -> Seq<Seq<char>> {
    navigators.map_values(|n: NavigatorView| nav_line(n))
}

/// The list of the records of `kind`: one line for each, in the order of
/// the registry.
pub fn list(kind: Kind, config: &Config) -> (r: Vec<String>)
    ensures
        crate::drive::strings_view(r@) == lines_for(shown(config@, kind)),
{
    let mut out: Vec<String> = Vec::new();
    let ghost all = shown(config@, kind);
    match kind {
        Kind::Navigator => {
            let mut i: usize = 0;
            while i < config.navigators.len()
                invariant
                    i <= config.navigators.len(),
                    all == config@.navigators,
                    crate::drive::strings_view(out@) =~= lines_for(all.take(i as int)),
                decreases config.navigators.len() - i,
            {
                let ghost before = out@;
                let line = format_nav(&config.navigators[i]);
                out.push(line);
                proof {
                    assert(crate::drive::strings_view(out@) =~= crate::drive::strings_view(
                        before,
                    ).push(line@));
                    assert(lines_for(all.take(i + 1)) =~= lines_for(all.take(i as int)).push(
                        nav_line(all[i as int]),
                    ));
                }
                i += 1;
            }
            proof {
                assert(all.take(i as int) =~= all);
            }
        },
        Kind::Driver => {
            let mut i: usize = 0;
            while i < config.drivers.len()
                invariant
                    i <= config.drivers.len(),
                    all == shown(config@, Kind::Driver),
                    crate::drive::strings_view(out@) =~= lines_for(all.take(i as int)),
                decreases config.drivers.len() - i,
            {
                let ghost before = out@;
                let line = format_nav(&config.drivers[i].navigator);
                out.push(line);
                proof {
                    assert(crate::drive::strings_view(out@) =~= crate::drive::strings_view(
                        before,
                    ).push(line@));
                    assert(lines_for(all.take(i + 1)) =~= lines_for(all.take(i as int)).push(
                        nav_line(all[i as int]),
                    ));
                }
                i += 1;
            }
            proof {
                assert(all.take(i as int) =~= all);
            }
        },
    }
    out
}

} // verus!
