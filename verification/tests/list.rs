use git_drive::config::Config;
use git_drive::data::{Driver, Id, Kind, Navigator};
use git_drive::list::{format_nav, list};

fn nav1() -> Navigator {
    Navigator {
        alias: Id::from("nav1"),
        name: String::from("bernd"),
        email: String::from("foo@bar.org"),
    }
}

fn nav2() -> Navigator {
    Navigator {
        alias: Id::from("nav2"),
        name: String::from("ronny"),
        email: String::from("baz@bar.org"),
    }
}

fn drv1(key: Option<&'static str>) -> Driver {
    Driver {
        navigator: Navigator {
            alias: Id::from("drv1"),
            name: String::from("ralle"),
            email: String::from("qux@bar.org"),
        },
        key: key.map(String::from),
    }
}

#[test]
fn list_list_navigators() {
    let config = Config::from_entities(vec![nav1().ent(), nav2().ent(), drv1(None).ent()]);
    let lines = list(Kind::Navigator, &config);
    assert_eq!(
        lines,
        vec!["nav1: bernd <foo@bar.org>", "nav2: ronny <baz@bar.org>"]
    );
}

#[test]
fn list_list_drivers() {
    let config = Config::from_entities(vec![nav1().ent(), nav2().ent(), drv1(None).ent()]);
    let lines = list(Kind::Driver, &config);
    assert_eq!(lines, vec!["drv1: ralle <qux@bar.org>"]);
}

#[test]
fn list_of_nothing_is_empty() {
    assert!(list(Kind::Navigator, &Config::default()).is_empty());
    assert!(list(Kind::Driver, &Config::default()).is_empty());
}

#[test]
fn format_shows_alias_name_and_address() {
    assert_eq!(format_nav(&drv1(Some("k")).navigator), "drv1: ralle <qux@bar.org>");
}
