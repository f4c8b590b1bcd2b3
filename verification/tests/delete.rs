use git_drive::config::Config;
use git_drive::data::{Driver, Id, Kind, Modification, Navigator};
use git_drive::delete::{do_delete, run, select};
use git_drive::ui::{SelectMany, Selectable, UiError};

fn nav1() -> Navigator {
    Navigator {
        alias: Id::from("nav1"),
        name: String::from("bernd"),
        email: String::from("foo@bar.org"),
    }
}

fn nav2() -> Navigator {
    Navigator {
        alias: Id::from("nav2"),
        name: String::from("ronny"),
        email: String::from("baz@bar.org"),
    }
}

fn drv1(key: Option<&'static str>) -> Driver {
    Driver {
        navigator: Navigator {
            alias: Id::from("drv1"),
            name: String::from("ralle"),
            email: String::from("qux@bar.org"),
        },
        key: key.map(String::from),
    }
}

#[derive(Copy, Clone)]
struct SelectManyFn<F>(F);

impl<F> SelectMany for SelectManyFn<F>
where
    F: FnMut(Kind, &[Selectable<'_>]) -> Result<Vec<usize>, UiError>,
{
    fn select_many(&mut self, kind: Kind, items: &[Selectable<'_>]) -> Result<Vec<usize>, UiError> {
        (self.0)(kind, items)
    }
}

fn select_many<F>(f: F) -> SelectManyFn<F>
where
    F: FnMut(Kind, &[Selectable<'_>]) -> Result<Vec<usize>, UiError>,
{
    SelectManyFn(f)
}

#[derive(Copy, Clone)]
struct NoUi;

impl SelectMany for NoUi {
    fn select_many(&mut self, kind: Kind, items: &[Selectable<'_>]) -> Result<Vec<usize>, UiError> {
        panic!(
            "Unexpected call to select_many kind={} items={:?}",
            kind.to_string(),
            items
        )
    }
}

#[test]
fn test_delete_existing() {
    let mut config = Config::from_entities(vec![nav1().ent(), nav2().ent(), drv1(None).ent()]);
    let modified = run(Kind::Navigator, &mut config, &[Id::from("nav1")]);
    assert_eq!(modified, Modification::Changed);
    assert_eq!(&config.navigators, &[nav2()]);
    assert_eq!(&config.drivers, &[drv1(None)]);
}

#[test]
fn test_delete_non_existing() {
    let mut config = Config::from_entities(vec![nav1().ent(), nav2().ent(), drv1(None).ent()]);
    let modified = run(Kind::Navigator, &mut config, &[Id::from("non existing")]);
    assert_eq!(modified, Modification::Unchanged);
    assert_eq!(&config.navigators, &[nav1(), nav2()]);
    assert_eq!(&config.drivers, &[drv1(None)]);
}

#[test]
fn test_delete_from_empty_config() {
    let mut config = Config::default();
    let modified = select(NoUi, Kind::Navigator, &mut config).unwrap();
    assert_eq!(modified, Modification::Unchanged);
    assert_eq!(&config.navigators, &[]);
    assert_eq!(&config.drivers, &[]);
}

#[test]
fn test_delete_from_empty_selection() {
    let ui = select_many(|kind, items| {
        assert_eq!(kind, Kind::Navigator);
        assert_eq!(
            items,
            &[
                Selectable {
                    item: "nav1",
                    checked: false
                },
                Selectable {
                    item: "nav2",
                    checked: false
                }
            ]
        );
        Ok(Vec::new())
    });
    let mut config = Config::from_entities(vec![nav1().ent(), nav2().ent(), drv1(None).ent()]);
    let modified = select(ui, Kind::Navigator, &mut config).unwrap();
    assert_eq!(modified, Modification::Unchanged);
    assert_eq!(&config.navigators, &[nav1(), nav2()]);
    assert_eq!(&config.drivers, &[drv1(None)]);
}

#[test]
fn test_delete_from_single_selection() {
    let ui = select_many(|kind, items| {
        assert_eq!(kind, Kind::Navigator);
        assert_eq!(
            items,
            &[
                Selectable {
                    item: "nav1",
                    checked: false
                },
                Selectable {
                    item: "nav2",
                    checked: false
                }
            ]
        );
        Ok(vec![0])
    });
    let mut config = Config::from_entities(vec![nav1().ent(), nav2().ent(), drv1(None).ent()]);
    let modified = select(ui, Kind::Navigator, &mut config).unwrap();
    assert_eq!(modified, Modification::Changed);
    assert_eq!(&config.navigators, &[nav2()]);
    assert_eq!(&config.drivers, &[drv1(None)]);
}

#[test]
fn test_delete_driver_from_single_selection() {
    let ui = select_many(|kind, items| {
        assert_eq!(kind, Kind::Driver);
        assert_eq!(
            items,
            &[Selectable {
                item: "drv1",
                checked: false
            },]
        );
        Ok(vec![0])
    });
    let mut config = Config::from_entities(vec![nav1().ent(), nav2().ent(), drv1(None).ent()]);
    let modified = select(ui, Kind::Driver, &mut config).unwrap();
    assert_eq!(modified, Modification::Changed);
    assert_eq!(&config.navigators, &[nav1(), nav2()]);
    assert_eq!(&config.drivers, &[]);
}

#[test]
fn test_delete_from_multiple_selection() {
    let ui = select_many(|kind, items| {
        assert_eq!(kind, Kind::Navigator);
        assert_eq!(
            items,
            &[
                Selectable {
                    item: "nav1",
                    checked: false
                },
                Selectable {
                    item: "nav2",
                    checked: false
                }
            ]
        );
        Ok(vec![0, 1])
    });
    let mut config = Config::from_entities(vec![nav1().ent(), nav2().ent(), drv1(None).ent()]);
    let modified = select(ui, Kind::Navigator, &mut config).unwrap();
    assert_eq!(modified, Modification::Changed);
    assert_eq!(&config.navigators, &[]);
    assert_eq!(&config.drivers, &[drv1(None)]);
}

#[test]
fn test_delete_from_multiple_out_of_order_selection() {
    let ui = select_many(|kind, items| {
        assert_eq!(kind, Kind::Navigator);
        assert_eq!(
            items,
            &[
                Selectable {
                    item: "nav1",
                    checked: false
                },
                Selectable {
                    item: "nav2",
                    checked: false
                }
            ]
        );
        Ok(vec![1, 0])
    });
    let mut config = Config::from_entities(vec![nav1().ent(), nav2().ent(), drv1(None).ent()]);
    let modified = select(ui, Kind::Navigator, &mut config).unwrap();
    assert_eq!(modified, Modification::Changed);
    assert_eq!(&config.navigators, &[]);
    assert_eq!(&config.drivers, &[drv1(None)]);
}

#[test]
fn delete_keeps_the_order_of_what_stays() {
    let third = Navigator {
        alias: Id::from("nav3"),
        name: String::from("n"),
        email: String::from("e"),
    };
    let mut config = Config::from_navigators(vec![nav1(), nav2(), third.clone(), nav2()]);
    let modified = do_delete(&mut config.navigators, &[nav2()]);
    assert_eq!(modified, Modification::Changed);
    assert_eq!(config.navigators, vec![nav1(), third]);
}

#[test]
fn delete_takes_records_by_any_kind_of_reference() {
    let mut config = Config::from_entities(vec![nav1().ent(), drv1(None).ent()]);
    let wanted = Id::from("drv1");
    let modified = run(Kind::Driver, &mut config, &[&wanted]);
    assert_eq!(modified, Modification::Changed);
    assert!(config.drivers.is_empty());
    let modified = run(Kind::Navigator, &mut config, &[drv1(None)]);
    assert_eq!(modified, Modification::Unchanged);
    assert_eq!(config.navigators, vec![nav1()]);
}

#[test]
fn failing_selection_leaves_the_registry_alone() {
    let ui = select_many(|_, _| {
        Err(UiError::Failed {
            reason: String::from("gone"),
        })
    });
    let mut config = Config::from_navigators(vec![nav1()]);
    let err = select(ui, Kind::Navigator, &mut config).unwrap_err();
    assert_eq!(err.to_string(), "gone");
    assert_eq!(config.navigators, vec![nav1()]);
}
