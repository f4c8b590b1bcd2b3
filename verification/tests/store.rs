use git_drive::config::json::JsonError;
use git_drive::config::record::{deserialize_config, ParseError};
use git_drive::config::store::{
    config_file_in, load, read_failure, store, store_in, store_to, try_find, write_failure,
    AfterWrite, Attempt, ConfigFile, LoadError, Loaded, Locate, LocateError, Mode, Probe, Source,
    StoreError, Which, APPLICATION, CONFIG_FILE, OLD_CONFIG_FILE,
};
use git_drive::config::Config;
use git_drive::data::{Driver, Id, Navigator};

fn found(file: ConfigFile) -> Locate {
    Locate::Found { file }
}

#[test]
fn find_config_file_for_reading_in_empty_dir() {
    let cfg = config_file_in(Mode::Read, Some(Probe::NotFound), Some(Probe::NotFound));
    assert_eq!(cfg, found(ConfigFile::Missing));
}

#[test]
fn find_old_config_file_for_reading_in_dir_with_json_file() {
    let cfg = config_file_in(Mode::Read, Some(Probe::NotFound), Some(Probe::File));
    assert_eq!(cfg, found(ConfigFile::Old));
}

#[test]
fn find_new_config_file_for_reading_in_dir_with_config_file() {
    let cfg = config_file_in(Mode::Read, Some(Probe::File), Some(Probe::NotFound));
    assert_eq!(cfg, found(ConfigFile::New));
}

#[test]
fn find_new_config_file_for_reading_in_dir_with_both_files() {
    let cfg = config_file_in(Mode::Read, Some(Probe::File), Some(Probe::File));
    assert_eq!(cfg, found(ConfigFile::New));
}

#[test]
fn find_new_config_file_for_writing_in_empty_dir() {
    let cfg = config_file_in(Mode::Write, Some(Probe::NotFound), Some(Probe::NotFound));
    assert_eq!(cfg, found(ConfigFile::New));
}

#[test]
fn find_new_config_file_for_writing_in_dir_with_json_file() {
    let cfg = config_file_in(Mode::Write, Some(Probe::NotFound), Some(Probe::File));
    assert_eq!(cfg, found(ConfigFile::New));
}

#[test]
fn find_new_config_file_for_writing_in_dir_with_config_file() {
    let cfg = config_file_in(Mode::Write, Some(Probe::File), Some(Probe::NotFound));
    assert_eq!(cfg, found(ConfigFile::New));
}

#[test]
fn find_new_config_file_for_writing_in_dir_with_both_files() {
    let cfg = config_file_in(Mode::Write, Some(Probe::File), Some(Probe::File));
    assert_eq!(cfg, found(ConfigFile::New));
}

#[test]
fn files_are_looked_at_one_after_the_other() {
    assert_eq!(
        config_file_in(Mode::Read, None, None),
        Locate::Look {
            which: Which::Primary
        }
    );
    assert_eq!(
        config_file_in(Mode::Read, Some(Probe::NotFound), None),
        Locate::Look {
            which: Which::Legacy
        }
    );
    assert_eq!(
        config_file_in(Mode::Read, Some(Probe::File), None),
        found(ConfigFile::New)
    );
    assert_eq!(config_file_in(Mode::Write, None, None), found(ConfigFile::New));
}

#[test]
fn what_is_no_file_is_an_error() {
    assert_eq!(
        config_file_in(Mode::Read, Some(Probe::NotAFile), Some(Probe::File)),
        Locate::Fail {
            error: LocateError::NotAFile {
                which: Which::Primary
            }
        }
    );
    assert_eq!(
        config_file_in(Mode::Read, Some(Probe::NotFound), Some(Probe::NotAFile)),
        Locate::Fail {
            error: LocateError::NotAFile {
                which: Which::Legacy
            }
        }
    );
    assert_eq!(
        config_file_in(Mode::Read, Some(Probe::Failed), None),
        Locate::Fail {
            error: LocateError::Unreadable {
                which: Which::Primary
            }
        }
    );
    assert_eq!(
        config_file_in(Mode::Read, Some(Probe::NotFound), Some(Probe::Failed)),
        Locate::Fail {
            error: LocateError::Unreadable {
                which: Which::Legacy
            }
        }
    );
    assert_eq!(try_find(Which::Legacy, Probe::NotFound), None);
    assert_eq!(try_find(Which::Legacy, Probe::File), Some(found(ConfigFile::Old)));
}

#[test]
fn file_names_are_those_of_the_program() {
    assert_eq!(APPLICATION, "git-drive");
    assert_eq!(CONFIG_FILE, "git-drive_config.gitdrive");
    assert_eq!(OLD_CONFIG_FILE, "git-drive_config.json");
}

fn legacy() -> &'static str {
    r#"{"navigators":[{"alias":"nav1","name":"bernd","email":"foo@bar.org"}],
        "drivers":[{"alias":"drv1","name":"ralle","email":"qux@bar.org","key":"k.pub"}]}"#
}

fn migrated() -> Config {
    Config {
        navigators: vec![Navigator {
            alias: Id::from("nav1"),
            name: String::from("bernd"),
            email: String::from("foo@bar.org"),
        }],
        drivers: vec![Driver {
            navigator: Navigator {
                alias: Id::from("drv1"),
                name: String::from("ralle"),
                email: String::from("qux@bar.org"),
            },
            key: Some(String::from("k.pub")),
        }],
    }
}

#[test]
fn loading_without_a_file_gives_the_empty_registry() {
    assert_eq!(
        load(Source::Missing),
        Ok(Loaded {
            config: Config::default(),
            migrate: None
        })
    );
}

#[test]
fn loading_the_older_format_migrates_once() {
    let first = load(Source::Old(String::from(legacy()))).unwrap();
    assert_eq!(first.config, migrated());
    let text = first.migrate.unwrap();
    assert_eq!(
        text,
        "version: 1\nnavigator: nav1\nCo-Authored-By: bernd <foo@bar.org>\ndriver: drv1\nkey: k.pub\nCo-Authored-By: ralle <qux@bar.org>\n"
    );
    let second = load(Source::New(text)).unwrap();
    assert_eq!(
        second,
        Loaded {
            config: migrated(),
            migrate: None
        }
    );
}

#[test]
fn loading_passes_errors_of_either_format_on() {
    let err = load(Source::New(String::from("version: 3"))).unwrap_err();
    assert_eq!(
        err,
        LoadError::Record(ParseError::UnknownVersion {
            version: String::from("3")
        })
    );
    assert_eq!(err.to_string(), "Unknown version: 3.");
    let err = load(Source::Old(String::from("version: 1\n"))).unwrap_err();
    assert_eq!(err, LoadError::Json(JsonError { position: 0 }));
    assert_eq!(
        err.to_string(),
        "The legacy config is malformed at character 0."
    );
    assert!(load(Source::New(String::from(legacy()))).is_err());
}

#[test]
fn storing_writes_the_whole_registry() {
    let config = migrated();
    let write = store(&config, ConfigFile::New).unwrap();
    assert!(write.create_parent);
    assert_eq!(deserialize_config(&write.content).unwrap(), config);
    assert_eq!(store(&config, ConfigFile::Old).unwrap(), write);
    assert_eq!(store_in(&config), write);
    let err = store(&config, ConfigFile::Missing).unwrap_err();
    assert_eq!(err, StoreError::NoDirectory);
    assert_eq!(
        err.to_string(),
        "The configuration directoy could not be found"
    );
}

#[test]
fn only_a_missing_directory_is_mended_and_only_once() {
    assert_eq!(store_to(Attempt::Written, true), AfterWrite::Done);
    assert_eq!(store_to(Attempt::Written, false), AfterWrite::Done);
    assert_eq!(
        store_to(Attempt::NotFound, true),
        AfterWrite::CreateParentAndRetry
    );
    assert_eq!(
        store_to(Attempt::NotFound, false),
        AfterWrite::Fail {
            error: StoreError::Failed
        }
    );
    for create_parent in [true, false] {
        assert_eq!(
            store_to(Attempt::PermissionDenied, create_parent),
            AfterWrite::Fail {
                error: StoreError::NoPermission
            }
        );
        assert_eq!(
            store_to(Attempt::Failed, create_parent),
            AfterWrite::Fail {
                error: StoreError::Failed
            }
        );
    }
    assert_eq!(
        StoreError::NoPermission.to_string(),
        "No permission to write to the file"
    );
    assert_eq!(
        StoreError::Failed.to_string(),
        "Could not write the configuration file"
    );
}

#[test]
fn failures_name_the_file() {
    assert_eq!(
        read_failure("/x/y"),
        "The file `/x/y` could not be read.\nPlease make sure that the config file is accessible and is properly formatted."
    );
    assert_eq!(
        write_failure("/x/y", "version: 1\n"),
        "The file `/x/y` could not be written.\nPlease make sure that the config file is accessible and writable.\nFile content:\nversion: 1\n"
    );
}
