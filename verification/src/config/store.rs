//! Where the registry is kept, and the decisions around reading and
//! writing it. The files themselves are touched by the caller: what is found
//! there comes in as plain values, and what is to be done goes out as such.

use crate::config::json::{deserialize_config_json, parse_json, JsonError};
use crate::config::record::{
    config_text, deserialize_config, parse_config, serialize_config, ParseError, ParseErrorView,
};
use crate::config::round_trip::{lemma_round_trip, round_trips};
use crate::config::{Config, ConfigView};
use crate::text::push_str;
use vstd::prelude::*;

verus! {

/// The name under which the program keeps its files.
pub const APPLICATION: &'static str = "git-drive";

/// The name of the file in the current format.
pub const CONFIG_FILE: &'static str = "git-drive_config.gitdrive";

/// The name of the file in the older, JSON-encoded format.
pub const OLD_CONFIG_FILE: &'static str = "git-drive_config.json";

/// What the registry is located for.
#[derive(Clone, Copy, Debug, PartialEq, Eq, Structural)]
pub enum Mode {
    Read,
    Write,
}

/// One of the two files.
#[derive(Clone, Copy, Debug, PartialEq, Eq, Structural)]
pub enum Which {
    /// The file in the current format.
    Primary,
    /// The file in the older format.
    Legacy,
}

/// What was found at the path of a file.
#[derive(Clone, Copy, Debug, PartialEq, Eq, Structural)]
pub enum Probe {
    /// A regular file.
    File,
    /// Something that is no regular file, such as a directory.
    NotAFile,
    /// Nothing.
    NotFound,
    /// The path could not be looked at.
    Failed,
}

/// Which file holds the registry.
#[derive(Clone, Copy, Debug, PartialEq, Eq, Structural)]
pub enum ConfigFile {
    /// The file in the current format.
    New,
    /// The file in the older format.
    Old,
    /// Neither: there is no registry yet.
    Missing,
}

/// Why the registry could not be located.
#[derive(Clone, Copy, Debug, PartialEq, Eq, Structural)]
pub enum LocateError {
    /// What stands at the path of the file is no regular file.
    NotAFile { which: Which },
    /// The path of the file could not be looked at.
    Unreadable { which: Which },
}

/// The next step in locating the registry.
#[derive(Clone, Copy, Debug, PartialEq, Eq, Structural)]
pub enum Locate {
    /// Look at the path of this file, and come back with what is there.
    Look { which: Which },
    /// This is the file.
    Found { file: ConfigFile },
    /// The registry cannot be located.
    Fail { error: LocateError },
}

/// What a look at the path of a file comes to, where the file was found or
/// the look went wrong; nothing where there is nothing at the path.
pub open spec fn settled(which: Which, probe: Probe) -> Option<Locate> {
    match probe {
        Probe::File => Some(
            Locate::Found {
                file: match which {
                    Which::Primary => ConfigFile::New,
                    Which::Legacy => ConfigFile::Old,
                },
            },
        ),
        Probe::NotAFile => Some(Locate::Fail { error: LocateError::NotAFile { which } }),
        Probe::Failed => Some(Locate::Fail { error: LocateError::Unreadable { which } }),
        Probe::NotFound => None,
    }
}

/// The next step in locating the registry, given what is known so far of
/// the two paths.
///
/// To write, it is always the file in the current format. To read, the file
/// in the current format comes first; the older one is looked at only where
/// the first is not there, and where neither is there the registry is
/// missing. What stands at a path and is no regular file is an error.
pub open spec fn locate(mode: Mode, primary: Option<Probe>, legacy: Option<Probe>) -> Locate {
    match mode {
        Mode::Write => Locate::Found { file: ConfigFile::New },
        Mode::Read => match primary {
            None => Locate::Look { which: Which::Primary },
            Some(first) => match settled(Which::Primary, first) {
                Some(step) => step,
                None => match legacy {
                    None => Locate::Look { which: Which::Legacy },
                    Some(second) => match settled(Which::Legacy, second) {
                        Some(step) => step,
                        None => Locate::Found { file: ConfigFile::Missing },
                    },
                },
            },
        },
    }
}

/// What a look at the path of a file comes to: see [`settled`].
pub fn try_find(which: Which, probe: Probe) -> (r: Option<Locate>)
    ensures
        r == settled(which, probe),
{
    match probe {
        Probe::File => Some(
            Locate::Found {
                file: match which {
                    Which::Primary => ConfigFile::New,
                    Which::Legacy => ConfigFile::Old,
                },
            },
        ),
        Probe::NotAFile => Some(Locate::Fail { error: LocateError::NotAFile { which } }),
        Probe::Failed => Some(Locate::Fail { error: LocateError::Unreadable { which } }),
        Probe::NotFound => None,
    }
}

/// The next step in locating the registry: see [`locate`].
pub fn config_file_in(mode: Mode, primary: Option<Probe>, legacy: Option<Probe>) -> (r: Locate)
    ensures
        r == locate(mode, primary, legacy),
{
    match mode {
        Mode::Write => Locate::Found { file: ConfigFile::New },
        Mode::Read => match primary {
            None => Locate::Look { which: Which::Primary },
            Some(first) => match try_find(Which::Primary, first) {
                Some(step) => step,
                None => match legacy {
                    None => Locate::Look { which: Which::Legacy },
                    Some(second) => match try_find(Which::Legacy, second) {
                        Some(step) => step,
                        None => Locate::Found { file: ConfigFile::Missing },
                    },
                },
            },
        },
    }
}

/// What was read of the registry: the text of the file that holds it.
#[derive(Clone, Debug, PartialEq, Eq)]
pub enum Source {
    /// The text of the file in the current format.
    New(String),
    /// The text of the file in the older format.
    Old(String),
    /// There is no file.
    Missing,
}

/// What a [`Source`] holds.
pub ghost enum SourceView {
    New(Seq<char>),
    Old(Seq<char>),
    Missing,
}

impl View for Source {
    type V = SourceView;

    open spec fn view(&self) -> SourceView {
        match *self {
            Source::New(text) => SourceView::New(text@),
            Source::Old(text) => SourceView::Old(text@),
            Source::Missing => SourceView::Missing,
        }
    }
}

/// The registry that was loaded, and the text to write into the file in the
/// current format where the registry came from the older one.
#[derive(Clone, Debug, PartialEq, Eq)]
pub struct Loaded {
    pub config: Config,
    pub migrate: Option<String>,
}

/// What a [`Loaded`] holds.
pub ghost struct LoadedView {
    pub config: ConfigView,
    pub migrate: Option<Seq<char>>,
}

impl View for Loaded {
    type V = LoadedView;

    open spec fn view(&self) -> LoadedView {
        LoadedView { config: self.config@, migrate: crate::data::opt_view(self.migrate) }
    }
}

/// Why the registry could not be loaded.
#[derive(Clone, Debug, PartialEq, Eq)]
pub enum LoadError {
    /// The file in the current format is not of that format.
    Record(ParseError),
    /// The file in the older format is not of that format.
    Json(JsonError),
}

/// What a [`LoadError`] holds.
pub ghost enum LoadErrorView {
    Record(ParseErrorView),
    Json(int),
}

impl View for LoadError {
    type V = LoadErrorView;

    open spec fn view(&self) -> LoadErrorView {
        match *self {
            LoadError::Record(e) => LoadErrorView::Record(e@),
            LoadError::Json(e) => LoadErrorView::Json(e.position as int),
        }
    }
}

impl LoadError {
    /// The message for the user.
    pub fn to_string(&self) -> (r: String)
        ensures
            r@ == match *self {
                LoadError::Record(e) => e@.message(),
                LoadError::Json(e) => crate::config::json::json_error_text(e.position as nat),
            },
    {
        match self {
            LoadError::Record(e) => e.to_string(),
            LoadError::Json(e) => e.to_string(),
        }
    }
}

/// What loading comes to. The file in the current format is read as it is.
/// The file in the older format is read, and the registry that it holds is
/// to be written in the current format at once. Where there is no file the
/// registry is empty.
pub open spec fn loaded(source: SourceView) -> Result<LoadedView, LoadErrorView> {
    match source {
        SourceView::New(text) => match parse_config(text) {
            Ok(config) => Ok(LoadedView { config, migrate: None }),
            Err(e) => Err(LoadErrorView::Record(e)),
        },
        SourceView::Old(text) => match parse_json(text) {
            Ok(config) => Ok(LoadedView { config, migrate: Some(config_text(config)) }),
            Err(e) => Err(LoadErrorView::Json(e)),
        },
        SourceView::Missing => Ok(LoadedView { config: ConfigView::empty(), migrate: None }),
    }
}

/// What the outcome of loading holds.
pub open spec fn load_view(r: Result<Loaded, LoadError>) -> Result<LoadedView, LoadErrorView> {
    match r {
        Ok(l) => Ok(l@),
        Err(e) => Err(e@),
    }
}

/// Loads the registry from what was read: see [`loaded`]. Nothing of a
/// registry comes back where the text is not of its format.
pub fn load(source: Source) -> (r: Result<Loaded, LoadError>)
    ensures
        load_view(r) == loaded(source@),
{
    match source {
        Source::New(text) => match deserialize_config(text.as_str()) {
            Ok(config) => Ok(Loaded { config, migrate: None }),
            Err(e) => Err(LoadError::Record(e)),
        },
        Source::Old(text) => match deserialize_config_json(text.as_str()) {
            Ok(config) => {
                let content = serialize_config(&config);
                Ok(Loaded { config, migrate: Some(content) })
            },
            Err(e) => Err(LoadError::Json(e)),
        },
        Source::Missing => Ok(Loaded { config: Config::default(), migrate: None }),
    }
}

/// Loading a registry from the older format gives the registry that the
/// text holds, and the text to write in its place. Once that is written,
/// loading gives the same registry again and nothing more to write, whenever
/// every alias, name, address and key of the registry is plain.
pub proof fn lemma_migration(legacy: Seq<char>, config: ConfigView)
    requires
        parse_json(legacy) == Ok::<ConfigView, int>(config),
        round_trips(config),
    ensures
        loaded(SourceView::Old(legacy)) == Ok::<LoadedView, LoadErrorView>(
            LoadedView { config, migrate: Some(config_text(config)) },
        ),
        loaded(SourceView::New(config_text(config))) == Ok::<LoadedView, LoadErrorView>(
            LoadedView { config, migrate: None },
        ),
{
    lemma_round_trip(config);
}

/// What is to be written, and whether the directory may be made where it
/// is missing.
#[derive(Clone, Debug, PartialEq, Eq)]
pub struct Write {
    pub content: String,
    pub create_parent: bool,
}

/// Why the registry could not be stored.
#[derive(Clone, Copy, Debug, PartialEq, Eq, Structural)]
pub enum StoreError {
    /// There is no place to keep the registry.
    NoDirectory,
    /// The file may not be written.
    NoPermission,
    /// The file could not be written for another reason.
    Failed,
}

/// The sentence for an error of storing.
pub open spec fn store_error_text(e: StoreError) -> Seq<char> {
    match e {
        StoreError::NoDirectory => "The configuration directoy could not be found"@,
        StoreError::NoPermission => "No permission to write to the file"@,
        StoreError::Failed => "Could not write the configuration file"@,
    }
}

impl StoreError {
    /// The message for the user.
    pub fn to_string(&self) -> (r: String)
        ensures
            r@ == store_error_text(*self),
    {
        match self {
            StoreError::NoDirectory => "The configuration directoy could not be found".to_owned(),
            StoreError::NoPermission => "No permission to write to the file".to_owned(),
            StoreError::Failed => "Could not write the configuration file".to_owned(),
        }
    }
}

/// What to write to store `config`: its text, and the directory may be
/// made.
pub fn store_in(config: &Config) -> (r: Write)
    ensures
        r.content@ == config_text(config@),
        r.create_parent,
{
    Write { content: serialize_config(config), create_parent: true }
}

/// What to write to store `config` in the file that was located. Nothing
/// can be written where no file was.
pub fn store(config: &Config, file: ConfigFile) -> (r: Result<Write, StoreError>)
    ensures
        match file {
            ConfigFile::Missing => r == Err::<Write, StoreError>(StoreError::NoDirectory),
            _ => r matches Ok(w) && w.content@ == config_text(config@) && w.create_parent,
        },
{
    match file {
        ConfigFile::New => Ok(store_in(config)),
        ConfigFile::Old => Ok(store_in(config)),
        ConfigFile::Missing => Err(StoreError::NoDirectory),
    }
}

/// How an attempt to write the file ended.
#[derive(Clone, Copy, Debug, PartialEq, Eq, Structural)]
pub enum Attempt {
    Written,
    /// The file, or the directory it is in, is not there.
    NotFound,
    PermissionDenied,
    /// Any other failure.
    Failed,
}

/// What follows an attempt to write the file.
#[derive(Clone, Copy, Debug, PartialEq, Eq, Structural)]
pub enum AfterWrite {
    /// The registry is stored.
    Done,
    /// Make the directory, then write once more; the directory is not made
    /// a second time.
    CreateParentAndRetry,
    /// The registry is not stored.
    Fail { error: StoreError },
}

/// What follows an attempt to write the file. Only a missing directory is
/// mended, and only once: every other failure ends the attempt.
pub open spec fn after_write(attempt: Attempt, create_parent: bool) -> AfterWrite {
    match attempt {
        Attempt::Written => AfterWrite::Done,
        Attempt::NotFound => if create_parent {
            AfterWrite::CreateParentAndRetry
        } else {
            AfterWrite::Fail { error: StoreError::Failed }
        },
        Attempt::PermissionDenied => AfterWrite::Fail { error: StoreError::NoPermission },
        Attempt::Failed => AfterWrite::Fail { error: StoreError::Failed },
    }
}

/// What follows an attempt to write the file: see [`after_write`].
pub fn store_to(attempt: Attempt, create_parent: bool) -> (r: AfterWrite)
    ensures
        r == after_write(attempt, create_parent),
{
    match attempt {
        Attempt::Written => AfterWrite::Done,
        Attempt::NotFound => if create_parent {
            AfterWrite::CreateParentAndRetry
        } else {
            AfterWrite::Fail { error: StoreError::Failed }
        },
        Attempt::PermissionDenied => AfterWrite::Fail { error: StoreError::NoPermission },
        Attempt::Failed => AfterWrite::Fail { error: StoreError::Failed },
    }
}

/// At most two attempts are made to write the file: the one that follows
/// the making of the directory is never followed by another.
pub proof fn lemma_one_retry(attempt: Attempt)
    ensures
        after_write(attempt, false) != AfterWrite::CreateParentAndRetry,
{
}

/// The words put before an error of reading the file at `path`.
pub open spec fn read_context(path: Seq<char>) -> Seq<char> {
    "The file `"@ + path
        + "` could not be read.\nPlease make sure that the config file is accessible and is properly formatted."@
}

/// The words put before an error of writing `content` to the file at
/// `path`.
pub open spec fn write_context(path: Seq<char>, content: Seq<char>) -> Seq<char> {
    "The file `"@ + path
        + "` could not be written.\nPlease make sure that the config file is accessible and writable.\nFile content:\n"@
        + content
}

/// The words put before an error of reading the file at `path`.
pub fn read_failure(path: &str) -> (r: String)
    ensures
        r@ == read_context(path@),
{
    let mut r = String::new();
    push_str(&mut r, "The file `");
    push_str(&mut r, path);
    push_str(
        &mut r,
        "` could not be read.\nPlease make sure that the config file is accessible and is properly formatted.",
    );
    r
}

/// The words put before an error of writing `content` to the file at
/// `path`.
pub fn write_failure(path: &str, content: &str) -> (r: String)
    ensures
        r@ == write_context(path@, content@),
{
    let mut r = String::new();
    push_str(&mut r, "The file `");
    push_str(&mut r, path);
    push_str(
        &mut r,
        "` could not be written.\nPlease make sure that the config file is accessible and writable.\nFile content:\n",
    );
    push_str(&mut r, content);
    r
}

} // verus!
