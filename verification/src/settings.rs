//! Global application settings: the model, factory defaults under the
//! user's data directory, the decisions of loading and saving, and the
//! checks on a profiles root.

use vstd::prelude::*;

use crate::host::{config_dir, data_local_dir};
use crate::platform::{join_path, path_join};
use crate::text::{clone_string, opt_view, trim, trim_str, string_of};

verus! {

/// Latest settings schema written by this build.
pub const CURRENT_SCHEMA_VERSION: u32 = 1;

/// Highest settings `schema_version` this build loads without migration.
pub const SUPPORTED_SCHEMA_VERSION: u32 = 1;

pub const APP_DIR_NAME: &'static str = "maestro";

pub const PROFILES_DIR_NAME: &'static str = "profiles";

pub const SETTINGS_FILE_NAME: &'static str = "settings.json";

#[derive(Debug, Clone, Copy, PartialEq, Eq, Structural)]
pub enum BrowserFamily {
    ChromiumLike,
    Firefox,
}

#[derive(Debug, Clone, Copy, PartialEq, Eq, Structural)]
pub enum LogVerbosity {
    Error,
    Warn,
    Info,
    Debug,
    Trace,
}

#[derive(Debug, Clone, Copy, PartialEq, Eq, Structural)]
pub enum UiTheme {
    System,
    Light,
    Dark,
}

/// Global application settings.
#[derive(Debug, Clone, PartialEq, Eq)]
pub struct ApplicationSettings {
    pub schema_version: u32,
    /// Root directory of the session profile files.
    pub profiles_root: String,
    pub logging_verbosity: LogVerbosity,
    pub theme: UiTheme,
}

impl ApplicationSettings {
    /// The profiles root as a path.
    pub fn profiles_root_path(&self) -> (r: String)
        ensures
            r@ == self.profiles_root@,
    {
        clone_string(&self.profiles_root)
    }

    pub fn is_schema_supported(&self) -> (r: bool)
        ensures
            r == (self.schema_version <= SUPPORTED_SCHEMA_VERSION),
    {
        self.schema_version <= SUPPORTED_SCHEMA_VERSION
    }

    /// Settings are kept as loaded; legacy keys are dropped when reading.
    pub fn normalize(self) -> (r: Self)
        ensures
            r == self,
    {
        self
    }

    pub fn duplicate(&self) -> (r: Self)
        ensures
            r.schema_version == self.schema_version,
            r.profiles_root@ == self.profiles_root@,
            r.logging_verbosity == self.logging_verbosity,
            r.theme == self.theme,
    {
        ApplicationSettings {
            schema_version: self.schema_version,
            profiles_root: clone_string(&self.profiles_root),
            logging_verbosity: self.logging_verbosity,
            theme: self.theme,
        }
    }
}

/// Checks on a profiles root.
#[derive(Debug, Clone, Copy, PartialEq, Eq, Structural)]
pub enum ProfilesRootValidationError {
    Empty,
    NotADirectory,
    NotWritable,
    ParentNotWritable,
}

impl ProfilesRootValidationError {
    /// The error as text.
    pub fn message(&self) -> (r: String)
        ensures
            r@ == match *self {
                ProfilesRootValidationError::Empty => "profiles path cannot be empty"@,
                ProfilesRootValidationError::NotADirectory => "profiles path is not a directory"@,
                ProfilesRootValidationError::NotWritable => "profiles directory is not writable"@,
                ProfilesRootValidationError::ParentNotWritable => "parent directory does not exist or is not writable"@,
            },
    {
        match self {
            ProfilesRootValidationError::Empty => String::from_str("profiles path cannot be empty"),
            ProfilesRootValidationError::NotADirectory => String::from_str("profiles path is not a directory"),
            ProfilesRootValidationError::NotWritable => String::from_str("profiles directory is not writable"),
            ProfilesRootValidationError::ParentNotWritable => String::from_str(
                "parent directory does not exist or is not writable",
            ),
        }
    }
}

#[derive(Debug, Clone, PartialEq, Eq)]
pub enum SettingsError {
    Message(String),
    DataDirUnavailable(String),
    Io(String),
    InvalidJson(String),
    UnsupportedSchemaVersion { found: u32, supported: u32 },
    Validation(ProfilesRootValidationError),
}

// ---------------------------------------------------------------------------
// Defaults
// ---------------------------------------------------------------------------

/// The Maestro data directory under a local data directory.
pub open spec fn data_dir_under(base: Seq<char>) -> Seq<char> {
    path_join(base, "maestro"@)
}

/// The error when the local data directory cannot be resolved.
pub open spec fn is_data_dir_error(e: SettingsError) -> bool {
    e matches SettingsError::DataDirUnavailable(m) && m@
        == "could not resolve a local data directory (XDG_DATA_HOME / ~/.local/share)"@
}

/// The error when the configuration directory cannot be resolved.
pub open spec fn is_config_dir_error(e: SettingsError) -> bool {
    e matches SettingsError::DataDirUnavailable(m) && m@
        == "could not resolve config directory (XDG_CONFIG_HOME / ~/.config)"@
}

/// An answer of `dirs` for a directory: none, or a non-empty path.
pub open spec fn dir_answer(a: Option<Seq<char>>) -> bool {
    a matches Some(b) ==> b.len() > 0
}

/// What the Maestro data directory is for an answer of `dirs`.
pub open spec fn data_dir_result(base: Option<Seq<char>>, r: Result<String, SettingsError>) -> bool {
    match base {
        Some(b) => r matches Ok(d) && d@ == data_dir_under(b),
        None => r matches Err(e) && is_data_dir_error(e),
    }
}

/// What the default profiles root is for an answer of `dirs`.
pub open spec fn profiles_root_result(base: Option<Seq<char>>, r: Result<String, SettingsError>) -> bool {
    match base {
        Some(b) => r matches Ok(p) && p@ == profiles_root_under(data_dir_under(b)),
        None => r matches Err(e) && is_data_dir_error(e),
    }
}

/// What the factory defaults are for an answer of `dirs`.
pub open spec fn defaults_result(base: Option<Seq<char>>, r: Result<ApplicationSettings, SettingsError>) -> bool {
    match base {
        Some(b) => r matches Ok(s) && defaults_under(s, b),
        None => r matches Err(e) && is_data_dir_error(e),
    }
}

/// What the settings path is for an answer of `dirs`.
pub open spec fn settings_path_result(config: Option<Seq<char>>, r: Result<String, SettingsError>) -> bool {
    match config {
        Some(c) => r matches Ok(p) && p@ == settings_path_under(c),
        None => r matches Err(e) && is_config_dir_error(e),
    }
}

/// The Maestro data directory under the local data directory that `dirs`
/// reports (`$XDG_DATA_HOME/maestro` or `~/.local/share/maestro`); the
/// data-directory error when there is none.
pub fn maestro_data_dir_from(data_local: Option<String>) -> (r: Result<String, SettingsError>)
    ensures
        data_dir_result(opt_view(data_local), r),
{
    match data_local {
        Some(base) => Ok(join_path(base.as_str(), "maestro")),
        None => Err(
            SettingsError::DataDirUnavailable(
                String::from_str(
                    "could not resolve a local data directory (XDG_DATA_HOME / ~/.local/share)",
                ),
            ),
        ),
    }
}

/// Per-user Maestro data directory, asking `dirs` for the local data
/// directory (see `maestro_data_dir_from`).
pub fn maestro_data_dir() -> (r: Result<String, SettingsError>)
    ensures
        exists|base: Option<Seq<char>>| dir_answer(base) && #[trigger] data_dir_result(base, r),
{
    let base = data_local_dir();
    let r = maestro_data_dir_from(base);
    r
}

/// The profiles root under a data directory: `<data>/profiles`.
pub open spec fn profiles_root_under(data: Seq<char>) -> Seq<char> {
    path_join(data, "profiles"@)
}

/// The default profiles root, `<local data>/maestro/profiles`, given the
/// local data directory that `dirs` reports; the data-directory error when
/// there is none.
pub fn default_profiles_root_from(data_local: Option<String>) -> (r: Result<String, SettingsError>)
    ensures
        profiles_root_result(opt_view(data_local), r),
{
    let data = maestro_data_dir_from(data_local)?;
    Ok(join_path(data.as_str(), "profiles"))
}

/// Default profiles root, asking `dirs` for the local data directory (see
/// `default_profiles_root_from`).
pub fn default_profiles_root() -> (r: Result<String, SettingsError>)
    ensures
        exists|base: Option<Seq<char>>| dir_answer(base) && #[trigger] profiles_root_result(base, r),
{
    let base = data_local_dir();
    let r = default_profiles_root_from(base);
    r
}

/// Factory defaults over a local data directory: current schema, the
/// profiles root under it, info logging, the system theme.
pub open spec fn defaults_under(s: ApplicationSettings, data_local: Seq<char>) -> bool {
    &&& s.schema_version == CURRENT_SCHEMA_VERSION
    &&& s.profiles_root@ == profiles_root_under(data_dir_under(data_local))
    &&& s.logging_verbosity == LogVerbosity::Info
    &&& s.theme == UiTheme::System
}

/// Factory defaults, given the local data directory that `dirs` reports;
/// the data-directory error when there is none.
pub fn default_settings_from(data_local: Option<String>) -> (r: Result<ApplicationSettings, SettingsError>)
    ensures
        defaults_result(opt_view(data_local), r),
{
    let profiles_root = default_profiles_root_from(data_local)?;
    Ok(
        ApplicationSettings {
            schema_version: CURRENT_SCHEMA_VERSION,
            profiles_root,
            logging_verbosity: LogVerbosity::Info,
            theme: UiTheme::System,
        },
    )
}

/// Factory defaults, asking `dirs` for the local data directory (see
/// `default_settings_from`).
pub fn default_settings() -> (r: Result<ApplicationSettings, SettingsError>)
    ensures
        exists|base: Option<Seq<char>>| dir_answer(base) && #[trigger] defaults_result(base, r),
{
    let base = data_local_dir();
    let r = default_settings_from(base);
    r
}

/// `$XDG_CONFIG_HOME/maestro/settings.json` for a config directory.
pub open spec fn settings_path_under(config: Seq<char>) -> Seq<char> {
    path_join(path_join(config, "maestro"@), "settings.json"@)
}

/// Path of the global settings file under the configuration directory
/// that `dirs` reports; the config-directory error when there is none.
pub fn settings_path_from(config: Option<String>) -> (r: Result<String, SettingsError>)
    ensures
        settings_path_result(opt_view(config), r),
{
    match config {
        Some(base) => {
            let d = join_path(base.as_str(), "maestro");
            Ok(join_path(d.as_str(), "settings.json"))
        },
        None => Err(
            SettingsError::DataDirUnavailable(
                String::from_str("could not resolve config directory (XDG_CONFIG_HOME / ~/.config)"),
            ),
        ),
    }
}

/// Path of the global settings file, asking `dirs` for the configuration
/// directory (see `settings_path_from`).
pub fn settings_file_path() -> (r: Result<String, SettingsError>)
    ensures
        exists|config: Option<Seq<char>>| dir_answer(config) && #[trigger] settings_path_result(config, r),
{
    let config = config_dir();
    let r = settings_path_from(config);
    r
}

// ---------------------------------------------------------------------------
// Store
// ---------------------------------------------------------------------------

/// What reading the settings file gave.
pub enum SettingsFile {
    /// No file: defaults apply and nothing is written.
    Missing,
    /// The file could not be read.
    Unreadable(String),
    /// The file is not valid settings JSON.
    Invalid(String),
    Parsed(ApplicationSettings),
}

/// The settings a read of the file gives, where `data_local` is the local
/// data directory that `dirs` reports: for a missing file the factory
/// defaults under it (or the data-directory error when there is none), the
/// read or parse error, an unsupported schema as an error, else what was
/// read.
pub open spec fn load_result(
    file: SettingsFile,
    data_local: Option<Seq<char>>,
    r: Result<ApplicationSettings, SettingsError>,
) -> bool {
    match file {
        SettingsFile::Missing => match data_local {
            Some(b) => r matches Ok(s) && defaults_under(s, b),
            None => r matches Err(e) && is_data_dir_error(e),
        },
        SettingsFile::Unreadable(m) => r == Err::<ApplicationSettings, SettingsError>(SettingsError::Io(m)),
        SettingsFile::Invalid(m) => r == Err::<ApplicationSettings, SettingsError>(
            SettingsError::InvalidJson(m),
        ),
        SettingsFile::Parsed(s) => if s.schema_version <= SUPPORTED_SCHEMA_VERSION {
            r == Ok::<ApplicationSettings, SettingsError>(s)
        } else {
            r == Err::<ApplicationSettings, SettingsError>(
                SettingsError::UnsupportedSchemaVersion {
                    found: s.schema_version,
                    supported: SUPPORTED_SCHEMA_VERSION,
                },
            )
        },
    }
}

/// What opening the store gives for an answer of `dirs`.
pub open spec fn store_result(config: Option<Seq<char>>, r: Result<SettingsStore, SettingsError>) -> bool {
    match config {
        Some(c) => r matches Ok(s) && s.path_view() == settings_path_under(c),
        None => r matches Err(e) && is_config_dir_error(e),
    }
}

/// What opening the settings manager gives for the read `file` and the
/// answers of `dirs`: the config-directory error first, then the load.
pub open spec fn manager_result(
    file: SettingsFile,
    config: Option<Seq<char>>,
    data_local: Option<Seq<char>>,
    r: Result<SettingsManager, SettingsError>,
) -> bool {
    match config {
        None => r matches Err(e) && is_config_dir_error(e),
        Some(c) => match r {
            Ok(m) => m.store_view().path_view() == settings_path_under(c) && load_result(
                file,
                data_local,
                Ok(m.settings_view()),
            ),
            Err(e) => load_result(file, data_local, Err(e)),
        },
    }
}

/// Where the settings live.
#[derive(Debug, Clone)]
pub struct SettingsStore {
    path: String,
}

impl SettingsStore {
    pub closed spec fn path_view(&self) -> Seq<char> {
        self.path@
    }

    pub fn new(path: String) -> (r: Self)
        ensures
            r.path_view() == path@,
    {
        SettingsStore { path }
    }

    /// The store at the settings path under the configuration directory
    /// that `dirs` reports (see `settings_path_from`).
    pub fn open_from(config: Option<String>) -> (r: Result<Self, SettingsError>)
        ensures
            store_result(opt_view(config), r),
    {
        let p = settings_path_from(config)?;
        Ok(SettingsStore::new(p))
    }

    /// The store at the default settings path, asking `dirs` for the
    /// configuration directory (see `open_from`).
    pub fn open_default() -> (r: Result<Self, SettingsError>)
        ensures
            exists|config: Option<Seq<char>>| dir_answer(config) && #[trigger] store_result(config, r),
    {
        let config = config_dir();
        let r = SettingsStore::open_from(config);
        r
    }

    pub fn path(&self) -> (r: &String)
        ensures
            r@ == self.path_view(),
    {
        &self.path
    }

    /// The settings a read of the file gives, where `data_local` is the
    /// local data directory that `dirs` reports (see `load_result`).
    pub fn load_given(&self, file: SettingsFile, data_local: Option<String>) -> (r: Result<
        ApplicationSettings,
        SettingsError,
    >)
        ensures
            load_result(file, opt_view(data_local), r),
    {
        match file {
            SettingsFile::Missing => default_settings_from(data_local),
            SettingsFile::Unreadable(m) => Err(SettingsError::Io(m)),
            SettingsFile::Invalid(m) => Err(SettingsError::InvalidJson(m)),
            SettingsFile::Parsed(s) => {
                if !s.is_schema_supported() {
                    return Err(
                        SettingsError::UnsupportedSchemaVersion {
                            found: s.schema_version,
                            supported: SUPPORTED_SCHEMA_VERSION,
                        },
                    );
                }
                Ok(s)
            },
        }
    }

    /// The settings a read of the file gives; only for a missing file is
    /// `dirs` asked for the local data directory, whose defaults then apply
    /// (nothing is written). The result is `load_given` over that answer.
    pub fn load_from(&self, file: SettingsFile) -> (r: Result<ApplicationSettings, SettingsError>)
        ensures
            exists|data_local: Option<Seq<char>>| dir_answer(data_local) && #[trigger] load_result(file, data_local, r),
    {
        let data_local = match file {
            SettingsFile::Missing => data_local_dir(),
            _ => None,
        };
        let r = self.load_given(file, data_local);
        r
    }

    /// Whether settings may be written: only a supported schema is.
    pub fn check_save(&self, settings: &ApplicationSettings) -> (r: Result<(), SettingsError>)
        ensures
            r is Ok <==> settings.schema_version <= SUPPORTED_SCHEMA_VERSION,
            r matches Err(e) ==> e == (SettingsError::UnsupportedSchemaVersion {
                found: settings.schema_version,
                supported: SUPPORTED_SCHEMA_VERSION,
            }),
    {
        if !settings.is_schema_supported() {
            return Err(
                SettingsError::UnsupportedSchemaVersion {
                    found: settings.schema_version,
                    supported: SUPPORTED_SCHEMA_VERSION,
                },
            );
        }
        Ok(())
    }

    /// Whether first-run settings are to be written: not when the file
    /// exists (`Ok(false)`); else as `check_save` decides (`Ok(true)`: the
    /// caller writes them).
    pub fn save_if_absent(&self, settings: &ApplicationSettings, file_exists: bool) -> (r: Result<
        bool,
        SettingsError,
    >)
        ensures
            file_exists ==> r == Ok::<bool, SettingsError>(false),
            !file_exists && settings.schema_version <= SUPPORTED_SCHEMA_VERSION ==> r == Ok::<
                bool,
                SettingsError,
            >(true),
            !file_exists && settings.schema_version > SUPPORTED_SCHEMA_VERSION ==> r == Err::<
                bool,
                SettingsError,
            >(
                SettingsError::UnsupportedSchemaVersion {
                    found: settings.schema_version,
                    supported: SUPPORTED_SCHEMA_VERSION,
                },
            ),
    {
        if file_exists {
            return Ok(false);
        }
        match self.check_save(settings) {
            Ok(()) => Ok(true),
            Err(e) => Err(e),
        }
    }
}

/// The loaded settings and the store they persist to.
pub struct SettingsManager {
    store: SettingsStore,
    settings: ApplicationSettings,
}

impl SettingsManager {
    pub closed spec fn store_view(&self) -> SettingsStore {
        self.store
    }

    pub closed spec fn settings_view(&self) -> ApplicationSettings {
        self.settings
    }

    /// The manager over the store under the configuration directory
    /// `config`, holding what `file` (the read of its settings path) gives,
    /// normalised, where `data_local` is the local data directory. The error
    /// when there is no configuration directory comes first, then the error
    /// of the load.
    pub fn open_given(file: SettingsFile, config: Option<String>, data_local: Option<String>) -> (r: Result<
        Self,
        SettingsError,
    >)
        ensures
            manager_result(file, opt_view(config), opt_view(data_local), r),
    {
        let store = SettingsStore::open_from(config)?;
        let settings = store.load_given(file, data_local)?.normalize();
        Ok(SettingsManager::new(store, settings))
    }

    /// The manager over the store at the default settings path, holding
    /// what `file` (the read of that path) gives: `dirs` is asked for the
    /// configuration directory, and, when that resolves and the file is
    /// missing, for the local data directory. The result is `open_given`
    /// over those answers.
    pub fn open_default(file: SettingsFile) -> (r: Result<Self, SettingsError>)
        ensures
            exists|config: Option<Seq<char>>, data_local: Option<Seq<char>>|
                dir_answer(config) && dir_answer(data_local) && #[trigger] manager_result(file, config, data_local, r),
    {
        let config = config_dir();
        let data_local = match (&config, &file) {
            (Some(_), SettingsFile::Missing) => data_local_dir(),
            _ => None,
        };
        let r = SettingsManager::open_given(file, config, data_local);
        r
    }

    /// A manager over `store` holding the settings loaded from it.
    pub fn new(store: SettingsStore, loaded: ApplicationSettings) -> (r: Self)
        ensures
            r.store_view() == store,
            r.settings_view() == loaded,
    {
        SettingsManager { store, settings: loaded.normalize() }
    }

    /// The current settings.
    pub fn get(&self) -> (r: ApplicationSettings)
        ensures
            r.schema_version == self.settings_view().schema_version,
            r.profiles_root@ == self.settings_view().profiles_root@,
            r.logging_verbosity == self.settings_view().logging_verbosity,
            r.theme == self.settings_view().theme,
    {
        self.settings.duplicate().normalize()
    }

    /// The settings after a successful save.
    pub fn replace(&mut self, saved: ApplicationSettings)
        ensures
            final(self).settings_view() == saved,
            final(self).store_view() == old(self).store_view(),
    {
        self.settings = saved;
    }

    /// Whether the current settings are to be written on first run (see
    /// `SettingsStore::save_if_absent`).
    pub fn persist_if_absent(&self, file_exists: bool) -> (r: Result<bool, SettingsError>)
        ensures
            file_exists ==> r == Ok::<bool, SettingsError>(false),
            !file_exists && self.settings_view().schema_version <= SUPPORTED_SCHEMA_VERSION ==> r
                == Ok::<bool, SettingsError>(true),
            !file_exists && self.settings_view().schema_version > SUPPORTED_SCHEMA_VERSION ==> r
                == Err::<bool, SettingsError>(
                SettingsError::UnsupportedSchemaVersion {
                    found: self.settings_view().schema_version,
                    supported: SUPPORTED_SCHEMA_VERSION,
                },
            ),
    {
        let settings = self.get();
        self.store.save_if_absent(&settings, file_exists)
    }
}


/// Settings about to be saved: stamped with the current schema and
/// normalised.
pub fn prepare_settings_update(new_settings: ApplicationSettings) -> (r: Result<ApplicationSettings, SettingsError>)
    ensures
        r matches Ok(s) && s.schema_version == CURRENT_SCHEMA_VERSION && s.profiles_root@
            == new_settings.profiles_root@ && s.logging_verbosity == new_settings.logging_verbosity
            && s.theme == new_settings.theme,
{
    let mut s = new_settings;
    s.schema_version = CURRENT_SCHEMA_VERSION;
    if !s.is_schema_supported() {
        return Err(
            SettingsError::UnsupportedSchemaVersion {
                found: s.schema_version,
                supported: SUPPORTED_SCHEMA_VERSION,
            },
        );
    }
    Ok(s.normalize())
}

// ---------------------------------------------------------------------------
// Profiles root checks
// ---------------------------------------------------------------------------

/// What the disk says about a candidate profiles root and its parent.
#[derive(Debug, Clone, Copy, PartialEq, Eq, Structural)]
pub struct RootProbe {
    pub exists: bool,
    pub is_dir: bool,
    pub writable: bool,
    pub has_parent: bool,
    pub parent_exists: bool,
    pub parent_is_dir: bool,
    pub parent_writable: bool,
}

/// The verdict on a profiles root (trimmed): empty is refused; an existing
/// path must be a writable directory; a missing one needs an existing,
/// writable parent directory.
pub open spec fn root_verdict(path: Seq<char>, p: RootProbe) -> Result<(), ProfilesRootValidationError> {
    if trim(path).len() == 0 {
        Err(ProfilesRootValidationError::Empty)
    } else if p.exists {
        if !p.is_dir {
            Err(ProfilesRootValidationError::NotADirectory)
        } else if !p.writable {
            Err(ProfilesRootValidationError::NotWritable)
        } else {
            Ok(())
        }
    } else if !p.has_parent || !p.parent_exists || !p.parent_is_dir || !p.parent_writable {
        Err(ProfilesRootValidationError::ParentNotWritable)
    } else {
        Ok(())
    }
}

/// Validates a profiles root before it is saved, given what the disk says
/// about the trimmed path and its parent.
pub fn validate_profiles_root_path(path: &str, probe: &RootProbe) -> (r: Result<(), ProfilesRootValidationError>)
    ensures
        r == root_verdict(path@, *probe),
{
    let t = trim_str(path);
    if t.len() == 0 {
        return Err(ProfilesRootValidationError::Empty);
    }
    if probe.exists {
        if !probe.is_dir {
            return Err(ProfilesRootValidationError::NotADirectory);
        }
        if !probe.writable {
            return Err(ProfilesRootValidationError::NotWritable);
        }
        return Ok(());
    }
    if !probe.has_parent || !probe.parent_exists || !probe.parent_is_dir || !probe.parent_writable {
        return Err(ProfilesRootValidationError::ParentNotWritable);
    }
    Ok(())
}

/// The trimmed candidate path that the probes are taken of.
pub fn profiles_root_candidate(path: &str) -> (r: String)
    ensures
        r@ == trim(path@),
{
    string_of(trim_str(path).as_slice())
}

} // verus!
