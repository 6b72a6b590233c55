//! Session profiles: the model, its validation, the normal form used for
//! activation, and the path and catalog logic of the profiles directory.
//! Reading, parsing and writing files is left to the caller, which hands
//! the results in.

use vstd::prelude::*;

use crate::host::new_uuid_string;
use crate::order::lex_lt;
use crate::platform::{join_path, path_join};
use crate::settings::BrowserFamily;
use crate::text::{
    chars_of, clone_string, clone_strings, decimal, decimal_chars, eq_ignore_ascii_case,
    eq_ignore_ascii_case_chars, is_absolute, opt_view, path_names, seqs_of, seqs_of_vecs,
    split_on_char, string_of, trim, trim_str,
};

verus! {

/// Latest profile schema written by this build.
pub const CURRENT_PROFILE_SCHEMA_VERSION: u32 = 1;

/// Highest profile `schema_version` this build loads without migration.
pub const SUPPORTED_PROFILE_SCHEMA_VERSION: u32 = 1;

/// Browser settings carried by an application entry.
#[derive(Debug, Clone, PartialEq, Eq)]
pub struct ApplicationBrowserSettings {
    pub family: BrowserFamily,
    pub user_data_dir: Option<String>,
    pub firefox_profile: Option<String>,
    pub firefox_no_remote: Option<bool>,
    pub urls: Vec<String>,
}

/// One application to launch.
#[derive(Debug, Clone, PartialEq, Eq)]
pub struct ApplicationLaunchEntry {
    pub executable: String,
    pub args: Vec<String>,
    pub cwd: Option<String>,
    /// Skip the launch when a process with the same basename runs.
    pub skip_if_running: Option<bool>,
    /// When set, the entry launches a browser with these settings.
    pub browser: Option<ApplicationBrowserSettings>,
}

/// Browser launch block: family, executable and isolation fields.
#[derive(Debug, Clone, PartialEq, Eq)]
pub struct ProfileBrowserBlock {
    pub family: BrowserFamily,
    pub executable: String,
    pub user_data_dir: Option<String>,
    pub firefox_profile: Option<String>,
    pub firefox_no_remote: Option<bool>,
    pub urls: Vec<String>,
}

/// Optional rules for context cleanup.
#[derive(Debug, Clone, PartialEq, Eq)]
pub struct ProfileCleanupRules {
    /// Extra process basenames treated as part of this session.
    pub allow_extra_basenames: Vec<String>,
}

impl Default for ProfileCleanupRules {
    fn default() -> (r: Self)
        ensures
            r.allow_extra_basenames@.len() == 0,
    {
        ProfileCleanupRules { allow_extra_basenames: Vec::new() }
    }
}

/// A session profile.
#[derive(Debug, Clone, PartialEq, Eq)]
pub struct SessionProfile {
    pub schema_version: u32,
    pub session_id: String,
    pub name: String,
    pub applications: Vec<ApplicationLaunchEntry>,
    pub browser: Option<ProfileBrowserBlock>,
    pub cleanup: Option<ProfileCleanupRules>,
}

/// What can go wrong with profiles.
#[derive(Debug, Clone, PartialEq, Eq)]
pub enum ProfileError {
    Io(String),
    InvalidJson { path: String, message: String },
    UnsupportedSchema { path: String, found: u32, supported: u32 },
    Validation { path: String, message: String },
    PathOutsideRoot,
    RootUnavailable(String),
}

pub enum ProfileErrorView {
    Io(Seq<char>),
    InvalidJson { path: Seq<char>, message: Seq<char> },
    UnsupportedSchema { path: Seq<char>, found: u32, supported: u32 },
    Validation { path: Seq<char>, message: Seq<char> },
    PathOutsideRoot,
    RootUnavailable(Seq<char>),
}

impl View for ProfileError {
    type V = ProfileErrorView;

    open spec fn view(&self) -> ProfileErrorView {
        match self {
            ProfileError::Io(m) => ProfileErrorView::Io(m@),
            ProfileError::InvalidJson { path, message } => ProfileErrorView::InvalidJson {
                path: path@,
                message: message@,
            },
            ProfileError::UnsupportedSchema { path, found, supported } => ProfileErrorView::UnsupportedSchema {
                path: path@,
                found: *found,
                supported: *supported,
            },
            ProfileError::Validation { path, message } => ProfileErrorView::Validation {
                path: path@,
                message: message@,
            },
            ProfileError::PathOutsideRoot => ProfileErrorView::PathOutsideRoot,
            ProfileError::RootUnavailable(m) => ProfileErrorView::RootUnavailable(m@),
        }
    }
}

/// The text of an error, as shown to the user.
pub open spec fn error_text(e: ProfileErrorView) -> Seq<char> {
    match e {
        ProfileErrorView::Io(m) => "I/O error: "@ + m,
        ProfileErrorView::InvalidJson { path, message } => "invalid profile JSON at "@ + path + ": "@
            + message,
        ProfileErrorView::UnsupportedSchema { path, found, supported } => "profile "@ + path
            + ": unsupported schema_version "@ + decimal(found as nat) + " (supported up to "@
            + decimal(supported as nat) + ")"@,
        ProfileErrorView::Validation { path, message } => "profile "@ + path + ": "@ + message,
        ProfileErrorView::PathOutsideRoot => "path outside profiles root"@,
        ProfileErrorView::RootUnavailable(m) => m,
    }
}

/// Appends the characters of `s`.
pub fn append(out: &mut Vec<char>, s: &str)
    ensures
        final(out)@ == old(out)@ + s@,
{
    let v = chars_of(s);
    let ghost start = out@;
    for i in 0..v.len()
        invariant
            out@ == start + v@.take(i as int),
    {
        out.push(v[i]);
        assert(start + v@.take(i + 1) =~= (start + v@.take(i as int)).push(v@[i as int]));
    }
    assert(v@.take(v@.len() as int) =~= v@);
}

fn append_chars(out: &mut Vec<char>, v: &[char])
    ensures
        final(out)@ == old(out)@ + v@,
{
    let ghost start = out@;
    for i in 0..v.len()
        invariant
            out@ == start + v@.take(i as int),
    {
        out.push(v[i]);
        assert(start + v@.take(i + 1) =~= (start + v@.take(i as int)).push(v@[i as int]));
    }
    assert(v@.take(v@.len() as int) =~= v@);
}

impl ProfileError {
    /// The error as text.
    pub fn message(&self) -> (r: String)
        ensures
            r@ == error_text(self@),
    {
        let mut out: Vec<char> = Vec::new();
        match self {
            ProfileError::Io(m) => {
                append(&mut out, "I/O error: ");
                append(&mut out, m.as_str());
            },
            ProfileError::InvalidJson { path, message } => {
                append(&mut out, "invalid profile JSON at ");
                append(&mut out, path.as_str());
                append(&mut out, ": ");
                append(&mut out, message.as_str());
            },
            ProfileError::UnsupportedSchema { path, found, supported } => {
                append(&mut out, "profile ");
                append(&mut out, path.as_str());
                append(&mut out, ": unsupported schema_version ");
                append_chars(&mut out, decimal_chars(*found as u64).as_slice());
                append(&mut out, " (supported up to ");
                append_chars(&mut out, decimal_chars(*supported as u64).as_slice());
                append(&mut out, ")");
            },
            ProfileError::Validation { path, message } => {
                append(&mut out, "profile ");
                append(&mut out, path.as_str());
                append(&mut out, ": ");
                append(&mut out, message.as_str());
            },
            ProfileError::PathOutsideRoot => {
                append(&mut out, "path outside profiles root");
            },
            ProfileError::RootUnavailable(m) => {
                append(&mut out, m.as_str());
            },
        }
        assert(out@ =~= error_text(self@));
        string_of(out.as_slice())
    }
}

// ---------------------------------------------------------------------------
// Validation
// ---------------------------------------------------------------------------

/// The first rule a profile breaks, in the order they are checked.
pub enum Violation {
    SchemaZero,
    UnsupportedSchema,
    EmptySessionId,
    EmptyName,
    /// The application at this position has a blank executable.
    EmptyExecutable(nat),
    EmptyBrowserExecutable,
}

pub open spec fn first_blank_executable(apps: Seq<ApplicationLaunchEntry>, i: int) -> Option<nat>
    decreases apps.len() - i,
{
    if i < 0 || i >= apps.len() {
        None
    } else if trim(apps[i].executable@).len() == 0 {
        Some(i as nat)
    } else {
        first_blank_executable(apps, i + 1)
    }
}

/// The first rule a profile breaks: a positive, supported schema version,
/// a non-blank session id and name, non-blank application executables and
/// a non-blank browser executable when a browser block is set.
pub open spec fn violation(p: SessionProfile) -> Option<Violation> {
    if p.schema_version == 0 {
        Some(Violation::SchemaZero)
    } else if p.schema_version > SUPPORTED_PROFILE_SCHEMA_VERSION {
        Some(Violation::UnsupportedSchema)
    } else if trim(p.session_id@).len() == 0 {
        Some(Violation::EmptySessionId)
    } else if trim(p.name@).len() == 0 {
        Some(Violation::EmptyName)
    } else if first_blank_executable(p.applications@, 0) is Some {
        Some(Violation::EmptyExecutable(first_blank_executable(p.applications@, 0)->0))
    } else if p.browser matches Some(b) && trim(b.executable@).len() == 0 {
        Some(Violation::EmptyBrowserExecutable)
    } else {
        None
    }
}

proof fn lemma_first_blank(apps: Seq<ApplicationLaunchEntry>, i: int)
    requires
        0 <= i,
    ensures
        first_blank_executable(apps, i) matches Some(k) ==> i <= k < apps.len() && trim(apps[k as int].executable@).len()
            == 0 && forall|j: int| i <= j < k ==> trim((#[trigger] apps[j]).executable@).len() > 0,
        first_blank_executable(apps, i) is None ==> forall|j: int|
            i <= j < apps.len() ==> trim((#[trigger] apps[j]).executable@).len() > 0,
    decreases apps.len() - i,
{
    if i < apps.len() {
        lemma_first_blank(apps, i + 1);
    }
}

/// A profile is valid exactly when its schema version is positive and
/// supported, its session id and name are not blank, no application has a
/// blank executable and a browser block, when set, has a non-blank
/// executable. A blank application executable is reported at the first
/// position that has one.
pub proof fn law_profile_validity(p: SessionProfile)
    ensures
        violation(p) is None <==> (1 <= p.schema_version <= SUPPORTED_PROFILE_SCHEMA_VERSION && trim(
            p.session_id@,
        ).len() > 0 && trim(p.name@).len() > 0 && (forall|k: int|
            0 <= k < p.applications@.len() ==> trim((#[trigger] p.applications@[k]).executable@).len() > 0) && (
        p.browser matches Some(b) ==> trim(b.executable@).len() > 0)),
        violation(p) matches Some(Violation::EmptyExecutable(k)) ==> k < p.applications@.len() && trim(
            p.applications@[k as int].executable@,
        ).len() == 0 && forall|j: int| 0 <= j < k ==> trim((#[trigger] p.applications@[j]).executable@).len() > 0,
{
    lemma_first_blank(p.applications@, 0);
    if let Some(k) = first_blank_executable(p.applications@, 0) {
        assert(trim(p.applications@[k as int].executable@).len() == 0);
    }
}

/// The error reported for a violation.
pub open spec fn violation_error(v: Violation, path: Seq<char>, schema_version: u32) -> ProfileErrorView {
    match v {
        Violation::SchemaZero => ProfileErrorView::Validation {
            path,
            message: "schema_version must be a positive integer"@,
        },
        Violation::UnsupportedSchema => ProfileErrorView::UnsupportedSchema {
            path,
            found: schema_version,
            supported: SUPPORTED_PROFILE_SCHEMA_VERSION,
        },
        Violation::EmptySessionId => ProfileErrorView::Validation {
            path,
            message: "session_id must not be empty"@,
        },
        Violation::EmptyName => ProfileErrorView::Validation { path, message: "name must not be empty"@ },
        Violation::EmptyExecutable(i) => ProfileErrorView::Validation {
            path,
            message: "applications["@ + decimal(i) + "].executable must not be empty"@,
        },
        Violation::EmptyBrowserExecutable => ProfileErrorView::Validation {
            path,
            message: "browser.executable must not be empty when browser block is set"@,
        },
    }
}

fn validation_error(path: &str, message: &str) -> (r: ProfileError)
    ensures
        r@ == (ProfileErrorView::Validation { path: path@, message: message@ }),
{
    ProfileError::Validation { path: String::from_str(path), message: String::from_str(message) }
}

impl SessionProfile {
    /// A fresh profile: current schema, a new random session id, the name
    /// `New session`, nothing to launch.
    pub fn new_blank() -> (r: Self)
        ensures
            r.schema_version == CURRENT_PROFILE_SCHEMA_VERSION,
            crate::host::is_hyphenated_uuid(r.session_id@),
            r.name@ == "New session"@,
            r.applications@.len() == 0,
            r.browser is None,
            r.cleanup is None,
    {
        SessionProfile {
            schema_version: CURRENT_PROFILE_SCHEMA_VERSION,
            session_id: new_uuid_string(),
            name: String::from_str("New session"),
            applications: Vec::new(),
            browser: None,
            cleanup: None,
        }
    }

    /// Checks the profile after parsing (see `violation`); the error names
    /// `path_hint`.
    pub fn validate(&self, path_hint: &str) -> (r: Result<(), ProfileError>)
        ensures
            match r {
                Ok(()) => violation(*self) is None,
                Err(e) => violation(*self) matches Some(v) && e@ == violation_error(
                    v,
                    path_hint@,
                    self.schema_version,
                ),
            },
    {
        if self.schema_version == 0 {
            return Err(validation_error(path_hint, "schema_version must be a positive integer"));
        }
        if self.schema_version > SUPPORTED_PROFILE_SCHEMA_VERSION {
            return Err(
                ProfileError::UnsupportedSchema {
                    path: String::from_str(path_hint),
                    found: self.schema_version,
                    supported: SUPPORTED_PROFILE_SCHEMA_VERSION,
                },
            );
        }
        if trim_str(self.session_id.as_str()).len() == 0 {
            return Err(validation_error(path_hint, "session_id must not be empty"));
        }
        if trim_str(self.name.as_str()).len() == 0 {
            return Err(validation_error(path_hint, "name must not be empty"));
        }
        let n = self.applications.len();
        let mut i: usize = 0;
        while i < n
            invariant
                n == self.applications@.len(),
                i <= n,
                self.schema_version != 0,
                self.schema_version <= SUPPORTED_PROFILE_SCHEMA_VERSION,
                trim(self.session_id@).len() > 0,
                trim(self.name@).len() > 0,
                first_blank_executable(self.applications@, 0) == first_blank_executable(
                    self.applications@,
                    i as int,
                ),
            decreases n - i,
        {
            if trim_str(self.applications[i].executable.as_str()).len() == 0 {
                let mut msg: Vec<char> = Vec::new();
                append(&mut msg, "applications[");
                append_chars(&mut msg, decimal_chars(i as u64).as_slice());
                append(&mut msg, "].executable must not be empty");
                let m = string_of(msg.as_slice());
                return Err(ProfileError::Validation { path: String::from_str(path_hint), message: m });
            }
            i += 1;
        }
        match &self.browser {
            Some(b) => {
                if trim_str(b.executable.as_str()).len() == 0 {
                    return Err(
                        validation_error(
                            path_hint,
                            "browser.executable must not be empty when browser block is set",
                        ),
                    );
                }
            },
            None => {},
        }
        Ok(())
    }
}

// ---------------------------------------------------------------------------
// Normal form
// ---------------------------------------------------------------------------

/// `e` is the application entry made of a top-level browser block.
pub open spec fn is_browser_entry_of(e: ApplicationLaunchEntry, b: ProfileBrowserBlock) -> bool {
    &&& e.executable == b.executable
    &&& e.args@.len() == 0
    &&& e.cwd is None
    &&& e.skip_if_running is None
    &&& e.browser == Some(
        ApplicationBrowserSettings {
            family: b.family,
            user_data_dir: b.user_data_dir,
            firefox_profile: b.firefox_profile,
            firefox_no_remote: b.firefox_no_remote,
            urls: b.urls,
        },
    )
}

impl SessionProfile {
    /// The form used for activation: a top-level browser block becomes the
    /// first application entry (with the block's settings), so that the
    /// browser launches first; everything else is kept.
    pub fn normalize(self) -> (r: Self)
        ensures
            r.schema_version == self.schema_version,
            r.session_id == self.session_id,
            r.name == self.name,
            r.cleanup == self.cleanup,
            r.browser is None,
            match self.browser {
                Some(b) => r.applications@.len() == self.applications@.len() + 1
                    && is_browser_entry_of(r.applications@[0], b) && r.applications@.drop_first()
                    == self.applications@,
                None => r.applications@ == self.applications@,
            },
    {
        let mut p = self;
        match p.browser {
            Some(b) => {
                let entry = ApplicationLaunchEntry {
                    executable: b.executable,
                    args: Vec::new(),
                    cwd: None,
                    skip_if_running: None,
                    browser: Some(
                        ApplicationBrowserSettings {
                            family: b.family,
                            user_data_dir: b.user_data_dir,
                            firefox_profile: b.firefox_profile,
                            firefox_no_remote: b.firefox_no_remote,
                            urls: b.urls,
                        },
                    ),
                };
                let ghost apps = p.applications@;
                let mut applications = p.applications;
                applications.insert(0, entry);
                assert(applications@.drop_first() =~= apps);
                SessionProfile {
                    schema_version: p.schema_version,
                    session_id: p.session_id,
                    name: p.name,
                    applications,
                    browser: None,
                    cleanup: p.cleanup,
                }
            },
            None => p,
        }
    }
}

impl ApplicationLaunchEntry {
    /// The browser block of a browser entry: its settings with the entry's
    /// executable.
    pub fn to_profile_browser_block(&self) -> (r: Option<ProfileBrowserBlock>)
        ensures
            match r {
                Some(blk) => launch_block(launch_view(*self)) == Some(block_view(blk)),
                None => launch_block(launch_view(*self)) is None,
            },
    {
        match &self.browser {
            Some(b) => Some(
                ProfileBrowserBlock {
                    family: b.family,
                    executable: clone_string(&self.executable),
                    user_data_dir: crate::text::clone_opt_string(&b.user_data_dir),
                    firefox_profile: crate::text::clone_opt_string(&b.firefox_profile),
                    firefox_no_remote: b.firefox_no_remote,
                    urls: clone_strings(&b.urls),
                },
            ),
            None => None,
        }
    }
}

// ---------------------------------------------------------------------------
// Paths under the profiles root
// ---------------------------------------------------------------------------

/// `Path::starts_with`: the components of `b` are a prefix of those of `a`.
pub open spec fn path_starts_with(a: Seq<char>, b: Seq<char>) -> bool {
    let an = path_names(a);
    let bn = path_names(b);
    let b_cur = crate::platform::leading_cur(b);
    if !is_absolute(b) && !b_cur && bn.len() == 0 {
        true
    } else {
        &&& is_absolute(a) == is_absolute(b)
        &&& crate::platform::leading_cur(a) == b_cur
        &&& bn.len() <= an.len()
        &&& an.take(bn.len() as int) == bn
    }
}

pub fn path_starts_with_str(a: &str, b: &str) -> (r: bool)
    ensures
        r == path_starts_with(a@, b@),
{
    let av = chars_of(a);
    let bv = chars_of(b);
    let an = crate::platform::names_of(av.as_slice());
    let bn = crate::platform::names_of(bv.as_slice());
    let a_abs = av.len() > 0 && av[0] == '/';
    let b_abs = bv.len() > 0 && bv[0] == '/';
    let a_cur = av.len() > 0 && av[0] == '.' && (av.len() == 1 || av[1] == '/');
    let b_cur = bv.len() > 0 && bv[0] == '.' && (bv.len() == 1 || bv[1] == '/');
    if !b_abs && !b_cur && bn.len() == 0 {
        return true;
    }
    if a_abs != b_abs || a_cur != b_cur || bn.len() > an.len() {
        return false;
    }
    let ghost anv = seqs_of_vecs(an@);
    let ghost bnv = seqs_of_vecs(bn@);
    let n = bn.len();
    for i in 0..n
        invariant
            n == bn@.len(),
            n <= an@.len(),
            anv == seqs_of_vecs(an@),
            bnv == seqs_of_vecs(bn@),
            anv == path_names(a@),
            bnv == path_names(b@),
            is_absolute(b@) || crate::platform::leading_cur(b@) || bnv.len() > 0,
            forall|j: int| 0 <= j < i ==> anv[j] == bnv[j],
    {
        if !crate::text::chars_eq(an[i].as_slice(), bn[i].as_slice()) {
            assert(anv.take(n as int)[i as int] != bnv[i as int]);
            return false;
        }
    }
    assert(anv.take(n as int) =~= bnv);
    true
}

/// `..` pops the last segment, other names are pushed.
pub open spec fn resolve_dots(names: Seq<Seq<char>>, n: int) -> Seq<Seq<char>>
    decreases n,
{
    if n <= 0 {
        Seq::empty()
    } else {
        let st = resolve_dots(names, n - 1);
        if names[n - 1] == ".."@ {
            if st.len() > 0 {
                st.drop_last()
            } else {
                st
            }
        } else {
            st.push(names[n - 1])
        }
    }
}

/// The lexically normalised form of `candidate` under `root_canon`:
/// joined to the root when relative, `.` dropped and `..` resolved.
pub open spec fn normalized_path(root_canon: Seq<char>, candidate: Seq<char>) -> Seq<char> {
    let joined = if is_absolute(candidate) {
        candidate
    } else {
        path_join(root_canon, candidate)
    };
    let names = path_names(joined);
    let stack = resolve_dots(names, names.len() as int);
    if is_absolute(joined) {
        if stack.len() == 0 {
            "/"@
        } else {
            "/"@ + crate::assistant::join(stack, "/"@)
        }
    } else {
        crate::assistant::join(stack, "/"@)
    }
}

/// Normalises a path that does not exist yet and refuses it unless it lies
/// under the canonical profiles root.
pub fn normalize_under(root_canon: &str, candidate: &str) -> (r: Result<String, ProfileError>)
    ensures
        match r {
            Ok(p) => p@ == normalized_path(root_canon@, candidate@) && path_starts_with(p@, root_canon@),
            Err(e) => e@ == ProfileErrorView::PathOutsideRoot && !path_starts_with(
                normalized_path(root_canon@, candidate@),
                root_canon@,
            ),
        },
{
    let cv = chars_of(candidate);
    let joined = if cv.len() > 0 && cv[0] == '/' {
        String::from_str(candidate)
    } else {
        join_path(root_canon, candidate)
    };
    let jv = chars_of(joined.as_str());
    let names = crate::platform::names_of(jv.as_slice());
    let ghost nv = seqs_of_vecs(names@);
    let mut stack: Vec<Vec<char>> = Vec::new();
    let n = names.len();
    for i in 0..n
        invariant
            n == names@.len(),
            nv == seqs_of_vecs(names@),
            seqs_of_vecs(stack@) == resolve_dots(nv, i as int),
    {
        assert(nv[i as int] == names@[i as int]@);
        if crate::text::is_lit(names[i].as_slice(), "..") {
            if stack.len() > 0 {
                let ghost before = seqs_of_vecs(stack@);
                stack.pop();
                assert(seqs_of_vecs(stack@) =~= before.drop_last());
            }
        } else {
            let ghost before = seqs_of_vecs(stack@);
            stack.push(crate::text::clone_chars(&names[i]));
            assert(seqs_of_vecs(stack@) =~= before.push(nv[i as int]));
        }
    }
    let joined_names = crate::assistant::join_with(&crate::text::strings_of(&stack), "/");
    let out = if jv.len() > 0 && jv[0] == '/' {
        if stack.len() == 0 {
            String::from_str("/")
        } else {
            let mut o: Vec<char> = Vec::new();
            o.push('/');
            append(&mut o, joined_names.as_str());
            assert(o@ =~= "/"@ + joined_names@) by {
                reveal_strlit("/");
            }
            string_of(o.as_slice())
        }
    } else {
        joined_names
    };
    assert(out@ == normalized_path(root_canon@, candidate@));
    if !path_starts_with_str(out.as_str(), root_canon) {
        return Err(ProfileError::PathOutsideRoot);
    }
    Ok(out)
}

// ---------------------------------------------------------------------------
// The profiles directory
// ---------------------------------------------------------------------------

/// One row of the profile catalog (a valid profile, or a file that is not
/// one).
#[derive(Debug, Clone, PartialEq, Eq)]
pub struct ProfileCatalogEntry {
    pub file_path: String,
    pub file_name: String,
    pub valid: bool,
    pub session_id: Option<String>,
    pub name: Option<String>,
    pub error: Option<String>,
    /// For a valid profile, the number of application entries.
    pub applications_count: Option<u32>,
    /// For a valid profile, whether it launches a browser only.
    pub browser_only: Option<bool>,
}

pub struct CatalogView {
    pub file_path: Seq<char>,
    pub file_name: Seq<char>,
    pub valid: bool,
    pub session_id: Option<Seq<char>>,
    pub name: Option<Seq<char>>,
    pub error: Option<Seq<char>>,
    pub applications_count: Option<u32>,
    pub browser_only: Option<bool>,
}

impl View for ProfileCatalogEntry {
    type V = CatalogView;

    open spec fn view(&self) -> CatalogView {
        CatalogView {
            file_path: self.file_path@,
            file_name: self.file_name@,
            valid: self.valid,
            session_id: opt_view(self.session_id),
            name: opt_view(self.name),
            error: opt_view(self.error),
            applications_count: self.applications_count,
            browser_only: self.browser_only,
        }
    }
}

pub open spec fn catalog_view(v: Seq<ProfileCatalogEntry>) -> Seq<CatalogView> {
    v.map_values(|e: ProfileCatalogEntry| e@)
}

/// What reading one profile file gave.
pub enum ProfileFile {
    /// The file could not be read (the reason).
    Unreadable(String),
    /// The file is not profile JSON (the parser's message).
    Invalid(String),
    Parsed(SessionProfile),
}

/// A directory entry of the profiles root.
pub struct CatalogFile {
    pub path: String,
    pub is_file: bool,
    pub content: ProfileFile,
}

/// The result of creating a profile.
#[derive(Debug, Clone)]
pub struct CreateProfileResult {
    pub file_path: String,
    pub profile: SessionProfile,
}

/// The result of duplicating or importing a profile.
#[derive(Debug, Clone)]
pub struct DuplicateProfileResult {
    pub file_path: String,
    pub profile: SessionProfile,
}

/// The catalog row of a file.
pub open spec fn catalog_row(path: Seq<char>, name: Seq<char>, content: ProfileFile) -> CatalogView {
    let invalid = |msg: Seq<char>|
        CatalogView {
            file_path: path,
            file_name: name,
            valid: false,
            session_id: None,
            name: None,
            error: Some(msg),
            applications_count: None,
            browser_only: None,
        };
    match content {
        ProfileFile::Unreadable(m) => invalid("read "@ + path + ": "@ + m@),
        ProfileFile::Invalid(m) => invalid(
            error_text(ProfileErrorView::InvalidJson { path, message: m@ }),
        ),
        ProfileFile::Parsed(p) => match violation(p) {
            Some(v) => invalid(error_text(violation_error(v, path, p.schema_version))),
            None => CatalogView {
                file_path: path,
                file_name: name,
                valid: true,
                session_id: Some(p.session_id@),
                name: Some(p.name@),
                error: None,
                applications_count: Some(p.applications@.len() as u32),
                browser_only: Some(p.browser is Some && p.applications@.len() == 0),
            },
        },
    }
}

/// Builds the catalog row of one profile file.
pub fn catalog_entry(file_path: &str, file_name: &str, content: ProfileFile) -> (r: ProfileCatalogEntry)
    ensures
        r@ == catalog_row(file_path@, file_name@, content),
{
    let ghost c = content;
    let err = match content {
        ProfileFile::Unreadable(m) => {
            let mut o: Vec<char> = Vec::new();
            append(&mut o, "read ");
            append(&mut o, file_path);
            append(&mut o, ": ");
            append(&mut o, m.as_str());
            string_of(o.as_slice())
        },
        ProfileFile::Invalid(m) => {
            let e = ProfileError::InvalidJson { path: String::from_str(file_path), message: m };
            e.message()
        },
        ProfileFile::Parsed(p) => {
            match p.validate(file_path) {
                Ok(()) => {
                    let count = p.applications.len() as u32;
                    let browser_only = p.browser.is_some() && p.applications.len() == 0;
                    let r = ProfileCatalogEntry {
                        file_path: String::from_str(file_path),
                        file_name: String::from_str(file_name),
                        valid: true,
                        session_id: Some(p.session_id),
                        name: Some(p.name),
                        error: None,
                        applications_count: Some(count),
                        browser_only: Some(browser_only),
                    };
                    return r;
                },
                Err(e) => e.message(),
            }
        },
    };
    ProfileCatalogEntry {
        file_path: String::from_str(file_path),
        file_name: String::from_str(file_name),
        valid: false,
        session_id: None,
        name: None,
        error: Some(err),
        applications_count: None,
        browser_only: None,
    }
}

/// A catalog file: a regular file with extension `json` (any ASCII case).
pub open spec fn is_profile_file(path: Seq<char>) -> bool {
    crate::desktop_index::extension(path) matches Some(e) && eq_ignore_ascii_case(e, "json"@)
}

pub fn is_profile_file_path(path: &str) -> (r: bool)
    ensures
        r == is_profile_file(path@),
{
    let pv = chars_of(path);
    let name = match crate::text::file_name_chars(pv.as_slice()) {
        Some(n) => n,
        None => {
            return false;
        },
    };
    let mut k: usize = name.len();
    while k > 0
        invariant
            k <= name@.len(),
            crate::text::file_name(path@) == Some(name@),
            crate::desktop_index::last_index_of(name@, '.', name@.len() as int)
                == crate::desktop_index::last_index_of(name@, '.', k as int),
        decreases k,
    {
        if name[k - 1] == '.' {
            if k - 1 == 0 {
                return false;
            }
            let mut ext: Vec<char> = Vec::new();
            let mut j = k;
            while j < name.len()
                invariant
                    k <= j <= name@.len(),
                    ext@ == name@.subrange(k as int, j as int),
                decreases name@.len() - j,
            {
                ext.push(name[j]);
                assert(name@.subrange(k as int, j + 1) =~= name@.subrange(k as int, j as int).push(name@[j as int]));
                j += 1;
            }
            let json = chars_of("json");
            return eq_ignore_ascii_case_chars(ext.as_slice(), json.as_slice());
        }
        k -= 1;
    }
    false
}

/// The file name shown in the catalog (empty when the path has none).
pub open spec fn shown_name(path: Seq<char>) -> Seq<char> {
    match crate::text::file_name(path) {
        Some(n) => n,
        None => Seq::empty(),
    }
}

/// The rows of the catalog files among the first `n` entries, in order.
pub open spec fn catalog_rows(files: Seq<CatalogFile>, n: int) -> Seq<CatalogView>
    decreases n,
{
    if n <= 0 {
        Seq::empty()
    } else {
        let f = files[n - 1];
        if f.is_file && is_profile_file(f.path@) {
            catalog_rows(files, n - 1).push(catalog_row(f.path@, shown_name(f.path@), f.content))
        } else {
            catalog_rows(files, n - 1)
        }
    }
}

/// Sorted by file name (code-point order), ties in any order.
pub open spec fn sorted_by_file_name(rs: Seq<CatalogView>) -> bool {
    forall|i: int| 0 <= i < rs.len() - 1 ==> !#[trigger] lex_lt(rs[i + 1].file_name, rs[i].file_name)
}

/// Sorts catalog rows by file name; the same rows come out.
pub fn sort_catalog(v: Vec<ProfileCatalogEntry>) -> (r: Vec<ProfileCatalogEntry>)
    ensures
        sorted_by_file_name(catalog_view(r@)),
        catalog_view(r@).to_multiset() == catalog_view(v@).to_multiset(),
{
    broadcast use vstd::multiset::group_multiset_axioms;

    let ghost orig = catalog_view(v@).to_multiset();
    let mut v = v;
    let mut r: Vec<ProfileCatalogEntry> = Vec::new();
    proof {
        assert(catalog_view(r@) =~= Seq::<CatalogView>::empty());
        assert(catalog_view(r@).to_multiset() =~= vstd::multiset::Multiset::<CatalogView>::empty()) by {
            broadcast use vstd::seq_lib::group_to_multiset_ensures;
        }
        assert(catalog_view(v@).to_multiset().add(catalog_view(r@).to_multiset()) =~= orig);
    }
    while v.len() > 0
        invariant
            sorted_by_file_name(catalog_view(r@)),
            catalog_view(v@).to_multiset().add(catalog_view(r@).to_multiset()) == orig,
        decreases v@.len(),
    {
        let ghost v0 = catalog_view(v@);
        let x = v.pop().unwrap();
        proof {
            assert(v0 =~= catalog_view(v@).push(x@));
            vstd::seq_lib::to_multiset_build(catalog_view(v@), x@);
        }
        let xn = chars_of(x.file_name.as_str());
        let mut j: usize = 0;
        let ghost rv = catalog_view(r@);
        while j < r.len()
            invariant
                rv == catalog_view(r@),
                j <= r@.len(),
                xn@ == x@.file_name,
                forall|k: int| 0 <= k < j ==> lex_lt(#[trigger] rv[k].file_name, x@.file_name),
            ensures
                rv == catalog_view(r@),
                j <= r@.len(),
                forall|k: int| 0 <= k < j ==> lex_lt(#[trigger] rv[k].file_name, x@.file_name),
                j < r@.len() ==> !lex_lt(rv[j as int].file_name, x@.file_name),
            decreases r@.len() - j,
        {
            assert(rv[j as int] == r@[j as int]@);
            if !crate::order::lex_less(chars_of(r[j].file_name.as_str()).as_slice(), xn.as_slice()) {
                break;
            }
            j += 1;
        }
        let ghost xv = x@;
        r.insert(j, x);
        proof {
            let r1 = catalog_view(r@);
            assert(r1 =~= rv.insert(j as int, xv));
            vstd::seq_lib::to_multiset_insert(rv, j as int, xv);
            assert forall|i: int| 0 <= i < r1.len() - 1 implies !#[trigger] lex_lt(r1[i + 1].file_name, r1[i].file_name) by {
                if i < j - 1 {
                    assert(r1[i] == rv[i] && r1[i + 1] == rv[i + 1]);
                    assert(!lex_lt(rv[i + 1].file_name, rv[i].file_name));
                } else if i == j - 1 {
                    assert(r1[i] == rv[i]);
                    crate::order::lemma_lex_asym(rv[i].file_name, xv.file_name);
                } else if i == j {
                } else {
                    assert(r1[i] == rv[i - 1] && r1[i + 1] == rv[i]);
                    assert(!lex_lt(rv[i - 1 + 1].file_name, rv[i - 1].file_name));
                }
            }
            assert(catalog_view(v@).to_multiset().add(r1.to_multiset()) =~= orig);
        }
    }
    proof {
        assert(catalog_view(v@) =~= Seq::<CatalogView>::empty());
        assert(catalog_view(v@).to_multiset() =~= vstd::multiset::Multiset::<CatalogView>::empty()) by {
            broadcast use vstd::seq_lib::group_to_multiset_ensures;
        }
        assert(catalog_view(r@).to_multiset() =~= orig);
    }
    r
}

/// Loads, validates and persists session profiles under a root directory.
pub struct ProfileDirectory {
    root: String,
}

impl ProfileDirectory {
    pub closed spec fn root_view(&self) -> Seq<char> {
        self.root@
    }

    pub fn new(root: String) -> (r: Self)
        ensures
            r.root_view() == root@,
    {
        ProfileDirectory { root }
    }

    pub fn root(&self) -> (r: &String)
        ensures
            r@ == self.root_view(),
    {
        &self.root
    }

    /// The catalog of the profiles root: nothing when the root does not
    /// exist, an error when it is not a directory, else a row for each
    /// `.json` file sorted by file name.
    pub fn catalog_from(&self, root_exists: bool, root_is_dir: bool, files: Vec<CatalogFile>) -> (r:
        Result<Vec<ProfileCatalogEntry>, ProfileError>)
        ensures
            !root_exists ==> (r matches Ok(v) && v@.len() == 0),
            root_exists && !root_is_dir ==> (r matches Err(e) && e@ == ProfileErrorView::RootUnavailable(
                self.root_view() + " is not a directory"@,
            )),
            root_exists && root_is_dir ==> (r matches Ok(v) && sorted_by_file_name(catalog_view(v@))
                && catalog_view(v@).to_multiset() == catalog_rows(files@, files@.len() as int).to_multiset()),
    {
        if !root_exists {
            return Ok(Vec::new());
        }
        if !root_is_dir {
            let mut m: Vec<char> = Vec::new();
            append(&mut m, self.root.as_str());
            append(&mut m, " is not a directory");
            return Err(ProfileError::RootUnavailable(string_of(m.as_slice())));
        }
        let ghost fs = files@;
        let mut entries: Vec<ProfileCatalogEntry> = Vec::new();
        let mut files = files;
        let n = files.len();
        let mut i: usize = 0;
        while i < n
            invariant
                n == fs.len(),
                i <= n,
                files@.len() == n - i,
                forall|k: int| 0 <= k < n - i ==> #[trigger] files@[k] == fs[k + i],
                catalog_view(entries@) == catalog_rows(fs, i as int),
            decreases n - i,
        {
            let f = files.remove(0);
            assert(f == fs[i as int]);
            if f.is_file && is_profile_file_path(f.path.as_str()) {
                let name = match crate::text::file_name_chars(chars_of(f.path.as_str()).as_slice()) {
                    Some(nm) => string_of(nm.as_slice()),
                    None => String::new(),
                };
                let row = catalog_entry(f.path.as_str(), name.as_str(), f.content);
                let ghost before = catalog_view(entries@);
                entries.push(row);
                assert(catalog_view(entries@) =~= before.push(row@));
            }
            i += 1;
        }
        Ok(sort_catalog(entries))
    }

    /// The path a user path names: as given when absolute, else under the
    /// root (trimmed either way).
    pub fn candidate_path(&self, user_path: &str) -> (r: String)
        ensures
            r@ == if is_absolute(trim(user_path@)) {
                trim(user_path@)
            } else {
                path_join(self.root_view(), trim(user_path@))
            },
    {
        let t = string_of(trim_str(user_path).as_slice());
        let tv = chars_of(t.as_str());
        if tv.len() > 0 && tv[0] == '/' {
            t
        } else {
            join_path(self.root.as_str(), t.as_str())
        }
    }

    /// Resolves a user path under the root, given the canonical root and,
    /// when the candidate exists, its canonical form: an existing path must
    /// lie under the root; a missing one is an error unless allowed, in which
    /// case it is normalised under the root.
    pub fn resolve_under_root_with(
        &self,
        user_path: &str,
        allow_missing: bool,
        root_canon: &str,
        candidate_canon: Option<String>,
    ) -> (r: Result<String, ProfileError>)
        ensures
            match candidate_canon {
                Some(t) => if path_starts_with(t@, root_canon@) {
                    r matches Ok(p) && p@ == t@
                } else {
                    r matches Err(e) && e@ == ProfileErrorView::PathOutsideRoot
                },
                None => if !allow_missing {
                    r matches Err(e) && e@ == ProfileErrorView::Io(
                        "profile file not found: "@ + (if is_absolute(trim(user_path@)) {
                            trim(user_path@)
                        } else {
                            path_join(self.root_view(), trim(user_path@))
                        }),
                    )
                } else {
                    let cand = if is_absolute(trim(user_path@)) {
                        trim(user_path@)
                    } else {
                        path_join(self.root_view(), trim(user_path@))
                    };
                    match r {
                        Ok(p) => p@ == normalized_path(root_canon@, cand) && path_starts_with(p@, root_canon@),
                        Err(e) => e@ == ProfileErrorView::PathOutsideRoot && !path_starts_with(
                            normalized_path(root_canon@, cand),
                            root_canon@,
                        ),
                    }
                },
            },
    {
        let candidate = self.candidate_path(user_path);
        match candidate_canon {
            Some(t) => {
                if !path_starts_with_str(t.as_str(), root_canon) {
                    return Err(ProfileError::PathOutsideRoot);
                }
                Ok(t)
            },
            None => {
                if !allow_missing {
                    let mut m: Vec<char> = Vec::new();
                    append(&mut m, "profile file not found: ");
                    append(&mut m, candidate.as_str());
                    return Err(ProfileError::Io(string_of(m.as_slice())));
                }
                normalize_under(root_canon, candidate.as_str())
            },
        }
    }

    /// Where a new profile with this session id is written:
    /// `<root>/<session_id>.json`.
    pub fn profile_path_for(&self, session_id: &str) -> (r: String)
        ensures
            r@ == path_join(self.root_view(), session_id@ + ".json"@),
    {
        let mut name: Vec<char> = Vec::new();
        append(&mut name, session_id);
        append(&mut name, ".json");
        let n = string_of(name.as_slice());
        join_path(self.root.as_str(), n.as_str())
    }

    /// Where and what `save_file` writes: the user path resolved under the
    /// root (it may be missing), and the profile validated against that path
    /// and stamped with the current schema.
    pub fn save_file(
        &self,
        user_path: &str,
        profile: SessionProfile,
        root_canon: &str,
        candidate_canon: Option<String>,
    ) -> (r: Result<(String, SessionProfile), ProfileError>)
        ensures
            ({
                let cand = if is_absolute(trim(user_path@)) {
                    trim(user_path@)
                } else {
                    path_join(self.root_view(), trim(user_path@))
                };
                let resolved: Option<Seq<char>> = match candidate_canon {
                    Some(t) => if path_starts_with(t@, root_canon@) {
                        Some(t@)
                    } else {
                        None
                    },
                    None => Some(normalized_path(root_canon@, cand)),
                };
                let inside = match resolved {
                    Some(p) => path_starts_with(p, root_canon@),
                    None => false,
                };
                match r {
                    Ok((path, p)) => inside && path@ == resolved->0 && violation(profile) is None
                        && p == (SessionProfile { schema_version: CURRENT_PROFILE_SCHEMA_VERSION, ..profile }),
                    Err(e) => !inside && e@ == ProfileErrorView::PathOutsideRoot || inside && (violation(
                        profile,
                    ) matches Some(v) && e@ == violation_error(v, resolved->0, profile.schema_version)),
                }
            }),
            (match candidate_canon {
                Some(t) => path_starts_with(t@, root_canon@),
                None => path_starts_with(normalized_path(root_canon@, if is_absolute(trim(user_path@)) {
                    trim(user_path@)
                } else {
                    path_join(self.root_view(), trim(user_path@))
                }), root_canon@),
            }) && violation(profile) is None ==> r is Ok,
    {
        let path = self.resolve_under_root_with(user_path, true, root_canon, candidate_canon)?;
        let p = prepare_save(path.as_str(), profile)?;
        Ok((path, p))
    }
}

/// What a profile file gave: the parser's message becomes an invalid-JSON
/// error naming `path_label`; a parsed profile must be valid.
pub fn parse_and_validate(path_label: &str, parsed: Result<SessionProfile, String>) -> (r: Result<
    SessionProfile,
    ProfileError,
>)
    ensures
        match parsed {
            Err(m) => r matches Err(e) && e@ == (ProfileErrorView::InvalidJson { path: path_label@, message: m@ }),
            Ok(profile) => match violation(profile) {
                Some(v) => r matches Err(e) && e@ == violation_error(v, path_label@, profile.schema_version),
                None => r == Ok::<SessionProfile, ProfileError>(profile),
            },
        },
{
    match parsed {
        Err(m) => Err(ProfileError::InvalidJson { path: String::from_str(path_label), message: m }),
        Ok(profile) => {
            profile.validate(path_label)?;
            Ok(profile)
        },
    }
}

/// A profile about to be saved at `path`: validated, stamped with the
/// current schema.
pub fn prepare_save(path: &str, profile: SessionProfile) -> (r: Result<SessionProfile, ProfileError>)
    ensures
        match r {
            Ok(p) => violation(profile) is None && p == (SessionProfile {
                schema_version: CURRENT_PROFILE_SCHEMA_VERSION,
                ..profile
            }),
            Err(e) => violation(profile) matches Some(v) && e@ == violation_error(
                v,
                path@,
                profile.schema_version,
            ),
        },
{
    profile.validate(path)?;
    let mut p = profile;
    p.schema_version = CURRENT_PROFILE_SCHEMA_VERSION;
    Ok(p)
}

/// The copy of a loaded profile: a new random session id, the name with
/// ` (copy)` appended, the current schema.
pub fn duplicate_profile(profile: SessionProfile) -> (r: SessionProfile)
    ensures
        crate::host::is_hyphenated_uuid(r.session_id@),
        r.name@ == profile.name@ + " (copy)"@,
        r.schema_version == CURRENT_PROFILE_SCHEMA_VERSION,
        r.applications == profile.applications,
        r.browser == profile.browser,
        r.cleanup == profile.cleanup,
{
    let mut name: Vec<char> = Vec::new();
    append(&mut name, profile.name.as_str());
    append(&mut name, " (copy)");
    SessionProfile {
        schema_version: CURRENT_PROFILE_SCHEMA_VERSION,
        session_id: new_uuid_string(),
        name: string_of(name.as_slice()),
        applications: profile.applications,
        browser: profile.browser,
        cleanup: profile.cleanup,
    }
}

/// The copy of a profile under an explicit display name (trimmed, not
/// blank; the error names `user_path`). The name is checked before what
/// loading the file gave (`loaded`), whose error is passed on.
pub fn duplicate_profile_with_display_name(
    user_path: &str,
    loaded: Result<SessionProfile, ProfileError>,
    display_name: &str,
) -> (r: Result<SessionProfile, ProfileError>)
    ensures
        trim(display_name@).len() == 0 ==> (r matches Err(e) && e@ == (ProfileErrorView::Validation {
            path: user_path@,
            message: "display name must not be empty"@,
        })),
        trim(display_name@).len() > 0 ==> match loaded {
            Err(le) => r matches Err(e) && e@ == le@,
            Ok(profile) => r matches Ok(p) && crate::host::is_hyphenated_uuid(p.session_id@) && p.name@ == trim(
                display_name@,
            ) && p.schema_version == CURRENT_PROFILE_SCHEMA_VERSION && p.applications == profile.applications
                && p.browser == profile.browser && p.cleanup == profile.cleanup,
        },
{
    let name = trim_str(display_name);
    if name.len() == 0 {
        return Err(validation_error(user_path, "display name must not be empty"));
    }
    let profile = loaded?;
    Ok(
        SessionProfile {
            schema_version: CURRENT_PROFILE_SCHEMA_VERSION,
            session_id: new_uuid_string(),
            name: string_of(name.as_slice()),
            applications: profile.applications,
            browser: profile.browser,
            cleanup: profile.cleanup,
        },
    )
}

/// A profile imported from JSON: the display name (trimmed) must not be
/// blank; then the JSON must have parsed (`parsed` holds the parser's
/// message otherwise) and the profile be valid; it gets a new random
/// session id, the display name and the current schema.
pub fn import_profile(parsed: Result<SessionProfile, String>, display_name: &str) -> (r: Result<
    SessionProfile,
    ProfileError,
>)
    ensures
        trim(display_name@).len() == 0 ==> (r matches Err(e) && e@ == (ProfileErrorView::Validation {
            path: "import"@,
            message: "display name must not be empty"@,
        })),
        trim(display_name@).len() > 0 ==> match parsed {
            Err(m) => r matches Err(e) && e@ == (ProfileErrorView::InvalidJson {
                path: "import.json"@,
                message: m@,
            }),
            Ok(profile) => match violation(profile) {
                Some(v) => r matches Err(e) && e@ == violation_error(v, "<import>"@, profile.schema_version),
                None => r matches Ok(p) && crate::host::is_hyphenated_uuid(p.session_id@) && p.name@ == trim(
                    display_name@,
                ) && p.schema_version == CURRENT_PROFILE_SCHEMA_VERSION && p.applications
                    == profile.applications && p.browser == profile.browser && p.cleanup == profile.cleanup,
            },
        },
{
    let name = trim_str(display_name);
    if name.len() == 0 {
        return Err(validation_error("import", "display name must not be empty"));
    }
    let profile = match parsed {
        Ok(p) => p,
        Err(m) => {
            return Err(ProfileError::InvalidJson { path: String::from_str("import.json"), message: m });
        },
    };
    profile.validate("<import>")?;
    Ok(
        SessionProfile {
            schema_version: CURRENT_PROFILE_SCHEMA_VERSION,
            session_id: new_uuid_string(),
            name: string_of(name.as_slice()),
            applications: profile.applications,
            browser: profile.browser,
            cleanup: profile.cleanup,
        },
    )
}

// ---------------------------------------------------------------------------
// Launch views
// ---------------------------------------------------------------------------

/// A browser block as plain values.
pub struct BlockView {
    pub family: BrowserFamily,
    pub executable: Seq<char>,
    pub user_data_dir: Option<Seq<char>>,
    pub firefox_profile: Option<Seq<char>>,
    pub firefox_no_remote: Option<bool>,
    pub urls: Seq<Seq<char>>,
}

pub open spec fn block_view(b: ProfileBrowserBlock) -> BlockView {
    BlockView {
        family: b.family,
        executable: b.executable@,
        user_data_dir: opt_view(b.user_data_dir),
        firefox_profile: opt_view(b.firefox_profile),
        firefox_no_remote: b.firefox_no_remote,
        urls: seqs_of(b.urls@),
    }
}

/// Browser settings of an entry as plain values.
pub struct BrowserSettingsView {
    pub family: BrowserFamily,
    pub user_data_dir: Option<Seq<char>>,
    pub firefox_profile: Option<Seq<char>>,
    pub firefox_no_remote: Option<bool>,
    pub urls: Seq<Seq<char>>,
}

/// An application entry as plain values.
pub struct LaunchView {
    pub executable: Seq<char>,
    pub args: Seq<Seq<char>>,
    pub cwd: Option<Seq<char>>,
    pub skip_if_running: Option<bool>,
    pub browser: Option<BrowserSettingsView>,
}

pub open spec fn launch_view(e: ApplicationLaunchEntry) -> LaunchView {
    LaunchView {
        executable: e.executable@,
        args: seqs_of(e.args@),
        cwd: opt_view(e.cwd),
        skip_if_running: e.skip_if_running,
        browser: match e.browser {
            Some(b) => Some(
                BrowserSettingsView {
                    family: b.family,
                    user_data_dir: opt_view(b.user_data_dir),
                    firefox_profile: opt_view(b.firefox_profile),
                    firefox_no_remote: b.firefox_no_remote,
                    urls: seqs_of(b.urls@),
                },
            ),
            None => None,
        },
    }
}

/// The entry a top-level browser block becomes.
pub open spec fn block_launch_view(b: ProfileBrowserBlock) -> LaunchView {
    LaunchView {
        executable: b.executable@,
        args: Seq::empty(),
        cwd: None,
        skip_if_running: None,
        browser: Some(
            BrowserSettingsView {
                family: b.family,
                user_data_dir: opt_view(b.user_data_dir),
                firefox_profile: opt_view(b.firefox_profile),
                firefox_no_remote: b.firefox_no_remote,
                urls: seqs_of(b.urls@),
            },
        ),
    }
}

/// The browser block of a browser entry.
pub open spec fn launch_block(l: LaunchView) -> Option<BlockView> {
    match l.browser {
        Some(b) => Some(
            BlockView {
                family: b.family,
                executable: l.executable,
                user_data_dir: b.user_data_dir,
                firefox_profile: b.firefox_profile,
                firefox_no_remote: b.firefox_no_remote,
                urls: b.urls,
            },
        ),
        None => None,
    }
}

/// The entries of a profile in its normal form (see `normalize`).
pub open spec fn normalized_launches(p: SessionProfile) -> Seq<LaunchView> {
    let apps = p.applications@.map_values(|e: ApplicationLaunchEntry| launch_view(e));
    match p.browser {
        Some(b) => seq![block_launch_view(b)] + apps,
        None => apps,
    }
}

} // verus!
