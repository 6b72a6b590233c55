//! Browser launch commands for the Chromium-like and Firefox families,
//! browser recognition from executable names, and the default-browser
//! hint shown as a placeholder.

use vstd::prelude::*;

use crate::desktop_index::trim_end_all;
use crate::platform::{exe_basename, executable_basename, path_join, join_path};
use crate::profiles::{append, block_view, BlockView, ProfileBrowserBlock};
use crate::settings::BrowserFamily;
use crate::text::{
    chars_of, clone_string, clone_strings, contains, has_lit, is_lit, lines, lines_of, opt_view,
    seqs_of, seqs_of_vecs, split_words, starts_with, string_of, strip_prefix, trim, trim_chars,
    trim_str, words,
};

verus! {

/// Why a browser command could not be built.
#[derive(Debug, Clone, PartialEq, Eq)]
pub enum BrowserError {
    Message(String),
}

impl BrowserError {
    pub fn message(&self) -> (r: String)
        ensures
            match self {
                BrowserError::Message(m) => r@ == "browser launch error: "@ + m@,
            },
    {
        match self {
            BrowserError::Message(m) => {
                let mut o: Vec<char> = Vec::new();
                append(&mut o, "browser launch error: ");
                append(&mut o, m.as_str());
                string_of(o.as_slice())
            },
        }
    }
}

/// Program and arguments to spawn, with warnings for the activation
/// summary.
#[derive(Debug, Clone, PartialEq, Eq)]
pub struct BuiltBrowserCommand {
    pub program: String,
    pub args: Vec<String>,
    pub warnings: Vec<String>,
}

impl BuiltBrowserCommand {
    pub fn argv_for_spawn(&self) -> (r: (&String, &Vec<String>))
        ensures
            r.0@ == self.program@,
            seqs_of(r.1@) == seqs_of(self.args@),
    {
        (&self.program, &self.args)
    }
}

/// The Chromium-like arguments: `--new-window`, then
/// `--user-data-dir=<dir>` for a non-blank directory (trimmed), then the
/// URLs.
pub open spec fn chromium_args(b: BlockView) -> Seq<Seq<char>> {
    let head = seq!["--new-window"@];
    let with_dir = match b.user_data_dir {
        Some(d) => if trim(d).len() > 0 {
            head.push("--user-data-dir="@ + trim(d))
        } else {
            head
        },
        None => head,
    };
    with_dir + b.urls
}

fn push_all_strings(out: &mut Vec<String>, v: &Vec<String>)
    ensures
        seqs_of(final(out)@) == seqs_of(old(out)@) + seqs_of(v@),
{
    let ghost start = seqs_of(out@);
    for i in 0..v.len()
        invariant
            seqs_of(out@) == start + seqs_of(v@).take(i as int),
    {
        let ghost before = seqs_of(out@);
        out.push(clone_string(&v[i]));
        assert(seqs_of(out@) =~= before.push(v@[i as int]@));
        assert(seqs_of(v@).take(i + 1) =~= seqs_of(v@).take(i as int).push(v@[i as int]@));
        assert(start + seqs_of(v@).take(i + 1) =~= (start + seqs_of(v@).take(i as int)).push(v@[i as int]@));
    }
    assert(seqs_of(v@).take(v@.len() as int) =~= seqs_of(v@));
}

fn lit(s: &str) -> (r: String)
    ensures
        r@ == s@,
{
    String::from_str(s)
}

/// Chromium-like command: refused for another family or a blank
/// executable.
pub fn build_chromium_like_command(block: &ProfileBrowserBlock) -> (r: Result<BuiltBrowserCommand, BrowserError>)
    ensures
        block.family != BrowserFamily::ChromiumLike ==> (r matches Err(BrowserError::Message(m)) && m@
            == "expected chromium_like browser family, got Firefox"@),
        block.family == BrowserFamily::ChromiumLike && trim(block.executable@).len() == 0 ==> (r matches Err(
            BrowserError::Message(m),
        ) && m@ == "browser executable must not be empty"@),
        block.family == BrowserFamily::ChromiumLike && trim(block.executable@).len() > 0 ==> (r matches Ok(c)
            && c.program@ == block.executable@ && seqs_of(c.args@) == chromium_args(block_view(*block))
            && c.warnings@.len() == 0),
{
    match block.family {
        BrowserFamily::ChromiumLike => {},
        BrowserFamily::Firefox => {
            return Err(BrowserError::Message(lit("expected chromium_like browser family, got Firefox")));
        },
    }
    if trim_str(block.executable.as_str()).len() == 0 {
        return Err(BrowserError::Message(lit("browser executable must not be empty")));
    }
    let mut args: Vec<String> = Vec::new();
    args.push(lit("--new-window"));
    let ghost head = seqs_of(args@);
    assert(head =~= seq!["--new-window"@]);
    match &block.user_data_dir {
        Some(dir) => {
            let t = trim_str(dir.as_str());
            if t.len() > 0 {
                let mut a: Vec<char> = Vec::new();
                append(&mut a, "--user-data-dir=");
                let ts = string_of(t.as_slice());
                append(&mut a, ts.as_str());
                let ghost before = seqs_of(args@);
                args.push(string_of(a.as_slice()));
                assert(seqs_of(args@) =~= before.push("--user-data-dir="@ + trim(dir@)));
            }
        },
        None => {},
    }
    push_all_strings(&mut args, &block.urls);
    Ok(BuiltBrowserCommand { program: clone_string(&block.executable), args, warnings: Vec::new() })
}

/// The Firefox arguments: `-no-remote` when asked for, `-profile <dir>`
/// for a non-blank profile (trimmed), `--new-window`, then the URLs.
pub open spec fn firefox_args(b: BlockView) -> Seq<Seq<char>> {
    let a = if b.firefox_no_remote == Some(true) {
        seq!["-no-remote"@]
    } else {
        Seq::empty()
    };
    let p = match b.firefox_profile {
        Some(d) => if trim(d).len() > 0 {
            a.push("-profile"@).push(trim(d))
        } else {
            a
        },
        None => a,
    };
    p.push("--new-window"@) + b.urls
}

/// Firefox command: refused for another family or a blank executable.
pub fn build_firefox_command(block: &ProfileBrowserBlock) -> (r: Result<BuiltBrowserCommand, BrowserError>)
    ensures
        block.family != BrowserFamily::Firefox ==> (r matches Err(BrowserError::Message(m)) && m@
            == "expected firefox browser family, got ChromiumLike"@),
        block.family == BrowserFamily::Firefox && trim(block.executable@).len() == 0 ==> (r matches Err(
            BrowserError::Message(m),
        ) && m@ == "browser executable must not be empty"@),
        block.family == BrowserFamily::Firefox && trim(block.executable@).len() > 0 ==> (r matches Ok(c)
            && c.program@ == block.executable@ && seqs_of(c.args@) == firefox_args(block_view(*block))
            && c.warnings@.len() == 0),
{
    match block.family {
        BrowserFamily::Firefox => {},
        BrowserFamily::ChromiumLike => {
            return Err(BrowserError::Message(lit("expected firefox browser family, got ChromiumLike")));
        },
    }
    if trim_str(block.executable.as_str()).len() == 0 {
        return Err(BrowserError::Message(lit("browser executable must not be empty")));
    }
    let mut args: Vec<String> = Vec::new();
    let no_remote = match block.firefox_no_remote {
        Some(true) => true,
        _ => false,
    };
    if no_remote {
        args.push(lit("-no-remote"));
    }
    let ghost a = seqs_of(args@);
    assert(a =~= if block.firefox_no_remote == Some(true) {
        seq!["-no-remote"@]
    } else {
        Seq::<Seq<char>>::empty()
    });
    match &block.firefox_profile {
        Some(dir) => {
            let t = trim_str(dir.as_str());
            if t.len() > 0 {
                let ghost before = seqs_of(args@);
                args.push(lit("-profile"));
                args.push(string_of(t.as_slice()));
                assert(seqs_of(args@) =~= before.push("-profile"@).push(trim(dir@)));
            }
        },
        None => {},
    }
    let ghost before = seqs_of(args@);
    args.push(lit("--new-window"));
    assert(seqs_of(args@) =~= before.push("--new-window"@));
    push_all_strings(&mut args, &block.urls);
    Ok(BuiltBrowserCommand { program: clone_string(&block.executable), args, warnings: Vec::new() })
}

/// The isolation hints for a browser block: a Chromium-like browser
/// without a user data directory, or Firefox without a profile, shares the
/// user's everyday browser session.
pub open spec fn isolation_warnings(b: BlockView) -> Seq<Seq<char>> {
    match b.family {
        BrowserFamily::ChromiumLike => if b.user_data_dir matches Some(d) && trim(d).len() > 0 {
            Seq::empty()
        } else {
            seq![
                "no user_data_dir set: the browser shares the default profile and may open in an existing session"@,
            ]
        },
        BrowserFamily::Firefox => if b.firefox_profile matches Some(d) && trim(d).len() > 0 {
            Seq::empty()
        } else {
            seq![
                "no firefox_profile set: the browser shares the default profile and may open in an existing session"@,
            ]
        },
    }
}

/// The arguments for a browser block of its family.
pub open spec fn browser_args(b: BlockView) -> Seq<Seq<char>> {
    match b.family {
        BrowserFamily::ChromiumLike => chromium_args(b),
        BrowserFamily::Firefox => firefox_args(b),
    }
}

/// What a browser block launches with: the URLs come last, in the
/// profile's order. A Chromium-like browser starts with `--new-window`,
/// followed by `--user-data-dir=<dir>` (trimmed) exactly when the block
/// sets a non-blank user data directory. Firefox starts with `-no-remote`
/// exactly when asked for, gets `-profile <dir>` for a non-blank profile,
/// and has `--new-window` right before the URLs. The isolation warning is given exactly
/// when the block sets no such directory or profile.
pub proof fn law_browser_command_shape(b: BlockView)
    ensures
        ({
            let args = browser_args(b);
            let n = args.len() - b.urls.len();
            &&& n >= 1
            &&& args.subrange(n, args.len() as int) == b.urls
            &&& b.family == BrowserFamily::ChromiumLike ==> args[0] == "--new-window"@ && (n == 2 <==> (
            b.user_data_dir matches Some(d) && trim(d).len() > 0))
            &&& (b.family == BrowserFamily::ChromiumLike && (b.user_data_dir matches Some(d) && trim(d).len() > 0))
                ==> args[1] == "--user-data-dir="@ + trim(b.user_data_dir->0)
            &&& b.family == BrowserFamily::Firefox ==> args[n - 1] == "--new-window"@
            &&& b.family == BrowserFamily::Firefox ==> (args[0] == "-no-remote"@ <==> b.firefox_no_remote == Some(
                true,
            ))
            &&& (b.family == BrowserFamily::Firefox && (b.firefox_profile matches Some(d) && trim(d).len() > 0))
                ==> exists|i: int|
                0 <= i < browser_args(b).len() - b.urls.len() - 1 && #[trigger] browser_args(b)[i] == "-profile"@
                    && browser_args(b)[i + 1] == trim(b.firefox_profile->0)
            &&& (isolation_warnings(b).len() == 0 <==> match b.family {
                BrowserFamily::ChromiumLike => b.user_data_dir matches Some(d) && trim(d).len() > 0,
                BrowserFamily::Firefox => b.firefox_profile matches Some(d) && trim(d).len() > 0,
            })
        }),
{
    reveal_strlit("-no-remote");
    reveal_strlit("--new-window");
    reveal_strlit("-profile");
    let args = browser_args(b);
    let n = args.len() - b.urls.len();
    match b.family {
        BrowserFamily::ChromiumLike => {
            let head = seq!["--new-window"@];
            let with_dir = match b.user_data_dir {
                Some(d) => if trim(d).len() > 0 {
                    head.push("--user-data-dir="@ + trim(d))
                } else {
                    head
                },
                None => head,
            };
            assert(args == with_dir + b.urls);
            assert(args.subrange(n, args.len() as int) =~= b.urls);
            assert(args[n - 1] == with_dir.last());
            assert(args[0] == with_dir[0]);
            if b.user_data_dir matches Some(d) && trim(d).len() > 0 {
                assert(args[1] == with_dir[1]);
            }
        },
        BrowserFamily::Firefox => {
            let a = if b.firefox_no_remote == Some(true) {
                seq!["-no-remote"@]
            } else {
                Seq::empty()
            };
            let p = match b.firefox_profile {
                Some(d) => if trim(d).len() > 0 {
                    a.push("-profile"@).push(trim(d))
                } else {
                    a
                },
                None => a,
            };
            let q = p.push("--new-window"@);
            assert(args == q + b.urls);
            assert(args.subrange(n, args.len() as int) =~= b.urls);
            assert(args[n - 1] == q.last());
            assert(args[0] == q[0]);
            assert("-no-remote"@.len() == 10 && "-profile"@.len() == 8 && "--new-window"@.len() == 12);
            if b.firefox_profile matches Some(d) && trim(d).len() > 0 {
                let i = a.len() as int;
                assert(args[i] == q[i] && args[i + 1] == q[i + 1]);
            }
        },
    }
}

/// The command for a browser block of either family, with its isolation
/// hints as warnings.
pub fn build_browser_launch(block: &ProfileBrowserBlock) -> (r: Result<BuiltBrowserCommand, BrowserError>)
    ensures
        trim(block.executable@).len() == 0 <==> r is Err,
        r matches Err(BrowserError::Message(m)) ==> m@ == "browser executable must not be empty"@,
        r matches Ok(c) ==> c.program@ == block.executable@ && seqs_of(c.args@) == browser_args(
            block_view(*block),
        ) && seqs_of(c.warnings@) == isolation_warnings(block_view(*block)),
{
    let mut cmd = match block.family {
        BrowserFamily::ChromiumLike => build_chromium_like_command(block)?,
        BrowserFamily::Firefox => build_firefox_command(block)?,
    };
    let isolated = match block.family {
        BrowserFamily::ChromiumLike => match &block.user_data_dir {
            Some(d) => trim_str(d.as_str()).len() > 0,
            None => false,
        },
        BrowserFamily::Firefox => match &block.firefox_profile {
            Some(d) => trim_str(d.as_str()).len() > 0,
            None => false,
        },
    };
    let mut warnings: Vec<String> = Vec::new();
    if !isolated {
        match block.family {
            BrowserFamily::ChromiumLike => warnings.push(
                lit(
                    "no user_data_dir set: the browser shares the default profile and may open in an existing session",
                ),
            ),
            BrowserFamily::Firefox => warnings.push(
                lit(
                    "no firefox_profile set: the browser shares the default profile and may open in an existing session",
                ),
            ),
        }
    }
    assert(seqs_of(warnings@) =~= isolation_warnings(block_view(*block)));
    cmd.warnings = warnings;
    Ok(cmd)
}

// ---------------------------------------------------------------------------
// Recognising browsers
// ---------------------------------------------------------------------------

pub const FIREFOX_MARKERS: [&'static str; 5] = ["firefox", "librewolf", "waterfox", "floorp", "zen-browser"];

pub const CHROMIUM_MARKERS: [&'static str; 17] = [
    "chrome",
    "chromium",
    "vivaldi",
    "brave",
    "edge",
    "opera",
    "microsoft-edge",
    "google-chrome",
    "chromium-browser",
    "brave-browser",
    "vivaldi-bin",
    "vivaldi-stable",
    "google-chrome-stable",
    "microsoft-edge-stable",
    "thorium",
    "ungoogled-chromium",
    "x-www-browser",
];

/// The family an executable's basename names: Firefox when it holds a
/// Firefox-family marker, else Chromium-like when it holds a Chromium-family
/// marker, else none (also for an empty basename).
pub open spec fn browser_family_of(executable: Seq<char>) -> Option<BrowserFamily> {
    let base = exe_basename(executable);
    if base.len() == 0 {
        None
    } else if exists|i: int| 0 <= i < 5 && contains(base, #[trigger] FIREFOX_MARKERS@[i]@) {
        Some(BrowserFamily::Firefox)
    } else if exists|i: int|
        0 <= i < 17 && (base == #[trigger] CHROMIUM_MARKERS@[i]@ || contains(base, CHROMIUM_MARKERS@[i]@)) {
        Some(BrowserFamily::ChromiumLike)
    } else {
        None
    }
}

pub fn detect_browser_family(executable: &str) -> (r: Option<BrowserFamily>)
    ensures
        r == browser_family_of(executable@),
{
    let base = executable_basename(executable);
    let bv = chars_of(base.as_str());
    if bv.len() == 0 {
        return None;
    }
    for i in 0..5
        invariant
            bv@ == exe_basename(executable@),
            bv@.len() > 0,
            forall|k: int| 0 <= k < i ==> !contains(bv@, #[trigger] FIREFOX_MARKERS@[k]@),
    {
        if has_lit(bv.as_slice(), FIREFOX_MARKERS[i]) {
            assert(contains(bv@, FIREFOX_MARKERS@[i as int]@));
            return Some(BrowserFamily::Firefox);
        }
    }
    for i in 0..17
        invariant
            bv@ == exe_basename(executable@),
            bv@.len() > 0,
            forall|k: int| 0 <= k < 5 ==> !contains(bv@, #[trigger] FIREFOX_MARKERS@[k]@),
            forall|k: int|
                0 <= k < i ==> !(bv@ == #[trigger] CHROMIUM_MARKERS@[k]@ || contains(bv@, CHROMIUM_MARKERS@[k]@)),
    {
        if is_lit(bv.as_slice(), CHROMIUM_MARKERS[i]) || has_lit(bv.as_slice(), CHROMIUM_MARKERS[i]) {
            assert(bv@ == CHROMIUM_MARKERS@[i as int]@ || contains(bv@, CHROMIUM_MARKERS@[i as int]@));
            return Some(BrowserFamily::ChromiumLike);
        }
    }
    None
}

/// The family of a desktop id (`firefox.desktop`): that of the id without
/// its `.desktop` suffixes, else that of the id.
pub open spec fn family_of_desktop_id(id: Seq<char>) -> Option<BrowserFamily> {
    match browser_family_of(trim_end_all(id, ".desktop"@)) {
        Some(f) => Some(f),
        None => browser_family_of(id),
    }
}

pub fn infer_family_from_desktop_id(id: &str) -> (r: Option<BrowserFamily>)
    ensures
        r == family_of_desktop_id(id@),
{
    let iv = chars_of(id);
    let suffix = chars_of(".desktop");
    let stem = crate::desktop_index::trim_end_all_chars(iv.as_slice(), suffix.as_slice());
    let stem_s = string_of(stem.as_slice());
    match detect_browser_family(stem_s.as_str()) {
        Some(f) => Some(f),
        None => detect_browser_family(id),
    }
}

pub fn infer_family_from_executable(exe: &str) -> (r: Option<BrowserFamily>)
    ensures
        r == browser_family_of(exe@),
{
    detect_browser_family(exe)
}

// ---------------------------------------------------------------------------
// The default browser
// ---------------------------------------------------------------------------

/// The system's default web browser, as far as it can be told.
#[derive(Debug, Clone, PartialEq, Eq)]
pub struct SystemDefaultBrowserHint {
    /// The binary of the default browser's `Exec=` line, or what
    /// `which x-www-browser` names.
    pub executable: Option<String>,
    pub family: Option<BrowserFamily>,
    /// What `xdg-settings get default-web-browser` names (often a
    /// `*.desktop` id).
    pub desktop_entry: Option<String>,
}

/// A token that sets an environment variable (`NAME=value`), not a path.
pub open spec fn env_assignment(t: Seq<char>) -> bool {
    t.contains('=') && !starts_with(t, "/"@)
}

/// The position after `env` and its assignments, when the line starts
/// with `env`.
pub open spec fn skip_env_from(ts: Seq<Seq<char>>, i: int) -> int
    decreases ts.len() - i,
{
    if 0 <= i < ts.len() && env_assignment(ts[i]) {
        skip_env_from(ts, i + 1)
    } else {
        i
    }
}

/// The first token from `i` on that is neither a field code (`%…`) nor an
/// assignment.
pub open spec fn program_token_from(ts: Seq<Seq<char>>, i: int) -> Option<Seq<char>>
    decreases ts.len() - i,
{
    if i < 0 || i >= ts.len() {
        None
    } else if starts_with(ts[i], "%"@) || env_assignment(ts[i]) {
        program_token_from(ts, i + 1)
    } else {
        Some(ts[i])
    }
}

/// The program of one `Exec=` value.
pub open spec fn exec_program(rest: Seq<char>) -> Option<Seq<char>> {
    let ts = words(trim(rest));
    let start = if ts.len() > 0 && ts[0] == "env"@ {
        skip_env_from(ts, 1)
    } else {
        0
    };
    program_token_from(ts, start)
}

/// The program of the first `Exec=` line (trimmed) that names one.
pub open spec fn desktop_exec_from(ls: Seq<Seq<char>>, i: int) -> Option<Seq<char>>
    decreases ls.len() - i,
{
    if i < 0 || i >= ls.len() {
        None
    } else {
        match strip_prefix(trim(ls[i]), "Exec="@) {
            Some(rest) => match exec_program(rest) {
                Some(p) => Some(p),
                None => desktop_exec_from(ls, i + 1),
            },
            None => desktop_exec_from(ls, i + 1),
        }
    }
}

fn is_env_assignment(t: &[char]) -> (r: bool)
    ensures
        r == env_assignment(t@),
{
    crate::text::contains_char(t, '=') && !crate::text::starts_lit(t, "/")
}

fn exec_program_of(rest: &[char]) -> (r: Option<Vec<char>>)
    ensures
        match r {
            Some(p) => exec_program(rest@) == Some(p@),
            None => exec_program(rest@) is None,
        },
{
    let tr = trim_chars(rest);
    let ts = split_words(tr.as_slice());
    let ghost tv = seqs_of_vecs(ts@);
    let n = ts.len();
    let mut i: usize = 0;
    if n > 0 && is_lit(ts[0].as_slice(), "env") {
        assert(tv[0] == ts@[0]@);
        i = 1;
        while i < n && is_env_assignment(ts[i].as_slice())
            invariant
                n == ts@.len(),
                tv == seqs_of_vecs(ts@),
                tv == words(trim(rest@)),
                1 <= i <= n,
                skip_env_from(tv, 1) == skip_env_from(tv, i as int),
            decreases n - i,
        {
            assert(tv[i as int] == ts@[i as int]@);
            i += 1;
        }
        proof {
            if i < n {
                assert(tv[i as int] == ts@[i as int]@);
            }
        }
    } else {
        proof {
            if n > 0 {
                assert(tv[0] == ts@[0]@);
            }
        }
    }
    let ghost start = i as int;
    while i < n
        invariant
            n == ts@.len(),
            tv == seqs_of_vecs(ts@),
            tv == words(trim(rest@)),
            start == (if tv.len() > 0 && tv[0] == "env"@ {
                skip_env_from(tv, 1)
            } else {
                0
            }),
            start <= i <= n,
            program_token_from(tv, start) == program_token_from(tv, i as int),
        decreases n - i,
    {
        assert(tv[i as int] == ts@[i as int]@);
        if crate::text::starts_lit(ts[i].as_slice(), "%") || is_env_assignment(ts[i].as_slice()) {
            i += 1;
        } else {
            return Some(crate::text::clone_chars(&ts[i]));
        }
    }
    None
}

/// The program of the first `Exec=` line of a desktop file: field codes
/// and a leading `env VAR=…` chain are skipped.
pub fn parse_desktop_exec(content: &str) -> (r: Option<String>)
    ensures
        opt_view(r) == desktop_exec_from(lines(content@), 0),
{
    let ls = lines_of(chars_of(content).as_slice());
    let ghost lv = seqs_of_vecs(ls@);
    let pre = chars_of("Exec=");
    let n = ls.len();
    let mut i: usize = 0;
    while i < n
        invariant
            n == ls@.len(),
            lv == seqs_of_vecs(ls@),
            lv == lines(content@),
            pre@ == "Exec="@,
            i <= n,
            desktop_exec_from(lv, 0) == desktop_exec_from(lv, i as int),
        decreases n - i,
    {
        assert(lv[i as int] == ls@[i as int]@);
        let line = trim_chars(ls[i].as_slice());
        match crate::text::strip_prefix_chars(line.as_slice(), pre.as_slice()) {
            Some(rest) => match exec_program_of(rest.as_slice()) {
                Some(p) => {
                    return Some(string_of(p.as_slice()));
                },
                None => {},
            },
            None => {},
        }
        i += 1;
    }
    None
}

/// The first line of a command's output, trimmed, when not blank.
pub open spec fn first_output_line(out: Seq<char>) -> Option<Seq<char>> {
    let ls = lines(out);
    if ls.len() == 0 || trim(ls[0]).len() == 0 {
        None
    } else {
        Some(trim(ls[0]))
    }
}

pub fn output_first_line(out: &str) -> (r: Option<String>)
    ensures
        opt_view(r) == first_output_line(out@),
{
    let ls = lines_of(chars_of(out).as_slice());
    if ls.len() == 0 {
        return None;
    }
    assert(seqs_of_vecs(ls@)[0] == ls@[0]@);
    let t = trim_chars(ls[0].as_slice());
    if t.len() == 0 {
        None
    } else {
        Some(string_of(t.as_slice()))
    }
}

/// Where a desktop file of the default browser is looked for, in order.
pub open spec fn desktop_file_candidates(home: Option<Seq<char>>, name: Seq<char>) -> Seq<Seq<char>> {
    let system = seq![
        path_join("/usr/local/share/applications"@, name),
        path_join("/usr/share/applications"@, name),
    ];
    match home {
        Some(h) => seq![path_join(path_join(h, ".local/share/applications"@), name)] + system,
        None => system,
    }
}

pub fn desktop_file_candidate_paths(home: &Option<String>, name: &str) -> (r: Vec<String>)
    ensures
        seqs_of(r@) == desktop_file_candidates(opt_view(*home), name@),
{
    let mut r: Vec<String> = Vec::new();
    match home {
        Some(h) => {
            let d = join_path(h.as_str(), ".local/share/applications");
            r.push(join_path(d.as_str(), name));
        },
        None => {},
    }
    r.push(join_path("/usr/local/share/applications", name));
    r.push(join_path("/usr/share/applications", name));
    assert(seqs_of(r@) =~= desktop_file_candidates(opt_view(*home), name@));
    r
}

/// The default-browser hint from what the desktop reported: the desktop
/// id from `xdg-settings`, the content of its desktop file, and the
/// binary `which x-www-browser` names (asked only without an `Exec=`
/// program). The family comes from the desktop id, else from the
/// executable.
pub open spec fn hint_spec(
    desktop_entry: Option<Seq<char>>,
    desktop_file: Option<Seq<char>>,
    which: Option<Seq<char>>,
) -> (Option<Seq<char>>, Option<BrowserFamily>) {
    let from_file = match desktop_file {
        Some(c) => desktop_exec_from(lines(c), 0),
        None => None,
    };
    let executable = if from_file is Some {
        from_file
    } else {
        which
    };
    let family = match desktop_entry {
        Some(d) => family_of_desktop_id(d),
        None => None,
    };
    let family2 = if family is Some {
        family
    } else {
        match executable {
            Some(e) => browser_family_of(e),
            None => None,
        }
    };
    (executable, family2)
}

pub fn detect_system_default_browser(
    desktop_entry: Option<String>,
    desktop_file: Option<String>,
    which: Option<String>,
) -> (r: SystemDefaultBrowserHint)
    ensures
        (opt_view(r.executable), r.family) == hint_spec(
            opt_view(desktop_entry),
            opt_view(desktop_file),
            opt_view(which),
        ),
        opt_view(r.desktop_entry) == opt_view(desktop_entry),
{
    let mut family = match &desktop_entry {
        Some(d) => infer_family_from_desktop_id(d.as_str()),
        None => None,
    };
    let from_file = match &desktop_file {
        Some(c) => parse_desktop_exec(c.as_str()),
        None => None,
    };
    let executable = match from_file {
        Some(e) => Some(e),
        None => which,
    };
    if family.is_none() {
        family = match &executable {
            Some(e) => infer_family_from_executable(e.as_str()),
            None => None,
        };
    }
    SystemDefaultBrowserHint { executable, family, desktop_entry }
}

} // verus!
