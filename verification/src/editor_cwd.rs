//! Where an editor window's project lives: from the editor's own workspace
//! storage (matched by the workspace name in its title), from folder
//! arguments on its command line, or from its working directory.
//!
//! The disk is asked whether paths exist and are directories; each
//! function that asks states its result over the answers it got, and a
//! function without disk access takes those answers as arguments.

use vstd::prelude::*;

use crate::assistant::{
    arg_path, editor_path_from_arg, folder_from_workspace_json, is_unhelpful_editor_cwd,
    unhelpful_editor_cwd, workspace_display_name_from_title, workspace_json_folder,
    workspace_name_from_title,
};
use crate::desktop_index::byte_len;
use crate::editors::{is_known_editor_basename, known_editor};
use crate::host::{home_dir, parent_path, path_exists, path_is_dir, path_parent};
use crate::platform::{join_path, path_join, same_path, same_path_str};
use crate::text::{
    chars_of, clone_string, file_name, file_name_chars, lower_chars, lowercase, opt_view,
    seqs_of, string_of,
};

verus! {

/// What the disk said of the path an argument names.
#[derive(Debug, Clone, Copy, PartialEq, Eq, Structural)]
pub struct PathFact {
    pub exists: bool,
    pub is_dir: bool,
}

/// The folder an argument contributes: `Skip` for no path or a missing
/// one; the path itself for a directory; the parent for a file, and
/// `Abort` (the whole search gives nothing) for a file without parent.
pub enum ArgFolder {
    Skip,
    Abort,
    Folder(Seq<char>),
}

pub open spec fn arg_folder(arg: Seq<char>, fact: PathFact) -> ArgFolder {
    match arg_path(arg) {
        None => ArgFolder::Skip,
        Some(p) => if !fact.exists {
            ArgFolder::Skip
        } else if fact.is_dir {
            ArgFolder::Folder(p)
        } else {
            match parent_path(p) {
                Some(q) => ArgFolder::Folder(q),
                None => ArgFolder::Abort,
            }
        },
    }
}

pub open spec fn longer(folder: Seq<char>, best: Option<Seq<char>>) -> bool {
    match best {
        Some(b) => byte_len(folder) > byte_len(b),
        None => true,
    }
}

/// Search state: `None` once aborted, else the best folder so far.
pub open spec fn matching_upto(
    args: Seq<Seq<char>>,
    facts: Seq<PathFact>,
    needle: Seq<char>,
    n: int,
) -> Option<Option<Seq<char>>>
    decreases n,
{
    if n <= 1 {
        Some(None)
    } else {
        match matching_upto(args, facts, needle, n - 1) {
            None => None,
            Some(best) => match arg_folder(args[n - 1], facts[n - 1]) {
                ArgFolder::Skip => Some(best),
                ArgFolder::Abort => None,
                ArgFolder::Folder(f) => match file_name(f) {
                    None => None,
                    Some(base) => if lowercase(base) == needle && longer(f, best) {
                        Some(Some(f))
                    } else {
                        Some(best)
                    },
                },
            },
        }
    }
}

/// The longest folder named on the command line (arguments after the
/// program) whose lower-cased file name is the lower-cased workspace name.
pub open spec fn folder_matching_name(
    args: Seq<Seq<char>>,
    facts: Seq<PathFact>,
    name: Seq<char>,
) -> Option<Seq<char>> {
    match matching_upto(args, facts, lowercase(name), args.len() as int) {
        Some(best) => best,
        None => None,
    }
}

pub open spec fn best_upto(
    args: Seq<Seq<char>>,
    facts: Seq<PathFact>,
    home: Option<Seq<char>>,
    n: int,
) -> Option<Option<Seq<char>>>
    decreases n,
{
    if n <= 1 {
        Some(None)
    } else {
        match best_upto(args, facts, home, n - 1) {
            None => None,
            Some(best) => match arg_folder(args[n - 1], facts[n - 1]) {
                ArgFolder::Skip => Some(best),
                ArgFolder::Abort => None,
                ArgFolder::Folder(f) => if home matches Some(h) && same_path(h, f) {
                    Some(best)
                } else if longer(f, best) {
                    Some(Some(f))
                } else {
                    Some(best)
                },
            },
        }
    }
}

/// The longest folder named on the command line that is not the home
/// directory.
pub open spec fn best_folder(args: Seq<Seq<char>>, facts: Seq<PathFact>, home: Option<Seq<char>>) -> Option<
    Seq<char>,
> {
    match best_upto(args, facts, home, args.len() as int) {
        Some(best) => best,
        None => None,
    }
}

enum Step {
    Skip,
    Abort,
    Folder(String),
}

fn arg_step(arg: &String, fact: PathFact) -> (r: Step)
    ensures
        match r {
            Step::Skip => arg_folder(arg@, fact) is Skip,
            Step::Abort => arg_folder(arg@, fact) is Abort,
            Step::Folder(f) => arg_folder(arg@, fact) == ArgFolder::Folder(f@),
        },
{
    match editor_path_from_arg(arg.as_str()) {
        None => Step::Skip,
        Some(p) => {
            if !fact.exists {
                Step::Skip
            } else if fact.is_dir {
                Step::Folder(p)
            } else {
                match path_parent(p.as_str()) {
                    Some(q) => Step::Folder(q),
                    None => Step::Abort,
                }
            }
        },
    }
}

fn longer_than(folder: &String, best: &Option<String>) -> (r: bool)
    ensures
        r == longer(folder@, opt_view(*best)),
{
    match best {
        Some(b) => folder.as_str().len() > b.as_str().len(),
        None => true,
    }
}

/// The folder matching a workspace name, given what the disk said of each
/// argument's path.
pub fn pick_folder_matching_name(cmd: &Vec<String>, facts: &Vec<PathFact>, workspace_name: &str) -> (r:
    Option<String>)
    requires
        facts@.len() == cmd@.len(),
    ensures
        opt_view(r) == folder_matching_name(seqs_of(cmd@), facts@, workspace_name@),
{
    let ghost args = seqs_of(cmd@);
    let needle = lower_chars(chars_of(workspace_name).as_slice());
    let mut best: Option<String> = None;
    let n = cmd.len();
    let mut i: usize = 1;
    while i < n
        invariant
            n == cmd@.len(),
            facts@.len() == n,
            args == seqs_of(cmd@),
            needle@ == lowercase(workspace_name@),
            1 <= i,
            i <= n || i == 1,
            matching_upto(args, facts@, needle@, i as int) == Some(opt_view(best)),
        decreases n - i,
    {
        assert(args[i as int] == cmd@[i as int]@);
        match arg_step(&cmd[i], facts[i]) {
            Step::Skip => {},
            Step::Abort => {
                proof {
                    lemma_matching_stays_aborted(args, facts@, needle@, i as int + 1, n as int);
                }
                return None;
            },
            Step::Folder(f) => {
                match file_name_chars(chars_of(f.as_str()).as_slice()) {
                    None => {
                        proof {
                            lemma_matching_stays_aborted(args, facts@, needle@, i as int + 1, n as int);
                        }
                        return None;
                    },
                    Some(base) => {
                        let lb = lower_chars(base.as_slice());
                        if crate::text::chars_eq(lb.as_slice(), needle.as_slice()) && longer_than(&f, &best) {
                            best = Some(f);
                        }
                    },
                }
            },
        }
        i += 1;
    }
    proof {
        assert(matching_upto(args, facts@, needle@, i as int) == Some(opt_view(best)));
        assert(i == n || n == 0);
        assert(args.len() == n);
        if n == 0 {
            assert(matching_upto(args, facts@, needle@, 0) == Some(None::<Seq<char>>));
        } else {
            assert(i == n);
        }
        assert(matching_upto(args, facts@, needle@, n as int) == Some(opt_view(best)));
        assert(folder_matching_name(args, facts@, workspace_name@) == opt_view(best));
    }
    best
}

proof fn lemma_matching_stays_aborted(
    args: Seq<Seq<char>>,
    facts: Seq<PathFact>,
    needle: Seq<char>,
    from: int,
    to: int,
)
    requires
        from <= to,
        matching_upto(args, facts, needle, from) is None,
    ensures
        matching_upto(args, facts, needle, to) is None,
    decreases to - from,
{
    if from < to {
        lemma_matching_stays_aborted(args, facts, needle, from, to - 1);
    }
}

proof fn lemma_best_stays_aborted(
    args: Seq<Seq<char>>,
    facts: Seq<PathFact>,
    home: Option<Seq<char>>,
    from: int,
    to: int,
)
    requires
        from <= to,
        best_upto(args, facts, home, from) is None,
    ensures
        best_upto(args, facts, home, to) is None,
    decreases to - from,
{
    if from < to {
        lemma_best_stays_aborted(args, facts, home, from, to - 1);
    }
}

/// The longest folder on the command line other than the home directory,
/// given what the disk said of each argument's path.
pub fn pick_best_folder(cmd: &Vec<String>, facts: &Vec<PathFact>, home: &Option<String>) -> (r:
    Option<String>)
    requires
        facts@.len() == cmd@.len(),
    ensures
        opt_view(r) == best_folder(seqs_of(cmd@), facts@, opt_view(*home)),
{
    let ghost args = seqs_of(cmd@);
    let mut best: Option<String> = None;
    let n = cmd.len();
    let mut i: usize = 1;
    while i < n
        invariant
            n == cmd@.len(),
            facts@.len() == n,
            args == seqs_of(cmd@),
            1 <= i,
            i <= n || i == 1,
            best_upto(args, facts@, opt_view(*home), i as int) == Some(opt_view(best)),
        decreases n - i,
    {
        assert(args[i as int] == cmd@[i as int]@);
        match arg_step(&cmd[i], facts[i]) {
            Step::Skip => {},
            Step::Abort => {
                proof {
                    lemma_best_stays_aborted(args, facts@, opt_view(*home), i as int + 1, n as int);
                }
                return None;
            },
            Step::Folder(f) => {
                let at_home = match home {
                    Some(h) => same_path_str(h.as_str(), f.as_str()),
                    None => false,
                };
                if !at_home && longer_than(&f, &best) {
                    best = Some(f);
                }
            },
        }
        i += 1;
    }
    proof {
        assert(args.len() == n);
        if n == 0 {
            assert(best_upto(args, facts@, opt_view(*home), 0) == Some(None::<Seq<char>>));
        } else {
            assert(i == n);
        }
    }
    best
}

/// What the disk says of each argument's path (arguments that name no
/// path are not looked up).
pub fn gather_path_facts(cmd: &Vec<String>) -> (r: Vec<PathFact>)
    ensures
        r@.len() == cmd@.len(),
{
    let mut facts: Vec<PathFact> = Vec::new();
    for i in 0..cmd.len()
        invariant
            facts@.len() == i,
    {
        let fact = match editor_path_from_arg(cmd[i].as_str()) {
            Some(p) => PathFact { exists: path_exists(p.as_str()), is_dir: path_is_dir(p.as_str()) },
            None => PathFact { exists: false, is_dir: false },
        };
        facts.push(fact);
    }
    facts
}

/// The longest folder on the command line whose name is the workspace
/// name, asking the disk about each argument's path.
pub fn editor_path_from_cmdline_matching_name(cmd: &Vec<String>, workspace_name: &str) -> (r: Option<
    String,
>)
    ensures
        exists|f: Seq<PathFact>|
            f.len() == cmd@.len() && opt_view(r) == #[trigger] folder_matching_name(
                seqs_of(cmd@),
                f,
                workspace_name@,
            ),
{
    let facts = gather_path_facts(cmd);
    let r = pick_folder_matching_name(cmd, &facts, workspace_name);
    assert(opt_view(r) == folder_matching_name(seqs_of(cmd@), facts@, workspace_name@));
    r
}

/// The longest folder on the command line other than the home directory
/// (as `dirs` reports it), asking the disk about each argument's path.
pub fn editor_path_from_cmdline_best(cmd: &Vec<String>) -> (r: Option<String>)
    ensures
        exists|f: Seq<PathFact>, h: Option<Seq<char>>|
            f.len() == cmd@.len() && opt_view(r) == #[trigger] best_folder(seqs_of(cmd@), f, h),
{
    let home = home_dir();
    let facts = gather_path_facts(cmd);
    let r = pick_best_folder(cmd, &facts, &home);
    assert(opt_view(r) == best_folder(seqs_of(cmd@), facts@, opt_view(home)));
    r
}

// ---------------------------------------------------------------------------
// Workspace storage
// ---------------------------------------------------------------------------

/// The workspace storage directory of a known editor under the home
/// directory.
pub open spec fn storage_subdir(basename_lower: Seq<char>) -> Option<Seq<char>> {
    if basename_lower == "cursor"@ {
        Some(".config/Cursor/User/workspaceStorage"@)
    } else if basename_lower == "code"@ {
        Some(".config/Code/User/workspaceStorage"@)
    } else if basename_lower == "code-oss"@ {
        Some(".config/Code - OSS/User/workspaceStorage"@)
    } else if basename_lower == "codium"@ {
        Some(".config/VSCodium/User/workspaceStorage"@)
    } else {
        None
    }
}

/// The storage path of an editor under `home`: `.config` joined with the
/// editor's directory.
pub open spec fn storage_root_of(basename_lower: Seq<char>, home: Seq<char>) -> Option<Seq<char>> {
    match storage_subdir(basename_lower) {
        Some(sub) => Some(path_join(path_join(home, ".config"@), sub.subrange(8, sub.len() as int))),
        None => None,
    }
}

/// The editor's workspace storage path under `home`, whether or not it
/// exists.
pub fn storage_root_under(basename_lower: &str, home: &str) -> (r: Option<String>)
    ensures
        opt_view(r) == storage_root_of(basename_lower@, home@),
{
    let b = chars_of(basename_lower);
    let sub = if crate::text::is_lit(b.as_slice(), "cursor") {
        "Cursor/User/workspaceStorage"
    } else if crate::text::is_lit(b.as_slice(), "code") {
        "Code/User/workspaceStorage"
    } else if crate::text::is_lit(b.as_slice(), "code-oss") {
        "Code - OSS/User/workspaceStorage"
    } else if crate::text::is_lit(b.as_slice(), "codium") {
        "VSCodium/User/workspaceStorage"
    } else {
        return None;
    };
    proof {
        reveal_strlit(".config/Cursor/User/workspaceStorage");
        reveal_strlit("Cursor/User/workspaceStorage");
        reveal_strlit(".config/Code/User/workspaceStorage");
        reveal_strlit("Code/User/workspaceStorage");
        reveal_strlit(".config/Code - OSS/User/workspaceStorage");
        reveal_strlit("Code - OSS/User/workspaceStorage");
        reveal_strlit(".config/VSCodium/User/workspaceStorage");
        reveal_strlit("VSCodium/User/workspaceStorage");
        assert(".config/Cursor/User/workspaceStorage"@.subrange(8, 36) =~= "Cursor/User/workspaceStorage"@);
        assert(".config/Code/User/workspaceStorage"@.subrange(8, 34) =~= "Code/User/workspaceStorage"@);
        assert(".config/Code - OSS/User/workspaceStorage"@.subrange(8, 40) =~= "Code - OSS/User/workspaceStorage"@);
        assert(".config/VSCodium/User/workspaceStorage"@.subrange(8, 38) =~= "VSCodium/User/workspaceStorage"@);
    }
    let config = join_path(home, ".config");
    Some(join_path(config.as_str(), sub))
}

/// The workspace storage directory of a known editor, given the home
/// directory and whether the disk reports that directory as a directory.
pub open spec fn storage_root_given(basename_lower: Seq<char>, home: Option<Seq<char>>, is_dir: bool) -> Option<
    Seq<char>,
> {
    match home {
        Some(h) => match storage_root_of(basename_lower, h) {
            Some(p) => if is_dir {
                Some(p)
            } else {
                None
            },
            None => None,
        },
        None => None,
    }
}

/// The workspace storage directory of a known editor, where `home` is the
/// home directory and `is_dir` what the disk said of that directory.
pub fn storage_root_for(basename_lower: &str, home: &Option<String>, is_dir: bool) -> (r: Option<String>)
    ensures
        opt_view(r) == storage_root_given(basename_lower@, opt_view(*home), is_dir),
{
    match home {
        Some(h) => match storage_root_under(basename_lower, h.as_str()) {
            Some(root) => if is_dir {
                Some(root)
            } else {
                None
            },
            None => None,
        },
        None => None,
    }
}

/// The workspace storage directory of a known editor, when it is a
/// directory on this machine: the home directory is asked of `dirs`, then,
/// for a known editor, the disk whether its storage directory is a
/// directory. The result is `storage_root_given` over those answers.
pub fn editor_workspace_storage_root(basename_lower: &str) -> (r: Option<String>)
    ensures
        exists|h: Option<Seq<char>>, d: bool| opt_view(r) == #[trigger] storage_root_given(basename_lower@, h, d),
        r matches Some(p) ==> exists|h: Seq<char>| #[trigger] storage_root_of(basename_lower@, h) == Some(p@),
        storage_subdir(basename_lower@) is None ==> r is None,
{
    let home = home_dir();
    let is_dir = match &home {
        Some(h) => match storage_root_under(basename_lower, h.as_str()) {
            Some(root) => path_is_dir(root.as_str()),
            None => false,
        },
        None => false,
    };
    storage_root_for(basename_lower, &home, is_dir)
}

/// Search state over workspace storage: the first folder whose lower-cased
/// name is the needle and that is a directory.
pub open spec fn storage_pick_from(
    jsons: Seq<Seq<char>>,
    dirs: Seq<bool>,
    needle: Seq<char>,
    i: int,
) -> Option<Seq<char>>
    decreases jsons.len() - i,
{
    if i < 0 || i >= jsons.len() {
        None
    } else {
        match workspace_json_folder(jsons[i]) {
            Some(folder) => if dirs[i] && (file_name(folder) matches Some(b) && lowercase(b) == needle) {
                Some(folder)
            } else {
                storage_pick_from(jsons, dirs, needle, i + 1)
            },
            None => storage_pick_from(jsons, dirs, needle, i + 1),
        }
    }
}

/// The folder of the workspace named `display`, from the `workspace.json`
/// files of the editor's storage (in listing order), given which of their
/// folders are directories.
pub open spec fn storage_folder(jsons: Seq<Seq<char>>, dirs: Seq<bool>, display: Seq<char>) -> Option<
    Seq<char>,
> {
    storage_pick_from(jsons, dirs, lowercase(display), 0)
}

/// Picks the workspace folder named `workspace_display` from the contents
/// of the storage's `workspace.json` files, asking the disk whether each
/// folder is a directory.
pub fn resolve_workspace_folder_from_storage(workspace_jsons: &Vec<String>, workspace_display: &str) -> (r:
    Option<String>)
    ensures
        exists|d: Seq<bool>|
            d.len() == workspace_jsons@.len() && opt_view(r) == #[trigger] storage_folder(
                seqs_of(workspace_jsons@),
                d,
                workspace_display@,
            ),
{
    let dirs = gather_storage_dirs(workspace_jsons);
    let r = pick_storage_folder(workspace_jsons, &dirs, workspace_display);
    assert(opt_view(r) == storage_folder(seqs_of(workspace_jsons@), dirs@, workspace_display@));
    r
}

// ---------------------------------------------------------------------------
// The hint
// ---------------------------------------------------------------------------

/// What the disk and the environment said while a hint was worked out.
pub struct CwdFacts {
    pub home: Option<Seq<char>>,
    pub storage_dirs: Seq<bool>,
    pub name_facts: Seq<PathFact>,
    pub best_facts: Seq<PathFact>,
}

/// The working-directory hint of an editor process: nothing for programs
/// that are not known editors; else the storage folder of the workspace
/// named in the window title, else a command-line folder of that name,
/// else the longest command-line folder other than home, else the process's
/// working directory when it says something about the project.
pub open spec fn cwd_hint_spec(
    basename_lower: Seq<char>,
    cmd: Seq<Seq<char>>,
    title: Option<Seq<char>>,
    jsons: Seq<Seq<char>>,
    proc_cwd: Option<Seq<char>>,
    f: CwdFacts,
) -> Option<Seq<char>> {
    let display = match title {
        Some(t) => workspace_name_from_title(t, basename_lower),
        None => None,
    };
    let from_storage = match display {
        Some(d) => storage_folder(jsons, f.storage_dirs, d),
        None => None,
    };
    let from_name = match display {
        Some(d) => folder_matching_name(cmd, f.name_facts, d),
        None => None,
    };
    if !known_editor(basename_lower) {
        None
    } else if from_storage is Some {
        from_storage
    } else if from_name is Some {
        from_name
    } else if best_folder(cmd, f.best_facts, f.home) is Some {
        best_folder(cmd, f.best_facts, f.home)
    } else {
        match proc_cwd {
            Some(c) => if unhelpful_editor_cwd(c, f.home) {
                None
            } else {
                Some(c)
            },
            None => None,
        }
    }
}

/// A working-directory hint for an editor process. `workspace_jsons` holds
/// the contents of the `workspace.json` files of the editor's workspace
/// storage (in listing order) and `proc_cwd` the process's working
/// directory, when readable.
pub fn cwd_hint_for_editor(
    basename_lower: &str,
    cmd: &Vec<String>,
    window_title: &Option<String>,
    workspace_jsons: &Vec<String>,
    proc_cwd: &Option<String>,
) -> (r: Option<String>)
    ensures
        exists|f: CwdFacts|
            f.storage_dirs.len() == workspace_jsons@.len() && f.name_facts.len() == cmd@.len()
                && f.best_facts.len() == cmd@.len() && opt_view(r) == #[trigger] cwd_hint_spec(
                basename_lower@,
                seqs_of(cmd@),
                opt_view(*window_title),
                seqs_of(workspace_jsons@),
                opt_view(*proc_cwd),
                f,
            ),
{
    let ghost args = seqs_of(cmd@);
    let ghost js = seqs_of(workspace_jsons@);
    let ghost title_v = opt_view(*window_title);
    let home = home_dir();
    let ghost mut f = CwdFacts {
        home: opt_view(home),
        storage_dirs: Seq::new(workspace_jsons@.len(), |i: int| false),
        name_facts: Seq::new(cmd@.len(), |i: int| PathFact { exists: false, is_dir: false }),
        best_facts: Seq::new(cmd@.len(), |i: int| PathFact { exists: false, is_dir: false }),
    };
    if !is_known_editor_basename(basename_lower) {
        assert(cwd_hint_spec(basename_lower@, args, title_v, js, opt_view(*proc_cwd), f) is None);
        return None;
    }
    let display = match window_title {
        Some(t) => workspace_display_name_from_title(t.as_str(), basename_lower),
        None => None,
    };
    match &display {
        Some(d) => {
            let storage_dirs = gather_storage_dirs(workspace_jsons);
            let from_storage = pick_storage_folder(workspace_jsons, &storage_dirs, d.as_str());
            proof {
                f = CwdFacts { storage_dirs: storage_dirs@, ..f };
            }
            if from_storage.is_some() {
                assert(cwd_hint_spec(basename_lower@, args, title_v, js, opt_view(*proc_cwd), f)
                    == opt_view(from_storage));
                return from_storage;
            }
            let facts = gather_path_facts(cmd);
            let from_name = pick_folder_matching_name(cmd, &facts, d.as_str());
            proof {
                f = CwdFacts { name_facts: facts@, ..f };
            }
            if from_name.is_some() {
                assert(cwd_hint_spec(basename_lower@, args, title_v, js, opt_view(*proc_cwd), f)
                    == opt_view(from_name));
                return from_name;
            }
            assert(storage_folder(js, f.storage_dirs, d@) is None);
            assert(folder_matching_name(args, f.name_facts, d@) is None);
        },
        None => {},
    }
    let facts = gather_path_facts(cmd);
    let best = pick_best_folder(cmd, &facts, &home);
    proof {
        f = CwdFacts { best_facts: facts@, ..f };
    }
    if best.is_some() {
        assert(cwd_hint_spec(basename_lower@, args, title_v, js, opt_view(*proc_cwd), f)
            == opt_view(best));
        return best;
    }
    let r = match proc_cwd {
        Some(c) => {
            if is_unhelpful_editor_cwd(c.as_str(), &home) {
                None
            } else {
                Some(clone_string(c))
            }
        },
        None => None,
    };
    assert(cwd_hint_spec(basename_lower@, args, title_v, js, opt_view(*proc_cwd), f) == opt_view(r));
    r
}

/// Whether each storage `workspace.json` names a folder that is a
/// directory right now.
pub fn gather_storage_dirs(workspace_jsons: &Vec<String>) -> (r: Vec<bool>)
    ensures
        r@.len() == workspace_jsons@.len(),
{
    let mut dirs: Vec<bool> = Vec::new();
    for i in 0..workspace_jsons.len()
        invariant
            dirs@.len() == i,
    {
        let d = match folder_from_workspace_json(workspace_jsons[i].as_str()) {
            Some(f) => path_is_dir(f.as_str()),
            None => false,
        };
        dirs.push(d);
    }
    dirs
}

/// The storage folder of a workspace, given which storage folders are
/// directories.
pub fn pick_storage_folder(workspace_jsons: &Vec<String>, dirs: &Vec<bool>, workspace_display: &str) -> (r:
    Option<String>)
    requires
        dirs@.len() == workspace_jsons@.len(),
    ensures
        opt_view(r) == storage_folder(seqs_of(workspace_jsons@), dirs@, workspace_display@),
{
    let ghost js = seqs_of(workspace_jsons@);
    let needle = lower_chars(chars_of(workspace_display).as_slice());
    let n = workspace_jsons.len();
    let mut i: usize = 0;
    while i < n
        invariant
            n == workspace_jsons@.len(),
            dirs@.len() == n,
            js == seqs_of(workspace_jsons@),
            needle@ == lowercase(workspace_display@),
            i <= n,
            storage_folder(js, dirs@, workspace_display@) == storage_pick_from(js, dirs@, needle@, i as int),
        decreases n - i,
    {
        assert(js[i as int] == workspace_jsons@[i as int]@);
        match folder_from_workspace_json(workspace_jsons[i].as_str()) {
            Some(f) => {
                if dirs[i] {
                    let hit = match file_name_chars(chars_of(f.as_str()).as_slice()) {
                        Some(b) => crate::text::chars_eq(lower_chars(b.as_slice()).as_slice(), needle.as_slice()),
                        None => false,
                    };
                    if hit {
                        return Some(f);
                    }
                }
            },
            None => {},
        }
        i += 1;
    }
    None
}

} // verus!
