//! Process-level facts about the Linux host: executable path cleanup, the
//! built-in list of infrastructure daemons, and executable lookup on `PATH`.

use vstd::prelude::*;

use crate::host::path_is_file;
use crate::text::{
    all_ascii, chars_of, clone_chars, contains_char, ends_lit, ends_with, eq_ignore_ascii_case,
    eq_ignore_ascii_case_chars, file_name, file_name_chars, is_absolute, lower_chars, lowercase,
    opt_view, path_names, seqs_of, split_char, split_on_char, starts_lit, starts_with, string_of,
    strip_suffix, strip_suffix_chars, trim, trim_chars, trim_str,
};

verus! {

/// A running process as the discovery logic reads it: process id, kernel
/// `comm` name, resolved `/proc/<pid>/exe` path (when readable), parent pid
/// and command line.
pub struct ProcessInfo {
    pub pid: u32,
    pub name: String,
    pub exe: Option<String>,
    pub parent: Option<u32>,
    pub cmd: Vec<String>,
}

/// Linux appends ` (deleted)` to `/proc/<pid>/exe` when the binary on disk
/// was replaced: the trimmed path without that marker.
pub open spec fn strip_deleted(p: Seq<char>) -> Seq<char> {
    let t = trim(p);
    match strip_suffix(t, " (deleted)"@) {
        Some(x) => x,
        None => t,
    }
}

/// Trims `path` and removes a trailing ` (deleted)` marker.
pub fn strip_deleted_exe_suffix(path: &str) -> (r: String)
    ensures
        r@ == strip_deleted(path@),
{
    let t = trim_str(path);
    let marker = chars_of(" (deleted)");
    match strip_suffix_chars(t.as_slice(), marker.as_slice()) {
        Some(x) => string_of(x.as_slice()),
        None => string_of(t.as_slice()),
    }
}

/// Lower-cased file name of a cleaned executable path (`/usr/bin/Cursor` is
/// `cursor`), or the whole cleaned path lower-cased when it has no file name.
pub open spec fn exe_basename(executable: Seq<char>) -> Seq<char> {
    let t = strip_deleted(trim(executable));
    match file_name(t) {
        Some(n) => lowercase(n),
        None => lowercase(t),
    }
}

/// Lowercased basename used for matching (e.g. `/usr/bin/Cursor` is `cursor`).
pub fn executable_basename(executable: &str) -> (r: String)
    ensures
        r@ == exe_basename(executable@),
{
    let t0 = trim_str(executable);
    let t0s = string_of(t0.as_slice());
    let t = strip_deleted_exe_suffix(t0s.as_str());
    let tv = chars_of(t.as_str());
    match file_name_chars(tv.as_slice()) {
        Some(n) => string_of(lower_chars(n.as_slice()).as_slice()),
        None => string_of(lower_chars(tv.as_slice()).as_slice()),
    }
}

/// True for user-space programs with a readable executable path; kernel
/// threads (no executable, or a `comm` name holding `/`) are excluded.
pub open spec fn resolved_executable(p: ProcessInfo) -> bool {
    match p.exe {
        Some(e) => strip_deleted(e@).len() > 0 && !p.name@.contains('/'),
        None => false,
    }
}

pub fn has_resolved_executable(p: &ProcessInfo) -> (r: bool)
    ensures
        r == resolved_executable(*p),
{
    match &p.exe {
        Some(e) => {
            let cleaned = strip_deleted_exe_suffix(e.as_str());
            if cleaned.as_str().unicode_len() == 0 {
                return false;
            }
            let name = chars_of(p.name.as_str());
            !contains_char(name.as_slice(), '/')
        },
        None => false,
    }
}

// ---------------------------------------------------------------------------
// Deny list
// ---------------------------------------------------------------------------

/// Basenames of infrastructure daemons, compared without regard to ASCII case.
pub const EXACT_DENY: [&'static str; 97] = [
    "systemd",
    "systemd-udevd",
    "systemd-journald",
    "systemd-resolved",
    "systemd-timesyncd",
    "systemd-logind",
    "systemd-hostnamed",
    "systemd-oomd",
    "systemd-homed",
    "systemd-userdbd",
    "systemd-userwork",
    "systemd-user-runtime-dir",
    "(sd-pam)",
    "sd-pam",
    "dbus-daemon",
    "dbus-broker",
    "dbus-broker-launch-helper",
    "dbus-launch-helper",
    "polkitd",
    "accounts-daemon",
    "rsyslogd",
    "agetty",
    "login",
    "sshd",
    "cupsd",
    "NetworkManager",
    "wpa_supplicant",
    "iwd",
    "ModemManager",
    "udisksd",
    "udisks",
    "upowerd",
    "colord",
    "power-profiles-daemon",
    "thermald",
    "irqbalance",
    "boltd",
    "packagekitd",
    "fwupd",
    "rtkit-daemon",
    "smartd",
    "haveged",
    "gnome-shell",
    "gnome-shell-calendar-server",
    "gnome-session-binary",
    "gnome-keyring-daemon",
    "gnome-terminal-server",
    "goa-daemon",
    "dconf-service",
    "gcr-ssh-agent",
    "gjs-console",
    "at-spi-bus-launcher",
    "at-spi2-registryd",
    "Xorg",
    "xorg",
    "Xwayland",
    "xwayland",
    "pipewire",
    "pipewire-pulse",
    "wireplumber",
    "pulseaudio",
    "cups-browsed",
    "avahi-daemon",
    "bluetoothd",
    "cron",
    "crond",
    "anacron",
    "kthreadd",
    "khungtaskd",
    "oom_reaper",
    "migration",
    "watchdogd",
    "jbd2",
    "snapd",
    "snap-confine",
    "snapfuse",
    "flatpak-system-helper",
    "flatpak-session-helper",
    "flatpak-portal",
    "xdg-document-portal",
    "xdg-permission-store",
    "xdg-desktop-portal",
    "tracker-extract-3",
    "tracker-miner-fs-3",
    "tracker-miner-fs-2",
    "tracker-writeback-3",
    "kded5",
    "kded6",
    "baloo_file",
    "baloo_file_extractor",
    "gmenudbusmenuproxy",
    "kwalletd5",
    "kwalletd6",
    "ksmserver",
    "containerd",
    "dockerd",
    "docker-proxy",
];

/// Prefixes of long-running infrastructure daemon families.
pub const PREFIX_DENY: [&'static str; 6] = [
    "systemd-",
    "gvfsd",
    "gsd-",
    "evolution-",
    "ibus-",
    "xdg-desktop-portal",
];

/// Kernel-thread and engine-helper prefixes.
pub const KERNEL_PREFIXES: [&'static str; 6] = ["webkit", "kworker", "ksoftirq", "irq/", "rcu", "jbd2/"];

pub open spec fn exact_denied(lower: Seq<char>) -> bool {
    exists|i: int| 0 <= i < 97 && eq_ignore_ascii_case(EXACT_DENY@[i]@, lower)
}

pub open spec fn prefix_denied(lower: Seq<char>) -> bool {
    exists|i: int| 0 <= i < 6 && starts_with(lower, PREFIX_DENY@[i]@)
}

pub open spec fn kernel_prefixed(lower: Seq<char>) -> bool {
    exists|i: int| 0 <= i < 6 && starts_with(lower, KERNEL_PREFIXES@[i]@)
}

/// Built-in basenames and patterns excluded from process lists: empty
/// names, the exact daemon list (ASCII case-insensitive), daemon-family
/// prefixes, crash handlers, WebKit helpers and kernel threads.
pub open spec fn denylisted(b: Seq<char>) -> bool {
    let t = trim(b);
    let lower = lowercase(t);
    ||| t.len() == 0
    ||| exact_denied(lower)
    ||| prefix_denied(lower)
    ||| ends_with(lower, "crashpad_handler"@)
    ||| kernel_prefixed(lower)
}

/// Surrounding white space does not matter to the deny list: a name and
/// the same name trimmed are both denied or both not.
pub proof fn law_denylist_ignores_surrounding_space(b: Seq<char>)
    ensures
        denylisted(b) == denylisted(trim(b)),
{
    crate::text::lemma_trim_idempotent(b);
}

fn is_exact_denied(lower: &[char]) -> (r: bool)
    ensures
        r == exact_denied(lower@),
{
    for i in 0..97
        invariant
            forall|j: int| 0 <= j < i ==> !eq_ignore_ascii_case(EXACT_DENY@[j]@, lower@),
    {
        let e = chars_of(EXACT_DENY[i]);
        if eq_ignore_ascii_case_chars(e.as_slice(), lower) {
            return true;
        }
    }
    false
}

fn is_prefix_denied(lower: &[char]) -> (r: bool)
    ensures
        r == prefix_denied(lower@),
{
    for i in 0..6
        invariant
            forall|j: int| 0 <= j < i ==> !starts_with(lower@, PREFIX_DENY@[j]@),
    {
        if starts_lit(lower, PREFIX_DENY[i]) {
            return true;
        }
    }
    false
}

fn is_kernel_prefixed(lower: &[char]) -> (r: bool)
    ensures
        r == kernel_prefixed(lower@),
{
    for i in 0..6
        invariant
            forall|j: int| 0 <= j < i ==> !starts_with(lower@, KERNEL_PREFIXES@[j]@),
    {
        if starts_lit(lower, KERNEL_PREFIXES[i]) {
            return true;
        }
    }
    false
}

/// Whether a process basename belongs to the built-in infrastructure deny list.
pub fn denylisted_basename(b: &str) -> (r: bool)
    ensures
        r == denylisted(b@),
{
    let t = trim_str(b);
    if t.len() == 0 {
        return true;
    }
    let lower = lower_chars(t.as_slice());
    if is_exact_denied(lower.as_slice()) {
        return true;
    }
    if is_prefix_denied(lower.as_slice()) {
        return true;
    }
    if ends_lit(lower.as_slice(), "crashpad_handler") {
        return true;
    }
    is_kernel_prefixed(lower.as_slice())
}

// ---------------------------------------------------------------------------
// Executable lookup
// ---------------------------------------------------------------------------

/// `PathBuf::join` on Unix: an absolute `p` replaces `base`; otherwise a
/// separator is added unless `base` is empty or already ends with one.
pub open spec fn path_join(base: Seq<char>, p: Seq<char>) -> Seq<char> {
    if is_absolute(p) {
        p
    } else if base.len() == 0 || base.last() == '/' {
        base + p
    } else {
        base + seq!['/'] + p
    }
}

pub fn join_path(base: &str, p: &str) -> (r: String)
    ensures
        r@ == path_join(base@, p@),
{
    let b = chars_of(base);
    let pv = chars_of(p);
    if pv.len() > 0 && pv[0] == '/' {
        return string_of(pv.as_slice());
    }
    let mut out = clone_chars(&b);
    if !(b.len() == 0 || b[b.len() - 1] == '/') {
        out.push('/');
    }
    let n = pv.len();
    let ghost start = out@;
    for i in 0..n
        invariant
            n == pv@.len(),
            out@ == start + pv@.take(i as int),
    {
        out.push(pv[i]);
        assert(pv@.take(i + 1) == pv@.take(i as int).push(pv@[i as int]));
        assert(start + pv@.take(i + 1) =~= (start + pv@.take(i as int)).push(pv@[i as int]));
    }
    assert(pv@.take(n as int) =~= pv@);
    proof {
        if b@.len() == 0 || b@.last() == '/' {
            assert(start == b@);
        } else {
            assert(start == b@ + seq!['/']);
        }
    }
    string_of(out.as_slice())
}

/// Path equality as `Path`'s `==` decides it on Unix: same absoluteness,
/// same leading `.` component, same named components.
pub open spec fn leading_cur(s: Seq<char>) -> bool {
    s.len() > 0 && s[0] == '.' && (s.len() == 1 || s[1] == '/')
}

pub open spec fn same_path(a: Seq<char>, b: Seq<char>) -> bool {
    &&& is_absolute(a) == is_absolute(b)
    &&& leading_cur(a) == leading_cur(b)
    &&& path_names(a) == path_names(b)
}

/// The directories searched for an executable by basename: the non-empty
/// entries of `PATH` in order, then `/usr/bin`, `/usr/local/bin`, `/bin` and
/// `<home>/.local/bin`, each only when no earlier entry is the same path.
pub open spec fn search_dirs_spec(path_var: Option<Seq<char>>, home: Option<Seq<char>>) -> Seq<
    Seq<char>,
> {
    let from_path = match path_var {
        Some(p) => split_char(p, ':').filter(non_empty_piece()),
        None => Seq::empty(),
    };
    let a = add_if_absent(from_path, "/usr/bin"@);
    let b = add_if_absent(a, "/usr/local/bin"@);
    let c = add_if_absent(b, "/bin"@);
    match home {
        Some(h) => add_if_absent(c, path_join(h, ".local/bin"@)),
        None => c,
    }
}

pub open spec fn add_if_absent(dirs: Seq<Seq<char>>, d: Seq<char>) -> Seq<Seq<char>> {
    if exists|i: int| 0 <= i < dirs.len() && same_path(dirs[i], d) {
        dirs
    } else {
        dirs.push(d)
    }
}

pub open spec fn non_empty_piece() -> spec_fn(Seq<char>) -> bool {
    |d: Seq<char>| d.len() > 0
}

pub fn same_path_str(a: &str, b: &str) -> (r: bool)
    ensures
        r == same_path(a@, b@),
{
    let av = chars_of(a);
    let bv = chars_of(b);
    let a_abs = av.len() > 0 && av[0] == '/';
    let b_abs = bv.len() > 0 && bv[0] == '/';
    if a_abs != b_abs {
        return false;
    }
    let a_cur = av.len() > 0 && av[0] == '.' && (av.len() == 1 || av[1] == '/');
    let b_cur = bv.len() > 0 && bv[0] == '.' && (bv.len() == 1 || bv[1] == '/');
    assert(a_cur == leading_cur(a@));
    assert(b_cur == leading_cur(b@));
    if a_cur != b_cur {
        return false;
    }
    let an = names_of(av.as_slice());
    let bn = names_of(bv.as_slice());
    if an.len() != bn.len() {
        assert(path_names(a@).len() != path_names(b@).len());
        assert(path_names(a@) != path_names(b@));
        assert(!same_path(a@, b@));
        return false;
    }
    let n = an.len();
    for i in 0..n
        invariant
            n == an@.len(),
            n == bn@.len(),
            forall|j: int| 0 <= j < i ==> an@[j]@ == bn@[j]@,
            crate::text::seqs_of_vecs(an@) == path_names(av@),
            crate::text::seqs_of_vecs(bn@) == path_names(bv@),
            av@ == a@,
            bv@ == b@,
    {
        if !crate::text::chars_eq(an[i].as_slice(), bn[i].as_slice()) {
            assert(path_names(av@)[i as int] != path_names(bv@)[i as int]);
            assert(path_names(a@) != path_names(b@));
            return false;
        }
    }
    assert(path_names(av@) =~= path_names(bv@));
    true
}

/// The named components of a path (`path_names`).
pub fn names_of(v: &[char]) -> (r: Vec<Vec<char>>)
    ensures
        crate::text::seqs_of_vecs(r@) == path_names(v@),
{
    let parts = split_on_char(v, '/');
    let ghost ps = crate::text::seqs_of_vecs(parts@);
    let ghost pred = crate::text::name_piece();
    let mut names: Vec<Vec<char>> = Vec::new();
    let n = parts.len();
    let dot = vec!['.'];
    for i in 0..n
        invariant
            n == parts@.len(),
            ps == crate::text::seqs_of_vecs(parts@),
            dot@ == seq!['.'],
            pred == crate::text::name_piece(),
            crate::text::seqs_of_vecs(names@) == ps.take(i as int).filter(pred),
    {
        let keep = parts[i].len() > 0 && !crate::text::chars_eq(parts[i].as_slice(), dot.as_slice());
        proof {
            assert(ps[i as int] == parts@[i as int]@);
            assert(keep == pred(ps[i as int]));
            assert(ps.take(i + 1).drop_last() =~= ps.take(i as int));
            assert(ps.take(i + 1).last() == ps[i as int]);
            reveal(Seq::filter);
        }
        if keep {
            let ghost before = crate::text::seqs_of_vecs(names@);
            names.push(clone_chars(&parts[i]));
            assert(crate::text::seqs_of_vecs(names@) =~= before.push(ps[i as int]));
        }
    }
    assert(ps.take(n as int) =~= ps);
    names
}

fn push_if_absent(dirs: &mut Vec<String>, d: String)
    ensures
        seqs_of(final(dirs)@) == add_if_absent(seqs_of(old(dirs)@), d@),
{
    let n = dirs.len();
    for i in 0..n
        invariant
            n == dirs@.len(),
            dirs@ == old(dirs)@,
            forall|j: int| 0 <= j < i ==> !same_path(dirs@[j]@, d@),
    {
        if same_path_str(dirs[i].as_str(), d.as_str()) {
            assert(same_path(seqs_of(dirs@)[i as int], d@));
            return;
        }
    }
    let ghost before = seqs_of(dirs@);
    assert(!(exists|i: int| 0 <= i < before.len() && same_path(before[i], d@)));
    dirs.push(d);
    assert(seqs_of(dirs@) =~= before.push(d@));
}

/// Directories searched by basename: `PATH` entries, then the standard
/// binary directories and `~/.local/bin`, without repeating a path.
pub fn path_search_dirs(path_var: &Option<String>, home: &Option<String>) -> (r: Vec<String>)
    ensures
        seqs_of(r@) == search_dirs_spec(opt_view(*path_var), opt_view(*home)),
{
    let mut dirs: Vec<String> = Vec::new();
    match path_var {
        Some(p) => {
            let pv = chars_of(p.as_str());
            let parts = split_on_char(pv.as_slice(), ':');
            let ghost ps = crate::text::seqs_of_vecs(parts@);
            let ghost pred = non_empty_piece();
            let n = parts.len();
            for i in 0..n
                invariant
                    n == parts@.len(),
                    ps == crate::text::seqs_of_vecs(parts@),
                    pred == non_empty_piece(),
                    seqs_of(dirs@) == ps.take(i as int).filter(pred),
            {
                proof {
                    assert(ps[i as int] == parts@[i as int]@);
                    assert(ps.take(i + 1).drop_last() =~= ps.take(i as int));
                    assert(ps.take(i + 1).last() == ps[i as int]);
                    reveal(Seq::filter);
                }
                if parts[i].len() > 0 {
                    let ghost before = seqs_of(dirs@);
                    dirs.push(string_of(parts[i].as_slice()));
                    assert(seqs_of(dirs@) =~= before.push(ps[i as int]));
                }
            }
            assert(ps.take(n as int) =~= ps);
        },
        None => {
            assert(seqs_of(dirs@) =~= Seq::<Seq<char>>::empty());
        },
    }
    push_if_absent(&mut dirs, string_of(chars_of("/usr/bin").as_slice()));
    push_if_absent(&mut dirs, string_of(chars_of("/usr/local/bin").as_slice()));
    push_if_absent(&mut dirs, string_of(chars_of("/bin").as_slice()));
    match home {
        Some(h) => {
            let local = join_path(h.as_str(), ".local/bin");
            push_if_absent(&mut dirs, local);
        },
        None => {},
    }
    dirs
}

/// A basename that can be looked up on the search path: non-empty after
/// trimming, and holding no `/`.
pub open spec fn usable_base(base: Seq<char>) -> bool {
    trim(base).len() > 0 && !trim(base).contains('/')
}

/// `n` is the first position at which `answers` says yes.
pub open spec fn first_hit(answers: Seq<bool>, n: int) -> bool {
    &&& 0 <= n < answers.len()
    &&& answers[n]
    &&& forall|j: int| 0 <= j < n ==> !answers[j]
}

/// The search-path lookup of `base`, given what the disk says of each
/// directory (`answers[i]`: whether `dirs[i]` joined with the trimmed
/// basename is a regular file): that candidate for the first directory that
/// has one; none when no directory has one or the basename is unusable.
pub open spec fn path_lookup(base: Seq<char>, dirs: Seq<Seq<char>>, answers: Seq<bool>) -> Option<
    Seq<char>,
> {
    if usable_base(base) && exists|n: int| first_hit(answers, n) {
        Some(path_join(dirs[choose|n: int| first_hit(answers, n)], trim(base)))
    } else {
        None
    }
}

/// The lookup of `basename` in `dirs`, in order, where `is_file[i]` is what
/// the disk said of `dirs[i]` joined with the trimmed basename.
pub fn executable_on_path_given(basename: &str, dirs: &Vec<String>, is_file: &Vec<bool>) -> (r:
    Option<String>)
    requires
        is_file@.len() == dirs@.len(),
    ensures
        opt_view(r) == path_lookup(basename@, seqs_of(dirs@), is_file@),
{
    let base = trim_str(basename);
    if base.len() == 0 || contains_char(base.as_slice(), '/') {
        return None;
    }
    let bs = string_of(base.as_slice());
    let n = dirs.len();
    for i in 0..n
        invariant
            n == dirs@.len(),
            n == is_file@.len(),
            bs@ == trim(basename@),
            usable_base(basename@),
            forall|j: int| 0 <= j < i ==> !is_file@[j],
    {
        if is_file[i] {
            let candidate = join_path(dirs[i].as_str(), bs.as_str());
            proof {
                assert(first_hit(is_file@, i as int));
                let k = choose|k: int| first_hit(is_file@, k);
                if k < i {
                    assert(!is_file@[k]);
                } else if k > i {
                    assert(!is_file@[i as int]);
                }
                assert(k == i as int);
                assert(seqs_of(dirs@)[i as int] == dirs@[i as int]@);
            }
            return Some(candidate);
        }
    }
    proof {
        assert forall|k: int| !first_hit(is_file@, k) by {
            if 0 <= k < is_file@.len() {
                assert(!is_file@[k]);
            }
        }
    }
    None
}

/// Asks the disk, directory by directory in order, whether the trimmed
/// basename joined onto it is a regular file, and stops at the first yes.
/// Directories after it, and every directory when the basename is unusable,
/// are not asked and count as no.
pub(crate) fn path_answers(basename: &str, dirs: &Vec<String>) -> (r: Vec<bool>)
    ensures
        r@.len() == dirs@.len(),
{
    let base = trim_str(basename);
    let usable = !(base.len() == 0 || contains_char(base.as_slice(), '/'));
    let bs = string_of(base.as_slice());
    let n = dirs.len();
    let mut out: Vec<bool> = Vec::new();
    let mut found = false;
    for i in 0..n
        invariant
            n == dirs@.len(),
            out@.len() == i,
    {
        let mut yes = false;
        if usable && !found {
            let candidate = join_path(dirs[i].as_str(), bs.as_str());
            yes = path_is_file(candidate.as_str());
            found = yes;
        }
        out.push(yes);
    }
    out
}

/// `n` answers of no, for questions that were not put to the disk.
pub(crate) fn unasked(n: usize) -> (r: Vec<bool>)
    ensures
        r@.len() == n,
        forall|i: int| 0 <= i < n ==> !r@[i],
{
    let mut out: Vec<bool> = Vec::new();
    for i in 0..n
        invariant
            out@.len() == i,
            forall|j: int| 0 <= j < i ==> !out@[j],
    {
        out.push(false);
    }
    out
}

/// Looks for a regular file named `basename` in `dirs`, in order: the disk
/// is asked of each directory joined with the trimmed basename until one
/// says yes (see `path_answers`); the answer is then `path_lookup` over what
/// it said. An unusable basename (empty, or holding `/`) is never looked up.
pub fn find_executable_on_path(basename: &str, dirs: &Vec<String>) -> (r: Option<String>)
    ensures
        exists|a: Seq<bool>|
            a.len() == dirs@.len() && opt_view(r) == path_lookup(basename@, seqs_of(dirs@), a),
        !usable_base(basename@) ==> r is None,
        dirs@.len() == 0 ==> r is None,
{
    let answers = path_answers(basename, dirs);
    executable_on_path_given(basename, dirs, &answers)
}

/// The last component of a path, empty when it has none.
pub open spec fn base_of(p: Seq<char>) -> Seq<char> {
    match file_name(p) {
        Some(n) => n,
        None => Seq::empty(),
    }
}

pub(crate) fn base_name_of(p: &str) -> (r: String)
    ensures
        r@ == base_of(p@),
{
    let v = chars_of(p);
    match file_name_chars(v.as_slice()) {
        Some(n) => string_of(n.as_slice()),
        None => String::new(),
    }
}

/// The executable a saved path launches, given the disk's answers: the
/// cleaned path when `cleaned_is_file` (a regular file is there), else its
/// basename looked up on the search path with `answers`, else the cleaned
/// path.
pub open spec fn launch_given(
    path: Seq<char>,
    dirs: Seq<Seq<char>>,
    cleaned_is_file: bool,
    answers: Seq<bool>,
) -> Seq<char> {
    let cleaned = strip_deleted(path);
    if cleaned_is_file {
        cleaned
    } else {
        match path_lookup(base_of(cleaned), dirs, answers) {
            Some(f) => f,
            None => cleaned,
        }
    }
}

/// What `resolve_launch_executable` answers for some answers of the disk.
pub open spec fn launch_choice(r: Seq<char>, path: Seq<char>, dirs: Seq<Seq<char>>) -> bool {
    exists|cleaned_is_file: bool, a: Seq<bool>|
        a.len() == dirs.len() && r == launch_given(path, dirs, cleaned_is_file, a)
}

/// The executable a saved path launches, where `cleaned_is_file` is what
/// the disk said of the cleaned path and `is_file` what it said of each
/// search directory joined with that path's basename.
pub fn launch_executable_given(
    path: &str,
    dirs: &Vec<String>,
    cleaned_is_file: bool,
    is_file: &Vec<bool>,
) -> (r: String)
    requires
        is_file@.len() == dirs@.len(),
    ensures
        r@ == launch_given(path@, seqs_of(dirs@), cleaned_is_file, is_file@),
{
    let cleaned = strip_deleted_exe_suffix(path);
    if cleaned_is_file {
        return cleaned;
    }
    let base = base_name_of(cleaned.as_str());
    match executable_on_path_given(base.as_str(), dirs, is_file) {
        Some(found) => found,
        None => cleaned,
    }
}

/// When a saved path is missing (often after an update), tries the search
/// path by basename. The disk is asked whether the cleaned path is a regular
/// file; only when it is not, each search directory joined with its basename
/// is asked in turn (see `path_answers`). The result is `launch_given` over
/// those answers.
pub fn resolve_launch_executable(path: &str, dirs: &Vec<String>) -> (r: String)
    ensures
        launch_choice(r@, path@, seqs_of(dirs@)),
{
    let cleaned = strip_deleted_exe_suffix(path);
    let cleaned_is_file = path_is_file(cleaned.as_str());
    let answers = if cleaned_is_file {
        unasked(dirs.len())
    } else {
        let base = base_name_of(cleaned.as_str());
        path_answers(base.as_str(), dirs)
    };
    let r = launch_executable_given(path, dirs, cleaned_is_file, &answers);
    assert(answers@.len() == seqs_of(dirs@).len() && r@ == launch_given(
        path@,
        seqs_of(dirs@),
        cleaned_is_file,
        answers@,
    ));
    r
}

/// Executable path recorded for a process: `/proc` path, then argv0 (each
/// cleaned and non-empty; argv0 not `/proc/self/exe`).
pub open spec fn from_exe(p: ProcessInfo) -> Option<Seq<char>> {
    match p.exe {
        Some(e) => if strip_deleted(e@).len() > 0 {
            Some(strip_deleted(e@))
        } else {
            None
        },
        None => None,
    }
}

pub open spec fn from_cmd(p: ProcessInfo) -> Option<Seq<char>> {
    if p.cmd@.len() > 0 {
        let c = strip_deleted(p.cmd@[0]@);
        if c.len() > 0 && c != "/proc/self/exe"@ {
            Some(c)
        } else {
            None
        }
    } else {
        None
    }
}

pub open spec fn first_known(p: ProcessInfo) -> Option<Seq<char>> {
    match from_exe(p) {
        Some(x) => Some(x),
        None => from_cmd(p),
    }
}

/// The basename of the first recorded path, empty when none is recorded.
pub open spec fn process_hint(p: ProcessInfo) -> Seq<char> {
    match first_known(p) {
        Some(x) => base_of(x),
        None => Seq::empty(),
    }
}

/// The executable of a process, given the disk's answers: the recorded
/// `/proc` path when `exe_is_file`, else argv0 when `cmd_is_file`, else the
/// recorded basename looked up on the search path with `answers`, else the
/// first recorded path, else the process name.
pub open spec fn process_given(
    p: ProcessInfo,
    dirs: Seq<Seq<char>>,
    exe_is_file: bool,
    cmd_is_file: bool,
    answers: Seq<bool>,
) -> Seq<char> {
    if from_exe(p) is Some && exe_is_file {
        from_exe(p)->0
    } else if from_cmd(p) is Some && cmd_is_file {
        from_cmd(p)->0
    } else {
        match path_lookup(process_hint(p), dirs, answers) {
            Some(f) => f,
            None => match first_known(p) {
                Some(x) => x,
                None => p.name@,
            },
        }
    }
}

/// What `resolve_process_executable` answers for some answers of the disk.
pub open spec fn process_executable_choice(r: Seq<char>, p: ProcessInfo, dirs: Seq<Seq<char>>) -> bool {
    exists|exe_is_file: bool, cmd_is_file: bool, a: Seq<bool>|
        a.len() == dirs.len() && r == process_given(p, dirs, exe_is_file, cmd_is_file, a)
}

fn known_path(o: &Option<String>) -> (r: Option<String>)
    ensures
        opt_view(r) == match *o {
            Some(e) => if strip_deleted(e@).len() > 0 {
                Some(strip_deleted(e@))
            } else {
                None
            },
            None => None,
        },
{
    match o {
        Some(e) => {
            let c = strip_deleted_exe_suffix(e.as_str());
            if c.as_str().unicode_len() > 0 {
                Some(c)
            } else {
                None
            }
        },
        None => None,
    }
}

/// The cleaned `/proc` path and argv0 recorded for a process.
fn recorded_paths(p: &ProcessInfo) -> (r: (Option<String>, Option<String>))
    ensures
        opt_view(r.0) == from_exe(*p),
        opt_view(r.1) == from_cmd(*p),
{
    let fe = known_path(&p.exe);
    let fc = if p.cmd.len() > 0 {
        let c = strip_deleted_exe_suffix(p.cmd[0].as_str());
        let cv = chars_of(c.as_str());
        if cv.len() > 0 && !crate::text::is_lit(cv.as_slice(), "/proc/self/exe") {
            Some(c)
        } else {
            None
        }
    } else {
        None
    };
    (fe, fc)
}

fn hint_of_recorded(fe: &Option<String>, fc: &Option<String>) -> (r: String)
    ensures
        r@ == match opt_view(*fe) {
            Some(x) => base_of(x),
            None => match opt_view(*fc) {
                Some(c) => base_of(c),
                None => Seq::empty(),
            },
        },
{
    match fe {
        Some(e) => base_name_of(e.as_str()),
        None => match fc {
            Some(c) => base_name_of(c.as_str()),
            None => String::new(),
        },
    }
}

/// The executable of a process, where `exe_is_file` and `cmd_is_file` are
/// what the disk said of its recorded `/proc` path and argv0, and `is_file`
/// what it said of each search directory joined with the recorded basename.
pub fn process_executable_given(
    p: &ProcessInfo,
    dirs: &Vec<String>,
    exe_is_file: bool,
    cmd_is_file: bool,
    is_file: &Vec<bool>,
) -> (r: String)
    requires
        is_file@.len() == dirs@.len(),
    ensures
        r@ == process_given(*p, seqs_of(dirs@), exe_is_file, cmd_is_file, is_file@),
{
    let (fe, fc) = recorded_paths(p);
    if let Some(e) = &fe {
        if exe_is_file {
            return clone_string_local(e);
        }
    }
    if let Some(c) = &fc {
        if cmd_is_file {
            return clone_string_local(c);
        }
    }
    let hint = hint_of_recorded(&fe, &fc);
    assert(hint@ == process_hint(*p));
    if let Some(found) = executable_on_path_given(hint.as_str(), dirs, is_file) {
        return found;
    }
    match fe {
        Some(x) => x,
        None => match fc {
            Some(c) => c,
            None => p.name.clone(),
        },
    }
}

/// Prefers an existing file: the disk is asked whether the cleaned `/proc`
/// path is a regular file, then (when it is not, or none is recorded)
/// argv0, then (when neither is) each search directory joined with the
/// recorded basename in turn (see `path_answers`). The result is
/// `process_given` over those answers.
pub fn resolve_process_executable(p: &ProcessInfo, dirs: &Vec<String>) -> (r: String)
    ensures
        process_executable_choice(r@, *p, seqs_of(dirs@)),
{
    let (fe, fc) = recorded_paths(p);
    let exe_is_file = match &fe {
        Some(e) => path_is_file(e.as_str()),
        None => false,
    };
    let cmd_is_file = if exe_is_file {
        false
    } else {
        match &fc {
            Some(c) => path_is_file(c.as_str()),
            None => false,
        }
    };
    let answers = if exe_is_file || cmd_is_file {
        unasked(dirs.len())
    } else {
        let hint = hint_of_recorded(&fe, &fc);
        path_answers(hint.as_str(), dirs)
    };
    let r = process_executable_given(p, dirs, exe_is_file, cmd_is_file, &answers);
    assert(answers@.len() == seqs_of(dirs@).len() && r@ == process_given(
        *p,
        seqs_of(dirs@),
        exe_is_file,
        cmd_is_file,
        answers@,
    ));
    r
}

fn clone_string_local(s: &String) -> (r: String)
    ensures
        r@ == s@,
{
    s.clone()
}

} // verus!
