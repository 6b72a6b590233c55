//! Running-process noise filters and the row type of the profile editor's
//! "running apps" assistant.

use vstd::prelude::*;

use crate::host::json_string_member_of;
use crate::platform::ProcessInfo;
use crate::window_discovery::{
    cands_view, discover_running_app_candidates, discovered, DiscoveryInputs,
};
use crate::platform::{path_join, same_path, same_path_str};
use crate::text::{
    occurs_at,
    chars_of, concat_chars, eq_ignore_ascii_case, eq_ignore_ascii_case_chars, file_name,
    file_name_chars, is_absolute, lower_chars, opt_view, seqs_of, seqs_of_vecs, split_on_pattern,
    split_pat, string_of, strip_prefix, strip_prefix_chars, subrange, trim_str,
    contains, ends_lit, ends_with, has_lit, is_lit, lower_file_name_or_empty, lower_file_name_or_empty_of,
    lower_str, lowercase, starts_lit, starts_with, trim, trim_chars, words, split_words,
};

verus! {

/// Whether a running program is offered as an application or as a plain process.
#[derive(Debug, Clone, Copy, PartialEq, Eq, Structural)]
pub enum CandidateKind {
    App,
    Process,
}

impl Default for CandidateKind {
    fn default() -> (r: Self)
        ensures
            r == CandidateKind::Process,
    {
        CandidateKind::Process
    }
}

/// How sure the classifier is about a candidate.
#[derive(Debug, Clone, Copy, PartialEq, Eq, Structural)]
pub enum ClassificationConfidence {
    High,
    Medium,
    Low,
}

/// One row in the profile editor "running apps" assistant.
#[derive(Debug, Clone, PartialEq, Eq)]
pub struct RunningAppCandidate {
    pub pid: u32,
    pub executable: String,
    pub label: String,
    pub cmd_preview: String,
    pub cwd_hint: Option<String>,
    pub kind: CandidateKind,
    pub display_name: String,
    pub icon_name: Option<String>,
    pub desktop_workspace: Option<u32>,
    pub window_title: Option<String>,
    pub classification_confidence: Option<ClassificationConfidence>,
}

/// Chromium helper processes (renderers, zygotes, GPU and utility
/// processes, crash handlers), recognised by their `--type=` switch.
pub open spec fn chromium_subprocess(cmd: Seq<char>) -> bool {
    ||| contains(cmd, "--type=renderer"@)
    ||| contains(cmd, "--type=zygote"@)
    ||| contains(cmd, "--type=gpu-process"@)
    ||| contains(cmd, "--type=utility"@)
    ||| contains(cmd, "--type=broker"@)
    ||| contains(cmd, "--type=crashpad-handler"@)
    ||| contains(cmd, "--type=crashpad_handler"@)
}

/// Every Chromium helper switch marks a helper process: a command line
/// holding `--type=renderer`, `--type=zygote`, `--type=gpu-process`,
/// `--type=utility`, `--type=broker` or a crash-handler type is a helper.
/// Conversely only a `--type=` switch does: a command line without one is
/// never a helper.
pub proof fn law_chromium_helpers(cmd: Seq<char>)
    ensures
        contains(cmd, "--type=renderer"@) ==> chromium_subprocess(cmd),
        contains(cmd, "--type=zygote"@) ==> chromium_subprocess(cmd),
        contains(cmd, "--type=gpu-process"@) ==> chromium_subprocess(cmd),
        contains(cmd, "--type=utility"@) ==> chromium_subprocess(cmd),
        contains(cmd, "--type=broker"@) ==> chromium_subprocess(cmd),
        contains(cmd, "--type=crashpad-handler"@) ==> chromium_subprocess(cmd),
        contains(cmd, "--type=crashpad_handler"@) ==> chromium_subprocess(cmd),
        !contains(cmd, "--type="@) ==> !chromium_subprocess(cmd),
{
    reveal_strlit("--type=");
    reveal_strlit("--type=renderer");
    reveal_strlit("--type=zygote");
    reveal_strlit("--type=gpu-process");
    reveal_strlit("--type=utility");
    reveal_strlit("--type=broker");
    reveal_strlit("--type=crashpad-handler");
    reveal_strlit("--type=crashpad_handler");
    if chromium_subprocess(cmd) {
        let lits = seq![
            "--type=renderer"@,
            "--type=zygote"@,
            "--type=gpu-process"@,
            "--type=utility"@,
            "--type=broker"@,
            "--type=crashpad-handler"@,
            "--type=crashpad_handler"@,
        ];
        assert(exists|k: int| 0 <= k < 7 && contains(cmd, lits[k]));
        let k = choose|k: int| 0 <= k < 7 && contains(cmd, lits[k]);
        let lit = lits[k];
        let i = choose|i: int| occurs_at(cmd, lit, i);
        assert(lit.subrange(0, 7) =~= "--type="@);
        assert(cmd.subrange(i, i + 7) =~= cmd.subrange(i, i + lit.len()).subrange(0, 7));
        assert(occurs_at(cmd, "--type="@, i));
    }
}

pub fn assistant_chromium_subprocess_cmd(cmd: &str) -> (r: bool)
    ensures
        r == chromium_subprocess(cmd@),
{
    let c = crate::text::chars_of(cmd);
    let c = c.as_slice();
    has_lit(c, "--type=renderer") || has_lit(c, "--type=zygote") || has_lit(c, "--type=gpu-process") || has_lit(
        c,
        "--type=utility",
    ) || has_lit(c, "--type=broker") || has_lit(c, "--type=crashpad-handler") || has_lit(
        c,
        "--type=crashpad_handler",
    )
}

// ---------------------------------------------------------------------------
// Background noise
// ---------------------------------------------------------------------------

/// Editor extension hosts and language servers (case-sensitive path checks).
pub open spec fn noise_editor_tooling(exe: Seq<char>, el: Seq<char>, cl: Seq<char>) -> bool {
    ||| contains(exe, "/.cursor/extensions/"@)
    ||| contains(exe, "rust-lang.rust-analyzer"@)
    ||| contains(exe, "/rust-analyzer"@)
    ||| contains(el, "/node_modules/"@)
    ||| contains(cl, "/node_modules/"@)
    ||| (contains(el, "/.nvm/"@) && contains(cl, "node_modules"@))
    ||| (contains(el, "globalstorage"@) && (contains(el, "clangd"@) || contains(cl, "clangd"@)
        || contains(el, "llvm-vs-code-extensions"@)))
    ||| (contains(el, "/.config/cursor/"@) && (contains(el, "clangd"@) || contains(
        el,
        "language-server"@,
    ) || contains(el, "llvm-vs-code-extensions"@) || contains(el, "extensions/"@)))
}

/// Desktop helpers, virtualisation services and dev-server runners.
pub open spec fn noise_helpers(base: Seq<char>, el: Seq<char>, cl: Seq<char>) -> bool {
    ||| base == "touchegg"@
    ||| base == "vboxsvc"@
    ||| base == "vboxheadless"@
    ||| base == "vboxnetadp"@
    ||| base == "vboxnetflt"@
    ||| base == "obexd"@
    ||| base == "oosplash"@
    ||| ((base == "node"@ || ends_with(el, "/node"@)) && (contains(cl, "node_modules/.bin/"@)
        || contains(cl, "/node_modules/.bin/vite"@) || contains(cl, "/node_modules/.bin/esbuild"@)
        || contains(cl, "npm run"@) || contains(cl, " npx "@) || starts_with(cl, "npx "@)))
    ||| (base == "esbuild"@ && contains(cl, "node_modules"@))
    ||| (starts_with(base, "python"@) && contains(cl, "hidpi-daemon"@))
    ||| (starts_with(base, "python"@) && (contains(cl, "solar"@) || contains(cl, "/usr/bin/solar"@)
        || (contains(cl, "--window=hide"@) && contains(cl, "/usr/bin/"@))))
    ||| contains(el, "binfmt-bypass"@)
    ||| contains(cl, "binfmt-bypass"@)
    ||| contains(el, "memfd:"@)
    ||| contains(base, "memfd"@)
    ||| base == "bwrap"@
}

/// Shell and pager plumbing started by other programs.
pub open spec fn noise_shells(base: Seq<char>, el: Seq<char>, cl: Seq<char>) -> bool {
    ||| (base == "cat"@ && starts_with(el, "/usr/bin/"@) && trim(cl) == "cat"@)
    ||| (base == "tail"@ && starts_with(el, "/usr/bin/"@) && !contains(cl, "/home/"@) && words(
        cl,
    ).len() <= 4)
    ||| ((base == "dash"@ || base == "sh"@) && contains(cl, "npm run"@))
    ||| ((base == "dash"@ || base == "sh"@) && contains(cl, "-c"@) && (contains(cl, "vite"@)
        || contains(cl, "tauri"@)))
    ||| contains(el, "cursorsandbox"@)
    ||| (contains(el, "/cursor/resources/"@) && contains(el, "/helpers/"@))
    ||| starts_with(base, "goa-"@)
    ||| base == "appimagelauncherd"@
    ||| (starts_with(base, "php"@) && (contains(cl, "localhost:"@) || contains(cl, "127.0.0.1:"@)
        || contains(cl, " -s "@)))
    ||| starts_with(base, "dbus-broker-"@)
}

/// Session services and system daemons that survive the deny list.
pub open spec fn noise_session(base: Seq<char>, el: Seq<char>, cl: Seq<char>) -> bool {
    ||| base == "gnome-session-ctl"@
    ||| base == "gnome-session-f"@
    ||| base == "gnome-session-service"@
    ||| contains(base, "pop-system-updater"@)
    ||| (base == "zsh"@ && contains(el, "/usr/bin/zsh"@) && (contains(cl, "cat <&3"@) || contains(
        cl,
        "command cat <&3"@,
    )))
    ||| (base == "zsh"@ && contains(el, "/usr/bin/zsh"@) && !contains(cl, "/home/"@) && !contains(
        cl,
        ".sh"@,
    ) && words(cl).len() <= 4)
    ||| starts_with(base, "gvfs-"@)
    ||| contains(el, "/gvfs-"@)
    ||| contains(el, "/usr/libexec/gvfs"@)
    ||| base == "xdg-dbus-proxy"@
    ||| contains(el, "/p11-kit/"@)
    ||| starts_with(base, "p11-kit"@)
    ||| (base == "adb"@ && (contains(cl, "fork-server"@) || contains(cl, "forkserver"@)))
    ||| contains(el, "gdm-x-session"@)
    ||| contains(base, "gdm-x-session"@)
    ||| (contains(cl, "io.elementary.appcenter"@) && contains(cl, " -s"@))
}

/// Background processes hidden from the assistant, judged from the
/// executable path `exe` and the command line `cmd`; `el` and `cl` are their
/// lower-case forms and `base` the lower-case file name of `exe`.
pub open spec fn background_noise(exe: Seq<char>, cmd: Seq<char>) -> bool {
    let el = lowercase(exe);
    let cl = lowercase(cmd);
    let base = lower_file_name_or_empty(exe);
    ||| noise_editor_tooling(exe, el, cl)
    ||| noise_helpers(base, el, cl)
    ||| noise_shells(base, el, cl)
    ||| noise_session(base, el, cl)
}

/// What marks a process as background noise, whatever else its path and
/// command line hold: editor extension hosts and language servers, Node
/// tooling under `node_modules`, the fixed helper basenames (any case),
/// sandboxes, session services and gvfs/p11-kit/dbus plumbing.
pub proof fn law_background_noise_rules(exe: Seq<char>, cmd: Seq<char>)
    ensures
        ({
            let el = lowercase(exe);
            let cl = lowercase(cmd);
            let base = lower_file_name_or_empty(exe);
            &&& contains(exe, "/.cursor/extensions/"@) ==> background_noise(exe, cmd)
            &&& contains(exe, "/rust-analyzer"@) ==> background_noise(exe, cmd)
            &&& contains(el, "/node_modules/"@) ==> background_noise(exe, cmd)
            &&& contains(cl, "/node_modules/"@) ==> background_noise(exe, cmd)
            &&& (base == "touchegg"@ || base == "vboxsvc"@ || base == "vboxheadless"@ || base == "vboxnetadp"@
                || base == "vboxnetflt"@ || base == "obexd"@ || base == "oosplash"@ || base == "bwrap"@
                || base == "appimagelauncherd"@ || base == "xdg-dbus-proxy"@ || base == "gnome-session-ctl"@
                || base == "gnome-session-f"@ || base == "gnome-session-service"@) ==> background_noise(exe, cmd)
            &&& (base == "node"@ && (contains(cl, "npm run"@) || starts_with(cl, "npx "@))) ==> background_noise(
                exe,
                cmd,
            )
            &&& (base == "esbuild"@ && contains(cl, "node_modules"@)) ==> background_noise(exe, cmd)
            &&& (contains(el, "binfmt-bypass"@) || contains(cl, "binfmt-bypass"@)) ==> background_noise(exe, cmd)
            &&& (contains(el, "memfd:"@) || contains(base, "memfd"@)) ==> background_noise(exe, cmd)
            &&& contains(el, "cursorsandbox"@) ==> background_noise(exe, cmd)
            &&& (starts_with(base, "goa-"@) || starts_with(base, "dbus-broker-"@) || starts_with(base, "gvfs-"@)
                || starts_with(base, "p11-kit"@)) ==> background_noise(exe, cmd)
            &&& (contains(el, "/usr/libexec/gvfs"@) || contains(el, "/p11-kit/"@) || contains(
                el,
                "gdm-x-session"@,
            )) ==> background_noise(exe, cmd)
            &&& contains(base, "pop-system-updater"@) ==> background_noise(exe, cmd)
            &&& (base == "adb"@ && contains(cl, "fork-server"@)) ==> background_noise(exe, cmd)
            &&& ((base == "dash"@ || base == "sh"@) && contains(cl, "npm run"@)) ==> background_noise(exe, cmd)
        }),
{
}

fn editor_tooling(exe: &[char], el: &[char], cl: &[char]) -> (r: bool)
    ensures
        r == noise_editor_tooling(exe@, el@, cl@),
{
    has_lit(exe, "/.cursor/extensions/") || has_lit(exe, "rust-lang.rust-analyzer") || has_lit(
        exe,
        "/rust-analyzer",
    ) || has_lit(el, "/node_modules/") || has_lit(cl, "/node_modules/") || (has_lit(el, "/.nvm/") && has_lit(
        cl,
        "node_modules",
    )) || (has_lit(el, "globalstorage") && (has_lit(el, "clangd") || has_lit(cl, "clangd") || has_lit(
        el,
        "llvm-vs-code-extensions",
    ))) || (has_lit(el, "/.config/cursor/") && (has_lit(el, "clangd") || has_lit(el, "language-server") || has_lit(
        el,
        "llvm-vs-code-extensions",
    ) || has_lit(el, "extensions/")))
}

fn helpers(base: &[char], el: &[char], cl: &[char]) -> (r: bool)
    ensures
        r == noise_helpers(base@, el@, cl@),
{
    is_lit(base, "touchegg") || is_lit(base, "vboxsvc") || is_lit(base, "vboxheadless") || is_lit(
        base,
        "vboxnetadp",
    ) || is_lit(base, "vboxnetflt") || is_lit(base, "obexd") || is_lit(base, "oosplash") || ((is_lit(base, "node")
        || ends_lit(el, "/node")) && (has_lit(cl, "node_modules/.bin/") || has_lit(
        cl,
        "/node_modules/.bin/vite",
    ) || has_lit(cl, "/node_modules/.bin/esbuild") || has_lit(cl, "npm run") || has_lit(cl, " npx ")
        || starts_lit(cl, "npx "))) || (is_lit(base, "esbuild") && has_lit(cl, "node_modules")) || (starts_lit(
        base,
        "python",
    ) && has_lit(cl, "hidpi-daemon")) || (starts_lit(base, "python") && (has_lit(cl, "solar") || has_lit(
        cl,
        "/usr/bin/solar",
    ) || (has_lit(cl, "--window=hide") && has_lit(cl, "/usr/bin/")))) || has_lit(el, "binfmt-bypass") || has_lit(
        cl,
        "binfmt-bypass",
    ) || has_lit(el, "memfd:") || has_lit(base, "memfd") || is_lit(base, "bwrap")
}

fn shells(base: &[char], el: &[char], cl: &[char]) -> (r: bool)
    ensures
        r == noise_shells(base@, el@, cl@),
{
    let tc = trim_chars(cl);
    let w = split_words(cl);
    (is_lit(base, "cat") && starts_lit(el, "/usr/bin/") && is_lit(tc.as_slice(), "cat")) || (is_lit(base, "tail")
        && starts_lit(el, "/usr/bin/") && !has_lit(cl, "/home/") && w.len() <= 4) || ((is_lit(base, "dash")
        || is_lit(base, "sh")) && has_lit(cl, "npm run")) || ((is_lit(base, "dash") || is_lit(base, "sh")) && has_lit(
        cl,
        "-c",
    ) && (has_lit(cl, "vite") || has_lit(cl, "tauri"))) || has_lit(el, "cursorsandbox") || (has_lit(
        el,
        "/cursor/resources/",
    ) && has_lit(el, "/helpers/")) || starts_lit(base, "goa-") || is_lit(base, "appimagelauncherd") || (
    starts_lit(base, "php") && (has_lit(cl, "localhost:") || has_lit(cl, "127.0.0.1:") || has_lit(cl, " -s ")))
        || starts_lit(base, "dbus-broker-")
}

fn session(base: &[char], el: &[char], cl: &[char]) -> (r: bool)
    ensures
        r == noise_session(base@, el@, cl@),
{
    let w = split_words(cl);
    is_lit(base, "gnome-session-ctl") || is_lit(base, "gnome-session-f") || is_lit(base, "gnome-session-service")
        || has_lit(base, "pop-system-updater") || (is_lit(base, "zsh") && has_lit(el, "/usr/bin/zsh") && (has_lit(
        cl,
        "cat <&3",
    ) || has_lit(cl, "command cat <&3"))) || (is_lit(base, "zsh") && has_lit(el, "/usr/bin/zsh") && !has_lit(
        cl,
        "/home/",
    ) && !has_lit(cl, ".sh") && w.len() <= 4) || starts_lit(base, "gvfs-") || has_lit(el, "/gvfs-") || has_lit(
        el,
        "/usr/libexec/gvfs",
    ) || is_lit(base, "xdg-dbus-proxy") || has_lit(el, "/p11-kit/") || starts_lit(base, "p11-kit") || (is_lit(
        base,
        "adb",
    ) && (has_lit(cl, "fork-server") || has_lit(cl, "forkserver"))) || has_lit(el, "gdm-x-session") || has_lit(
        base,
        "gdm-x-session",
    ) || (has_lit(cl, "io.elementary.appcenter") && has_lit(cl, " -s"))
}

/// Whether a process is background noise for the assistant (editor tooling,
/// dev servers, helpers and session daemons).
pub fn assistant_background_noise(executable: &str, cmd: &str) -> (r: bool)
    ensures
        r == background_noise(executable@, cmd@),
{
    let exe = crate::text::chars_of(executable);
    let el = lower_str(executable);
    let cl = lower_str(cmd);
    let base = lower_file_name_or_empty_of(exe.as_slice());
    editor_tooling(exe.as_slice(), el.as_slice(), cl.as_slice()) || helpers(
        base.as_slice(),
        el.as_slice(),
        cl.as_slice(),
    ) || shells(base.as_slice(), el.as_slice(), cl.as_slice()) || session(
        base.as_slice(),
        el.as_slice(),
        cl.as_slice(),
    )
}

/// The `rustc` compiler itself is never offered (its basename, any ASCII case).
pub open spec fn skip_for_capture(exe: Seq<char>) -> bool {
    match file_name(exe) {
        Some(n) => eq_ignore_ascii_case(n, "rustc"@),
        None => false,
    }
}

pub fn assistant_basename_skip_for_capture(exe_path: &str) -> (r: bool)
    ensures
        r == skip_for_capture(exe_path@),
{
    let v = chars_of(exe_path);
    match file_name_chars(v.as_slice()) {
        Some(n) => {
            let rustc = chars_of("rustc");
            eq_ignore_ascii_case_chars(n.as_slice(), rustc.as_slice())
        },
        None => false,
    }
}

/// The pieces of `parts` joined by `sep`.
pub open spec fn join(parts: Seq<Seq<char>>, sep: Seq<char>) -> Seq<char>
    decreases parts.len(),
{
    if parts.len() == 0 {
        Seq::empty()
    } else if parts.len() == 1 {
        parts[0]
    } else {
        join(parts.drop_last(), sep) + sep + parts.last()
    }
}

/// The command line as one string: arguments joined by single spaces.
pub fn process_cmdline_full(cmd: &Vec<String>) -> (r: String)
    ensures
        r@ == join(seqs_of(cmd@), " "@),
{
    join_with(cmd, " ")
}

/// `parts.join(sep)`.
pub fn join_with(parts_v: &Vec<String>, sep: &str) -> (r: String)
    ensures
        r@ == join(seqs_of(parts_v@), sep@),
{
    let ghost parts = seqs_of(parts_v@);
    let mut out: Vec<char> = Vec::new();
    let n = parts_v.len();
    let sp = chars_of(sep);
    for i in 0..n
        invariant
            n == parts_v@.len(),
            parts == seqs_of(parts_v@),
            sp@ == sep@,
            out@ == join(parts.take(i as int), sep@),
    {
        let a = chars_of(parts_v[i].as_str());
        assert(parts.take(i + 1).drop_last() =~= parts.take(i as int));
        assert(parts.take(i + 1).last() == a@);
        if i == 0 {
            out = a;
        } else {
            let with_sep = concat_chars(out.as_slice(), sp.as_slice());
            out = concat_chars(with_sep.as_slice(), a.as_slice());
        }
    }
    assert(parts.take(n as int) =~= parts);
    string_of(out.as_slice())
}

// ---------------------------------------------------------------------------
// Editor workspace hints
// ---------------------------------------------------------------------------

/// The value of an ASCII hexadecimal digit byte.
pub open spec fn hex_digit(b: u8) -> Option<u8> {
    if 48 <= b <= 57 {
        Some((b - 48) as u8)
    } else if 97 <= b <= 102 {
        Some((b - 87) as u8)
    } else if 65 <= b <= 70 {
        Some((b - 55) as u8)
    } else {
        None
    }
}

/// `u8::from_str_radix` of the two bytes after a `%` at `i`: two hex digits,
/// or `+` and one hex digit.
pub open spec fn escape_at(b: Seq<u8>, i: int) -> Option<u8> {
    if b[i + 1] == 43 {
        hex_digit(b[i + 2])
    } else {
        match (hex_digit(b[i + 1]), hex_digit(b[i + 2])) {
            (Some(x), Some(y)) => Some((16 * x + y) as u8),
            _ => None,
        }
    }
}

/// Percent-decoding of the bytes from `i` on: `%XX` with a valid escape
/// becomes that byte, every other byte is kept; each byte becomes the
/// character with the same number.
pub open spec fn pct_decode_from(b: Seq<u8>, i: int) -> Seq<char>
    decreases b.len() - i,
{
    if i < 0 || i >= b.len() {
        Seq::empty()
    } else if b[i] == 37 && i + 2 < b.len() && escape_at(b, i) is Some {
        seq![(escape_at(b, i)->0) as char] + pct_decode_from(b, i + 3)
    } else {
        seq![b[i] as char] + pct_decode_from(b, i + 1)
    }
}

pub open spec fn pct_decode(s: Seq<char>) -> Seq<char> {
    pct_decode_from(vstd::utf8::encode_utf8(s), 0)
}

fn hex_digit_of(b: u8) -> (r: Option<u8>)
    ensures
        r == hex_digit(b),
{
    if 48 <= b && b <= 57 {
        Some(b - 48)
    } else if 97 <= b && b <= 102 {
        Some(b - 87)
    } else if 65 <= b && b <= 70 {
        Some(b - 55)
    } else {
        None
    }
}

/// Decodes `%XX` escapes in the UTF-8 bytes of `input`, each output byte
/// becoming one character.
pub fn percent_decode(input: &str) -> (r: String)
    ensures
        r@ == pct_decode(input@),
{
    let bytes = input.as_bytes();
    let ghost b = bytes@;
    assert(b == vstd::utf8::encode_utf8(input@));
    let mut out: Vec<char> = Vec::new();
    let n = bytes.len();
    let mut i: usize = 0;
    while i < n
        invariant
            n == b.len(),
            b == bytes@,
            i <= n,
            out@ + pct_decode_from(b, i as int) == pct_decode_from(b, 0),
        decreases n - i,
    {
        if bytes[i] == 37 && n >= 3 && i < n - 2 {
            let esc = if bytes[i + 1] == 43 {
                hex_digit_of(bytes[i + 2])
            } else {
                match (hex_digit_of(bytes[i + 1]), hex_digit_of(bytes[i + 2])) {
                    (Some(x), Some(y)) => Some(16 * x + y),
                    _ => None,
                }
            };
            assert(esc == escape_at(b, i as int));
            if let Some(v) = esc {
                let ghost before = out@;
                out.push(v as char);
                assert(out@ + pct_decode_from(b, i + 3) =~= before + pct_decode_from(b, i as int));
                i = i + 3;
                continue;
            }
        }
        let ghost before = out@;
        out.push(bytes[i] as char);
        assert(out@ + pct_decode_from(b, i + 1) =~= before + pct_decode_from(b, i as int));
        i = i + 1;
    }
    assert(out@ =~= out@ + pct_decode_from(b, n as int));
    string_of(out.as_slice())
}

/// A `file://` URI decoded to a path (with an optional `//localhost`
/// authority removed), or `None` when it is not one or decodes to nothing.
pub open spec fn file_uri_path(uri: Seq<char>) -> Option<Seq<char>> {
    match strip_prefix(trim(uri), "file://"@) {
        Some(p) => {
            let p2 = match strip_prefix(p, "//localhost"@) {
                Some(q) => q,
                None => p,
            };
            let d = pct_decode(p2);
            if d.len() == 0 {
                None
            } else {
                Some(d)
            }
        },
        None => None,
    }
}

pub fn decode_file_uri(uri: &str) -> (r: Option<String>)
    ensures
        opt_view(r) == file_uri_path(uri@),
{
    let t = trim_str(uri);
    let scheme = chars_of("file://");
    let p = match strip_prefix_chars(t.as_slice(), scheme.as_slice()) {
        Some(p) => p,
        None => return None,
    };
    let host = chars_of("//localhost");
    let p2 = match strip_prefix_chars(p.as_slice(), host.as_slice()) {
        Some(q) => q,
        None => p,
    };
    let p2s = string_of(p2.as_slice());
    let d = percent_decode(p2s.as_str());
    if d.as_str().unicode_len() == 0 {
        None
    } else {
        Some(d)
    }
}

/// A path named by an editor argument: `--folder-uri=`/`--file-uri=`
/// values decoded, other switches ignored, absolute paths as given.
pub open spec fn arg_path(arg: Seq<char>) -> Option<Seq<char>> {
    match strip_prefix(arg, "--folder-uri="@) {
        Some(rest) => file_uri_path(rest),
        None => match strip_prefix(arg, "--file-uri="@) {
            Some(rest) => file_uri_path(rest),
            None => if starts_with(arg, "-"@) {
                None
            } else if is_absolute(arg) {
                Some(arg)
            } else {
                None
            },
        },
    }
}

pub fn editor_path_from_arg(arg: &str) -> (r: Option<String>)
    ensures
        opt_view(r) == arg_path(arg@),
{
    let a = chars_of(arg);
    let folder = chars_of("--folder-uri=");
    if let Some(rest) = strip_prefix_chars(a.as_slice(), folder.as_slice()) {
        return decode_file_uri(string_of(rest.as_slice()).as_str());
    }
    let file = chars_of("--file-uri=");
    if let Some(rest) = strip_prefix_chars(a.as_slice(), file.as_slice()) {
        return decode_file_uri(string_of(rest.as_slice()).as_str());
    }
    if starts_lit(a.as_slice(), "-") {
        return None;
    }
    if a.len() > 0 && a[0] == '/' {
        return Some(string_of(a.as_slice()));
    }
    None
}

/// Window-title suffixes that the known editors append.
pub open spec fn editor_title_suffixes(base: Seq<char>) -> Option<Seq<Seq<char>>> {
    if base == "cursor"@ {
        Some(seq![" - Cursor"@])
    } else if base == "code"@ || base == "code-oss"@ {
        Some(seq![" - Visual Studio Code"@, " - Code - OSS"@])
    } else if base == "codium"@ {
        Some(seq![" - VSCodium"@])
    } else if base == "obsidian"@ {
        Some(seq![" - Obsidian"@])
    } else {
        None
    }
}

/// The first suffix (from index `k` on) that ends `t` (ASCII case
/// ignored) with something before it: what precedes it, trimmed.
pub open spec fn strip_first_suffix(t: Seq<char>, sufs: Seq<Seq<char>>, k: int) -> Option<Seq<char>>
    decreases sufs.len() - k,
{
    if k < 0 || k >= sufs.len() {
        None
    } else {
        let s = sufs[k];
        if t.len() > s.len() && eq_ignore_ascii_case(t.subrange(t.len() - s.len(), t.len() as int), s) {
            Some(trim(t.subrange(0, t.len() - s.len())))
        } else {
            strip_first_suffix(t, sufs, k + 1)
        }
    }
}

/// The trimmed title without the editor's application suffix.
pub open spec fn strip_editor_suffix(title: Seq<char>, base: Seq<char>) -> Option<Seq<char>> {
    match editor_title_suffixes(base) {
        Some(sufs) => strip_first_suffix(trim(title), sufs, 0),
        None => None,
    }
}

fn title_suffixes(base: &[char]) -> (r: Option<Vec<Vec<char>>>)
    ensures
        match r {
            Some(v) => editor_title_suffixes(base@) == Some(seqs_of_vecs(v@)),
            None => editor_title_suffixes(base@) is None,
        },
{
    let mut v: Vec<Vec<char>> = Vec::new();
    if is_lit(base, "cursor") {
        v.push(chars_of(" - Cursor"));
    } else if is_lit(base, "code") || is_lit(base, "code-oss") {
        v.push(chars_of(" - Visual Studio Code"));
        v.push(chars_of(" - Code - OSS"));
    } else if is_lit(base, "codium") {
        v.push(chars_of(" - VSCodium"));
    } else if is_lit(base, "obsidian") {
        v.push(chars_of(" - Obsidian"));
    } else {
        return None;
    }
    proof {
        let e = editor_title_suffixes(base@)->0;
        assert(seqs_of_vecs(v@) =~= e);
    }
    Some(v)
}

/// Strips the application suffix an editor puts at the end of its window
/// titles (`… - Cursor`), comparing without regard to ASCII case.
pub fn strip_editor_app_suffix(title: &str, basename_lower: &str) -> (r: Option<String>)
    ensures
        opt_view(r) == strip_editor_suffix(title@, basename_lower@),
{
    let bv = chars_of(basename_lower);
    let sufs = match title_suffixes(bv.as_slice()) {
        Some(v) => v,
        None => return None,
    };
    let t = trim_str(title);
    let n = sufs.len();
    let ghost ss = seqs_of_vecs(sufs@);
    for k in 0..n
        invariant
            n == sufs@.len(),
            ss == seqs_of_vecs(sufs@),
            t@ == trim(title@),
            editor_title_suffixes(basename_lower@) == Some(ss),
            strip_first_suffix(t@, ss, 0) == strip_first_suffix(t@, ss, k as int),
    {
        let s = &sufs[k];
        if t.len() > s.len() {
            let tail = subrange(t.as_slice(), t.len() - s.len(), t.len());
            if eq_ignore_ascii_case_chars(tail.as_slice(), s.as_slice()) {
                let head = subrange(t.as_slice(), 0, t.len() - s.len());
                let h = trim_chars(head.as_slice());
                return Some(string_of(h.as_slice()));
            }
        }
    }
    None
}

/// The workspace name an editor shows last in its title
/// (`file - workspace - Cursor` gives `workspace`).
pub open spec fn workspace_name_from_title(title: Seq<char>, base: Seq<char>) -> Option<Seq<char>> {
    match strip_editor_suffix(title, base) {
        Some(stripped) => {
            let parts = split_pat(stripped, " - "@).map_values(|p: Seq<char>| trim(p)).filter(
                non_empty_text(),
            );
            if parts.len() == 0 {
                None
            } else {
                Some(parts.last())
            }
        },
        None => None,
    }
}

pub open spec fn non_empty_text() -> spec_fn(Seq<char>) -> bool {
    |p: Seq<char>| p.len() > 0
}

pub fn workspace_display_name_from_title(title: &str, basename_lower: &str) -> (r: Option<String>)
    ensures
        opt_view(r) == workspace_name_from_title(title@, basename_lower@),
{
    let stripped = match strip_editor_app_suffix(title, basename_lower) {
        Some(s) => s,
        None => return None,
    };
    let sv = chars_of(stripped.as_str());
    let sep = chars_of(" - ");
    proof {
        reveal_strlit(" - ");
    }
    let pieces = split_on_pattern(sv.as_slice(), sep.as_slice());
    let ghost ps = seqs_of_vecs(pieces@);
    let ghost trimmed = ps.map_values(|p: Seq<char>| trim(p));
    let ghost pred = non_empty_text();
    let mut kept: Vec<Vec<char>> = Vec::new();
    let n = pieces.len();
    for i in 0..n
        invariant
            n == pieces@.len(),
            ps == seqs_of_vecs(pieces@),
            trimmed == ps.map_values(|p: Seq<char>| trim(p)),
            pred == non_empty_text(),
            seqs_of_vecs(kept@) == trimmed.take(i as int).filter(pred),
    {
        let tp = trim_chars(pieces[i].as_slice());
        proof {
            assert(trimmed[i as int] == tp@);
            assert(trimmed.take(i + 1).drop_last() =~= trimmed.take(i as int));
            assert(trimmed.take(i + 1).last() == tp@);
            reveal(Seq::filter);
        }
        if tp.len() > 0 {
            let ghost before = seqs_of_vecs(kept@);
            kept.push(tp);
            assert(seqs_of_vecs(kept@) =~= before.push(trimmed[i as int]));
        }
    }
    assert(trimmed.take(n as int) =~= trimmed);
    if kept.len() == 0 {
        return None;
    }
    let last = kept.len() - 1;
    Some(string_of(kept[last].as_slice()))
}

/// The `folder` member of an editor's `workspace.json`: a `file://` URI is
/// decoded, any other string is taken as it is.
pub open spec fn workspace_json_folder(content: Seq<char>) -> Option<Seq<char>> {
    match crate::host::json_string_member(content, "folder"@) {
        Some(f) => if starts_with(f, "file://"@) {
            file_uri_path(f)
        } else {
            Some(f)
        },
        None => None,
    }
}

pub fn folder_from_workspace_json(content: &str) -> (r: Option<String>)
    ensures
        opt_view(r) == workspace_json_folder(content@),
{
    let folder = match json_string_member_of(content, "folder") {
        Some(f) => f,
        None => return None,
    };
    let fv = chars_of(folder.as_str());
    if starts_lit(fv.as_slice(), "file://") {
        decode_file_uri(folder.as_str())
    } else {
        Some(folder)
    }
}

/// Working directories that say nothing about the open project: `/`, the
/// home directory, system trees and the editor's own install directory.
pub open spec fn unhelpful_editor_cwd(path: Seq<char>, home: Option<Seq<char>>) -> bool {
    let lower = lowercase(path);
    ||| path == "/"@
    ||| (home matches Some(h) && same_path(h, path))
    ||| starts_with(lower, "/usr/share/"@)
    ||| starts_with(lower, "/usr/lib/"@)
    ||| contains(lower, "/.cursor/"@)
    ||| ends_with(lower, "/cursor"@)
    ||| ends_with(lower, "/code"@)
}

pub fn is_unhelpful_editor_cwd(path: &str, home: &Option<String>) -> (r: bool)
    ensures
        r == unhelpful_editor_cwd(path@, opt_view(*home)),
{
    let p = chars_of(path);
    if is_lit(p.as_slice(), "/") {
        return true;
    }
    if let Some(h) = home {
        if same_path_str(h.as_str(), path) {
            return true;
        }
    }
    let lower = lower_chars(p.as_slice());
    starts_lit(lower.as_slice(), "/usr/share/") || starts_lit(lower.as_slice(), "/usr/lib/")
        || has_lit(lower.as_slice(), "/.cursor/") || ends_lit(lower.as_slice(), "/cursor") || ends_lit(
        lower.as_slice(),
        "/code",
    )
}

/// The running applications offered to the capture assistant (see
/// `discover_running_app_candidates`).
pub fn list_running_app_candidates(
    inp: &DiscoveryInputs,
    procs: &Vec<ProcessInfo>,
    my_pid: u32,
    session_type: &str,
) -> (r: Vec<RunningAppCandidate>)
    ensures
        discovered(*inp, procs@, my_pid, session_type@, cands_view(r@)),
{
    discover_running_app_candidates(inp, procs, my_pid, session_type)
}

} // verus!
