//! Index of freedesktop `.desktop` entries, used to recognise running
//! processes, window titles and Wayland app ids as installed applications.
//!
//! The index keeps its tables in registration order; a key that is already
//! present keeps its first entry.

use vstd::prelude::*;

use crate::host::home_dir;
use crate::order::{sorted_dedup, sorted_set_of};
use crate::platform::{join_path, path_join};
use crate::text::{
    contains, contains_chars, ends_with, ends_with_chars, chars_of, clone_chars, clone_string, contains_char, eq_ignore_ascii_case,
    eq_ignore_ascii_case_chars, file_name, file_name_chars, is_lit, lines, lines_of, lower_chars,
    lowercase, matches_at, occurs_at, opt_view, seqs_of, seqs_of_vecs, split_char, split_on_char,
    split_words, starts_with, string_of, strings_of, strip_prefix, strip_prefix_chars, trim,
    to_uppercase_char, trim_chars, uppercase_char, words,
};

verus! {

/// One application entry of a `.desktop` file.
#[derive(Debug, Clone, PartialEq, Eq)]
pub struct DesktopEntry {
    pub name: String,
    pub icon: Option<String>,
    pub exec_keys: Vec<String>,
    pub startup_wm_class: Option<String>,
    /// Chromium/Vivaldi web app installed with `--app-id=…` in `Exec`.
    pub app_id: Option<String>,
}

/// A desktop entry as plain values.
pub struct EntryView {
    pub name: Seq<char>,
    pub icon: Option<Seq<char>>,
    pub exec_keys: Seq<Seq<char>>,
    pub startup_wm_class: Option<Seq<char>>,
    pub app_id: Option<Seq<char>>,
}

impl View for DesktopEntry {
    type V = EntryView;

    open spec fn view(&self) -> EntryView {
        EntryView {
            name: self.name@,
            icon: opt_view(self.icon),
            exec_keys: seqs_of(self.exec_keys@),
            startup_wm_class: opt_view(self.startup_wm_class),
            app_id: opt_view(self.app_id),
        }
    }
}

fn clone_opt(o: &Option<String>) -> (r: Option<String>)
    ensures
        opt_view(r) == opt_view(*o),
{
    match o {
        Some(s) => Some(clone_string(s)),
        None => None,
    }
}

impl DesktopEntry {
    /// A copy with the same contents.
    pub fn duplicate(&self) -> (r: DesktopEntry)
        ensures
            r@ == self@,
    {
        let mut keys: Vec<String> = Vec::new();
        let n = self.exec_keys.len();
        for i in 0..n
            invariant
                n == self.exec_keys@.len(),
                keys@.len() == i,
                forall|j: int| 0 <= j < i ==> keys@[j]@ == self.exec_keys@[j]@,
        {
            keys.push(clone_string(&self.exec_keys[i]));
        }
        assert(seqs_of(keys@) =~= seqs_of(self.exec_keys@));
        DesktopEntry {
            name: clone_string(&self.name),
            icon: clone_opt(&self.icon),
            exec_keys: keys,
            startup_wm_class: clone_opt(&self.startup_wm_class),
            app_id: clone_opt(&self.app_id),
        }
    }
}

// ---------------------------------------------------------------------------
// Exec lines
// ---------------------------------------------------------------------------

/// The freedesktop field codes that an `Exec` line may hold, removed in this
/// order.
pub const FIELD_CODES: [&'static str; 12] = [
    "%f",
    "%F",
    "%u",
    "%U",
    "%i",
    "%c",
    "%k",
    "%v",
    "%m",
    "%M",
    "%t",
    "%T",
];

/// `str::replace(p, "")` read from position `i`: non-overlapping
/// occurrences of `p`, left to right, are dropped.
pub open spec fn remove_from(s: Seq<char>, p: Seq<char>, i: int) -> Seq<char>
    decreases s.len() - i,
{
    if i < 0 || i >= s.len() {
        Seq::empty()
    } else if p.len() > 0 && occurs_at(s, p, i) {
        remove_from(s, p, i + p.len())
    } else {
        seq![s[i]] + remove_from(s, p, i + 1)
    }
}

/// The field codes among the first `k` removed from `s`.
pub open spec fn strip_codes_upto(s: Seq<char>, k: int) -> Seq<char>
    decreases k,
{
    if k <= 0 {
        s
    } else {
        remove_from(strip_codes_upto(s, k - 1), FIELD_CODES@[k - 1]@, 0)
    }
}

/// An `Exec` value with every field code removed.
pub open spec fn strip_codes(s: Seq<char>) -> Seq<char> {
    strip_codes_upto(s, 12)
}

fn remove_all(s: &[char], p: &[char]) -> (r: Vec<char>)
    ensures
        r@ == remove_from(s@, p@, 0),
{
    let mut out: Vec<char> = Vec::new();
    let n = s.len();
    let mut i: usize = 0;
    while i < n
        invariant
            n == s@.len(),
            i <= n,
            out@ + remove_from(s@, p@, i as int) == remove_from(s@, p@, 0),
        decreases n - i,
    {
        if p.len() > 0 && matches_at(s, p, i) {
            i = i + p.len();
        } else {
            let ghost before = out@;
            out.push(s[i]);
            assert(out@ + remove_from(s@, p@, i + 1) =~= before + remove_from(s@, p@, i as int));
            i = i + 1;
        }
    }
    assert(out@ + Seq::<char>::empty() =~= out@);
    out
}

fn strip_field_codes(exec: &[char]) -> (r: Vec<char>)
    ensures
        r@ == strip_codes(exec@),
{
    let mut s = clone_vec(exec);
    for k in 0..12
        invariant
            s@ == strip_codes_upto(exec@, k as int),
    {
        let code = chars_of(FIELD_CODES[k]);
        s = remove_all(s.as_slice(), code.as_slice());
    }
    s
}

fn clone_vec(v: &[char]) -> (r: Vec<char>)
    ensures
        r@ == v@,
{
    let mut r: Vec<char> = Vec::new();
    let n = v.len();
    for i in 0..n
        invariant
            n == v@.len(),
            r@ == v@.take(i as int),
    {
        r.push(v[i]);
        assert(v@.take(i + 1) == v@.take(i as int).push(v@[i as int]));
    }
    assert(v@.take(n as int) == v@);
    r
}

/// The first program token of an `Exec` value, field codes removed.
pub open spec fn first_token(exec: Seq<char>) -> Option<Seq<char>> {
    let ws = words(strip_codes(exec));
    if ws.len() == 0 || trim(ws[0]).len() == 0 {
        None
    } else {
        Some(trim(ws[0]))
    }
}

/// Strips freedesktop field codes and returns the first executable token.
pub fn exec_first_token(exec: &str) -> (r: Option<String>)
    ensures
        opt_view(r) == first_token(exec@),
{
    let e = chars_of(exec);
    let s = strip_field_codes(e.as_slice());
    let ws = split_words(s.as_slice());
    if ws.len() == 0 {
        return None;
    }
    proof {
        assert(seqs_of_vecs(ws@)[0] == ws@[0]@);
    }
    let t = trim_chars(ws[0].as_slice());
    if t.len() == 0 {
        None
    } else {
        Some(string_of(t.as_slice()))
    }
}

/// The match keys one `Exec` token contributes: its lower-cased file name
/// (or the whole token when it has none), the lower-cased token when it is
/// a path, and the application directory of a Flatpak `/app/<name>` path.
/// Options (`-…`) and empty tokens contribute nothing.
pub open spec fn key_additions(token: Seq<char>) -> Seq<Seq<char>> {
    let t = trim(token);
    if t.len() == 0 || t[0] == '-' {
        Seq::empty()
    } else {
        let base = match file_name(t) {
            Some(n) => lowercase(n),
            None => lowercase(t),
        };
        let a = if base.len() > 0 {
            seq![base]
        } else {
            Seq::empty()
        };
        let b = if t.contains('/') {
            a.push(lowercase(t))
        } else {
            a
        };
        match strip_prefix(t, "/app/"@) {
            Some(rest) => {
                let seg = split_char(rest, '/')[0];
                if seg.len() > 0 {
                    b.push(lowercase(seg))
                } else {
                    b
                }
            },
            None => b,
        }
    }
}

fn push_exec_key(keys: &mut Vec<Vec<char>>, token: &[char])
    ensures
        seqs_of_vecs(final(keys)@) == seqs_of_vecs(old(keys)@) + key_additions(token@),
{
    let ghost k0 = seqs_of_vecs(keys@);
    let t = trim_chars(token);
    if t.len() == 0 || t[0] == '-' {
        assert(seqs_of_vecs(keys@) =~= k0 + key_additions(token@));
        return;
    }
    let base = match file_name_chars(t.as_slice()) {
        Some(n) => lower_chars(n.as_slice()),
        None => lower_chars(t.as_slice()),
    };
    let ghost a: Seq<Seq<char>> = if base@.len() > 0 {
        seq![base@]
    } else {
        Seq::empty()
    };
    if base.len() > 0 {
        keys.push(base);
    }
    assert(seqs_of_vecs(keys@) =~= k0 + a);
    let has_slash = contains_char(t.as_slice(), '/');
    let ghost b: Seq<Seq<char>> = if has_slash {
        a.push(lowercase(t@))
    } else {
        a
    };
    if has_slash {
        keys.push(lower_chars(t.as_slice()));
    }
    assert(seqs_of_vecs(keys@) =~= k0 + b);
    let app = chars_of("/app/");
    match strip_prefix_chars(t.as_slice(), app.as_slice()) {
        Some(rest) => {
            let segs = split_on_char(rest.as_slice(), '/');
            proof {
                assert(split_char(rest@, '/').len() >= 1);
                assert(segs@.len() == seqs_of_vecs(segs@).len());
                assert(seqs_of_vecs(segs@)[0] == segs@[0]@);
            }
            if segs[0].len() > 0 {
                keys.push(lower_chars(segs[0].as_slice()));
                assert(seqs_of_vecs(keys@) =~= k0 + b.push(lowercase(segs@[0]@)));
            }
        },
        None => {},
    }
}

/// The position of the first token `--`, if any.
pub open spec fn dash_dash_from(tokens: Seq<Seq<char>>, i: int) -> Option<int>
    decreases tokens.len() - i,
{
    if i < 0 || i >= tokens.len() {
        None
    } else if tokens[i] == "--"@ {
        Some(i)
    } else {
        dash_dash_from(tokens, i + 1)
    }
}

/// The keys of the first `n` tokens, in order.
pub open spec fn keys_of_tokens(tokens: Seq<Seq<char>>, n: int) -> Seq<Seq<char>>
    decreases n,
{
    if n <= 0 {
        Seq::empty()
    } else {
        keys_of_tokens(tokens, n - 1) + key_additions(tokens[n - 1])
    }
}

/// All keys of an `Exec` line before sorting: those of each token, then
/// those of the token after `--` (the target of a Flatpak `bwrap` line).
pub open spec fn exec_raw_keys(exec_line: Seq<char>) -> Seq<Seq<char>> {
    let tokens = words(strip_codes(exec_line));
    let all = keys_of_tokens(tokens, tokens.len() as int);
    match dash_dash_from(tokens, 0) {
        Some(pos) => if pos + 1 < tokens.len() {
            all + key_additions(tokens[pos + 1])
        } else {
            all
        },
        None => all,
    }
}

fn exec_raw_key_list(exec_line: &[char]) -> (r: Vec<Vec<char>>)
    ensures
        seqs_of_vecs(r@) == exec_raw_keys(exec_line@),
{
    let cleaned = strip_field_codes(exec_line);
    let tokens = split_words(cleaned.as_slice());
    let ghost ts = seqs_of_vecs(tokens@);
    let mut keys: Vec<Vec<char>> = Vec::new();
    let n = tokens.len();
    for i in 0..n
        invariant
            n == tokens@.len(),
            ts == seqs_of_vecs(tokens@),
            seqs_of_vecs(keys@) == keys_of_tokens(ts, i as int),
    {
        assert(ts[i as int] == tokens@[i as int]@);
        push_exec_key(&mut keys, tokens[i].as_slice());
    }
    let dd = chars_of("--");
    let mut pos: usize = 0;
    while pos < n
        invariant
            n == tokens@.len(),
            ts == seqs_of_vecs(tokens@),
            ts == words(strip_codes(exec_line@)),
            seqs_of_vecs(keys@) == keys_of_tokens(ts, n as int),
            dd@ == "--"@,
            pos <= n,
            dash_dash_from(ts, 0) == dash_dash_from(ts, pos as int),
        decreases n - pos,
    {
        assert(ts[pos as int] == tokens@[pos as int]@);
        if is_lit(tokens[pos].as_slice(), "--") {
            if pos + 1 < n {
                assert(ts[pos + 1] == tokens@[pos + 1]@);
                push_exec_key(&mut keys, tokens[pos + 1].as_slice());
            }
            return keys;
        }
        pos += 1;
    }
    keys
}

/// Match keys of an `Exec` line, sorted and without duplicates, including
/// Flatpak `bwrap … -- /app/<name>` targets.
pub fn exec_match_keys(exec_line: &str) -> (r: Vec<String>)
    ensures
        sorted_set_of(seqs_of(r@), exec_raw_keys(exec_line@)),
{
    let e = chars_of(exec_line);
    let raw = exec_raw_key_list(e.as_slice());
    let sorted = sorted_dedup(raw);
    strings_of(&sorted)
}

/// The id of the first `--app-id=<id>` token from position `i` whose id
/// is not blank.
pub open spec fn app_id_from(tokens: Seq<Seq<char>>, i: int) -> Option<Seq<char>>
    decreases tokens.len() - i,
{
    if i < 0 || i >= tokens.len() {
        None
    } else {
        match strip_prefix(tokens[i], "--app-id="@) {
            Some(id) => if trim(id).len() > 0 {
                Some(trim(id))
            } else {
                app_id_from(tokens, i + 1)
            },
            None => app_id_from(tokens, i + 1),
        }
    }
}

pub open spec fn app_id_of(cmd: Seq<char>) -> Option<Seq<char>> {
    app_id_from(words(cmd), 0)
}

fn extract_app_id(exec: &[char]) -> (r: Option<Vec<char>>)
    ensures
        match r {
            Some(x) => app_id_of(exec@) == Some(x@),
            None => app_id_of(exec@) is None,
        },
{
    let tokens = split_words(exec);
    let ghost ts = seqs_of_vecs(tokens@);
    let pre = chars_of("--app-id=");
    let n = tokens.len();
    let mut i: usize = 0;
    while i < n
        invariant
            n == tokens@.len(),
            ts == seqs_of_vecs(tokens@),
            ts == words(exec@),
            pre@ == "--app-id="@,
            i <= n,
            app_id_from(ts, 0) == app_id_from(ts, i as int),
        decreases n - i,
    {
        assert(ts[i as int] == tokens@[i as int]@);
        match strip_prefix_chars(tokens[i].as_slice(), pre.as_slice()) {
            Some(id) => {
                let t = trim_chars(id.as_slice());
                if t.len() > 0 {
                    return Some(t);
                }
            },
            None => {},
        }
        i += 1;
    }
    None
}

/// The index key of a web app id.
pub open spec fn app_id_key(id: Seq<char>) -> Seq<char> {
    "app-id:"@ + id
}

fn app_id_key_of(id: &[char]) -> (r: Vec<char>)
    ensures
        r@ == app_id_key(id@),
{
    let mut r = chars_of("app-id:");
    let n = id.len();
    let ghost p = r@;
    for i in 0..n
        invariant
            n == id@.len(),
            r@ == p + id@.take(i as int),
    {
        r.push(id[i]);
        assert(p + id@.take(i + 1) =~= (p + id@.take(i as int)).push(id@[i as int]));
    }
    assert(id@.take(n as int) =~= id@);
    r
}

// ---------------------------------------------------------------------------
// `.desktop` files
// ---------------------------------------------------------------------------

/// What the parser has read so far: whether it is inside the
/// `[Desktop Entry]` group, and the last value of each key it knows.
pub struct ParseState {
    pub in_entry: bool,
    pub name: Option<Seq<char>>,
    pub icon: Option<Seq<char>>,
    pub exec_line: Option<Seq<char>>,
    pub try_exec: Option<Seq<char>>,
    pub wm: Option<Seq<char>>,
    pub typ: Option<Seq<char>>,
    pub hidden: bool,
    pub no_display: bool,
}

pub open spec fn initial_state() -> ParseState {
    ParseState {
        in_entry: false,
        name: None,
        icon: None,
        exec_line: None,
        try_exec: None,
        wm: None,
        typ: None,
        hidden: false,
        no_display: false,
    }
}

/// The first position of `c` from `i` on.
pub open spec fn index_of_char(s: Seq<char>, c: char, i: int) -> Option<int>
    decreases s.len() - i,
{
    if i < 0 || i >= s.len() {
        None
    } else if s[i] == c {
        Some(i)
    } else {
        index_of_char(s, c, i + 1)
    }
}

/// One line: a group header switches groups; inside `[Desktop Entry]` a
/// `key=value` line (split at the first `=`, both sides trimmed) sets a
/// known key; anything else is skipped.
pub open spec fn parse_step(st: ParseState, raw: Seq<char>) -> ParseState {
    let line = trim(raw);
    if line.len() > 0 && line[0] == '[' {
        ParseState { in_entry: eq_ignore_ascii_case(line, "[Desktop Entry]"@), ..st }
    } else if !st.in_entry {
        st
    } else {
        match index_of_char(line, '=', 0) {
            None => st,
            Some(p) => {
                let key = trim(line.subrange(0, p));
                let value = trim(line.subrange(p + 1, line.len() as int));
                if key == "Name"@ {
                    ParseState { name: Some(value), ..st }
                } else if key == "Icon"@ {
                    ParseState { icon: Some(value), ..st }
                } else if key == "Exec"@ {
                    ParseState { exec_line: Some(value), ..st }
                } else if key == "TryExec"@ {
                    ParseState { try_exec: Some(value), ..st }
                } else if key == "StartupWMClass"@ {
                    ParseState { wm: Some(value), ..st }
                } else if key == "Type"@ {
                    ParseState { typ: Some(value), ..st }
                } else if key == "Hidden"@ {
                    ParseState { hidden: eq_ignore_ascii_case(value, "true"@), ..st }
                } else if key == "NoDisplay"@ {
                    ParseState { no_display: eq_ignore_ascii_case(value, "true"@), ..st }
                } else {
                    st
                }
            },
        }
    }
}

/// Only a line whose key is exactly `Name` sets the name: inside
/// `[Desktop Entry]`, a `Name=value` line sets it to the trimmed value;
/// every other line, a localized `Name[xx]=` line among them, leaves it as
/// it was.
pub proof fn law_only_exact_name_key_sets_name(st: ParseState, raw: Seq<char>)
    ensures
        ({
            let line = trim(raw);
            let sets = st.in_entry && !(line.len() > 0 && line[0] == '[') && (index_of_char(line, '=', 0) matches Some(
                p,
            ) && trim(line.subrange(0, p)) == "Name"@);
            &&& sets ==> parse_step(st, raw).name == Some(
                trim(line.subrange(index_of_char(line, '=', 0)->0 + 1, line.len() as int)),
            )
            &&& !sets ==> parse_step(st, raw).name == st.name
        }),
{
    reveal_strlit("Name");
    reveal_strlit("Icon");
    reveal_strlit("Exec");
    reveal_strlit("TryExec");
    reveal_strlit("StartupWMClass");
    reveal_strlit("Type");
    reveal_strlit("Hidden");
    reveal_strlit("NoDisplay");
}

/// Appending a line whose key is not exactly `Name` (a localized
/// `Name[xx]=` line, another key, a group header, a comment) never changes
/// the name read so far.
pub proof fn law_non_name_line_keeps_file_name(ls: Seq<Seq<char>>, extra: Seq<char>)
    ensures
        ({
            let st = parse_fold(ls, ls.len() as int);
            let line = trim(extra);
            !(index_of_char(line, '=', 0) matches Some(p) && trim(line.subrange(0, p)) == "Name"@) ==> parse_fold(
                ls.push(extra),
                ls.len() + 1int,
            ).name == st.name
        }),
{
    lemma_parse_fold_prefix(ls.push(extra), ls, ls.len() as int);
    law_only_exact_name_key_sets_name(parse_fold(ls, ls.len() as int), extra);
}

/// The value a line gives to key `k`: inside `[Desktop Entry]`, a line
/// that is not a group header, split at its first `=`, whose trimmed key is
/// exactly `k`; the trimmed value.
pub open spec fn exact_key_value(st: ParseState, raw: Seq<char>, k: Seq<char>) -> Option<Seq<char>> {
    let line = trim(raw);
    if st.in_entry && !(line.len() > 0 && line[0] == '[') {
        match index_of_char(line, '=', 0) {
            Some(p) => if trim(line.subrange(0, p)) == k {
                Some(trim(line.subrange(p + 1, line.len() as int)))
            } else {
                None
            },
            None => None,
        }
    } else {
        None
    }
}

/// Each known key is set only by a line whose key is exactly it (so a
/// localized `Icon[de]=` or `Name[pt]=` line, or `ExecStart=`, changes
/// nothing), and that line sets it to its trimmed value; `Hidden` and
/// `NoDisplay` are on when that value is `true` in any case. Only a group
/// header changes the group, and the group is `[Desktop Entry]` exactly
/// when the header says so, ignoring ASCII case.
pub proof fn law_each_key_sets_only_its_field(st: ParseState, raw: Seq<char>)
    ensures
        parse_step(st, raw).name == match exact_key_value(st, raw, "Name"@) {
            Some(v) => Some(v),
            None => st.name,
        },
        parse_step(st, raw).icon == match exact_key_value(st, raw, "Icon"@) {
            Some(v) => Some(v),
            None => st.icon,
        },
        parse_step(st, raw).exec_line == match exact_key_value(st, raw, "Exec"@) {
            Some(v) => Some(v),
            None => st.exec_line,
        },
        parse_step(st, raw).try_exec == match exact_key_value(st, raw, "TryExec"@) {
            Some(v) => Some(v),
            None => st.try_exec,
        },
        parse_step(st, raw).wm == match exact_key_value(st, raw, "StartupWMClass"@) {
            Some(v) => Some(v),
            None => st.wm,
        },
        parse_step(st, raw).typ == match exact_key_value(st, raw, "Type"@) {
            Some(v) => Some(v),
            None => st.typ,
        },
        parse_step(st, raw).hidden == match exact_key_value(st, raw, "Hidden"@) {
            Some(v) => eq_ignore_ascii_case(v, "true"@),
            None => st.hidden,
        },
        parse_step(st, raw).no_display == match exact_key_value(st, raw, "NoDisplay"@) {
            Some(v) => eq_ignore_ascii_case(v, "true"@),
            None => st.no_display,
        },
        parse_step(st, raw).in_entry == if trim(raw).len() > 0 && trim(raw)[0] == '[' {
            eq_ignore_ascii_case(trim(raw), "[Desktop Entry]"@)
        } else {
            st.in_entry
        },
{
    reveal_strlit("Name");
    reveal_strlit("Icon");
    reveal_strlit("Exec");
    reveal_strlit("TryExec");
    reveal_strlit("StartupWMClass");
    reveal_strlit("Type");
    reveal_strlit("Hidden");
    reveal_strlit("NoDisplay");
    assert("Name"@[0] == 'N' && "Icon"@[0] == 'I' && "Exec"@[0] == 'E' && "Type"@[0] == 'T');
    assert("Name"@ != "Icon"@ && "Name"@ != "Exec"@ && "Name"@ != "Type"@);
    assert("Icon"@ != "Exec"@ && "Icon"@ != "Type"@ && "Exec"@ != "Type"@);
    assert("Name"@.len() == 4 && "Icon"@.len() == 4 && "Exec"@.len() == 4 && "Type"@.len() == 4);
    assert("TryExec"@.len() == 7 && "StartupWMClass"@.len() == 14 && "Hidden"@.len() == 6
        && "NoDisplay"@.len() == 9);
    let line = trim(raw);
    if st.in_entry && !(line.len() > 0 && line[0] == '[') {
        if let Some(p) = index_of_char(line, '=', 0) {
            let key = trim(line.subrange(0, p));
            if key == "Name"@ {
            } else if key == "Icon"@ {
            } else if key == "Exec"@ {
            } else if key == "TryExec"@ {
            } else if key == "StartupWMClass"@ {
            } else if key == "Type"@ {
            } else if key == "Hidden"@ {
            } else if key == "NoDisplay"@ {
            } else {
            }
        }
    }
}

proof fn lemma_parse_fold_prefix(a: Seq<Seq<char>>, b: Seq<Seq<char>>, n: int)
    requires
        0 <= n <= b.len(),
        n <= a.len(),
        forall|k: int| 0 <= k < n ==> a[k] == b[k],
    ensures
        parse_fold(a, n) == parse_fold(b, n),
    decreases n,
{
    if n > 0 {
        lemma_parse_fold_prefix(a, b, n - 1);
    }
}

pub open spec fn parse_fold(ls: Seq<Seq<char>>, n: int) -> ParseState
    decreases n,
{
    if n <= 0 {
        initial_state()
    } else {
        parse_step(parse_fold(ls, n - 1), ls[n - 1])
    }
}

/// The state after every line of a file.
pub open spec fn content_state(content: Seq<char>) -> ParseState {
    parse_fold(lines(content), lines(content).len() as int)
}

/// The keys before sorting: those of `Exec`, then those of the first
/// token of `TryExec`.
pub open spec fn all_keys(st: ParseState) -> Seq<Seq<char>> {
    let from_exec = match st.exec_line {
        Some(e) => exec_raw_keys(e),
        None => Seq::empty(),
    };
    let from_try = match st.try_exec {
        Some(te) => match first_token(te) {
            Some(t) => key_additions(t),
            None => Seq::empty(),
        },
        None => Seq::empty(),
    };
    from_exec + from_try
}

pub open spec fn state_app_id(st: ParseState) -> Option<Seq<char>> {
    match st.exec_line {
        Some(e) => app_id_of(e),
        None => None,
    }
}

/// A file gives no entry when it is hidden, not displayed, not of type
/// `Application`, or names no executable.
pub open spec fn parse_rejects(content: Seq<char>) -> bool {
    let st = content_state(content);
    st.hidden || st.no_display || st.typ != Some("Application"@) || all_keys(st).len() == 0
}

/// The entry a file gives: icon, `StartupWMClass` and web app id as read;
/// a web app has the one key of its id, other entries their sorted keys;
/// the name defaults to the first key.
pub open spec fn parsed_as(content: Seq<char>, e: EntryView) -> bool {
    let st = content_state(content);
    &&& !parse_rejects(content)
    &&& e.icon == st.icon
    &&& e.startup_wm_class == st.wm
    &&& e.app_id == state_app_id(st)
    &&& match e.app_id {
        Some(id) => e.exec_keys == seq![app_id_key(id)],
        None => sorted_set_of(e.exec_keys, all_keys(st)),
    }
    &&& e.exec_keys.len() > 0
    &&& e.name == match st.name {
        Some(n) => n,
        None => e.exec_keys[0],
    }
}

/// A file gives an entry exactly when it is not hidden, is displayed, is
/// of type `Application` and names an executable (by `Exec` or `TryExec`);
/// the entry's name is the value of its `Name` line, else one of its
/// executable keys.
pub proof fn law_parse_accepts_and_names(content: Seq<char>, e: EntryView)
    ensures
        ({
            let st = content_state(content);
            &&& parse_rejects(content) <==> (st.hidden || st.no_display || st.typ != Some("Application"@)
                || all_keys(st).len() == 0)
            &&& parsed_as(content, e) ==> (st.name matches Some(n) ==> e.name == n) && (st.name is None
                ==> e.exec_keys.contains(e.name)) && e.exec_keys.len() > 0
        }),
{
    if parsed_as(content, e) && content_state(content).name is None {
        assert(e.exec_keys[0] == e.name);
    }
}

pub open spec fn ov(o: Option<Vec<char>>) -> Option<Seq<char>> {
    match o {
        Some(v) => Some(v@),
        None => None,
    }
}

fn opt_string(o: Option<Vec<char>>) -> (r: Option<String>)
    ensures
        opt_view(r) == ov(o),
{
    match o {
        Some(v) => Some(string_of(v.as_slice())),
        None => None,
    }
}

proof fn lemma_concat_contains(a: Seq<Seq<char>>, b: Seq<Seq<char>>, x: Seq<char>)
    ensures
        (a + b).contains(x) <==> (a.contains(x) || b.contains(x)),
{
    if (a + b).contains(x) {
        let k = choose|k: int| 0 <= k < (a + b).len() && #[trigger] (a + b)[k] == x;
        if k < a.len() {
            assert(a[k] == x);
        } else {
            assert(b[k - a.len()] == x);
        }
    }
    if a.contains(x) {
        let k = choose|k: int| 0 <= k < a.len() && #[trigger] a[k] == x;
        assert((a + b)[k] == x);
    }
    if b.contains(x) {
        let k = choose|k: int| 0 <= k < b.len() && #[trigger] b[k] == x;
        assert((a + b)[k + a.len()] == x);
    }
}

fn find_char(s: &[char], c: char) -> (r: Option<usize>)
    ensures
        match r {
            Some(p) => index_of_char(s@, c, 0) == Some(p as int) && p < s@.len(),
            None => index_of_char(s@, c, 0) is None,
        },
{
    let mut i: usize = 0;
    while i < s.len()
        invariant
            i <= s@.len(),
            index_of_char(s@, c, 0) == index_of_char(s@, c, i as int),
        decreases s@.len() - i,
    {
        if s[i] == c {
            return Some(i);
        }
        i += 1;
    }
    None
}

/// Parses a `.desktop` file into an application entry.
pub fn parse_desktop_file(content: &str) -> (r: Option<DesktopEntry>)
    ensures
        match r {
            Some(e) => parsed_as(content@, e@),
            None => parse_rejects(content@),
        },
{
    let cv = chars_of(content);
    let ls = lines_of(cv.as_slice());
    let ghost lsv = seqs_of_vecs(ls@);
    let header = chars_of("[Desktop Entry]");
    let yes = chars_of("true");
    let mut in_entry = false;
    let mut name: Option<Vec<char>> = None;
    let mut icon: Option<Vec<char>> = None;
    let mut exec_raw: Option<Vec<char>> = None;
    let mut try_exec: Option<Vec<char>> = None;
    let mut wm: Option<Vec<char>> = None;
    let mut entry_type: Option<Vec<char>> = None;
    let mut hidden = false;
    let mut no_display = false;
    let n = ls.len();
    for i in 0..n
        invariant
            n == ls@.len(),
            lsv == seqs_of_vecs(ls@),
            header@ == "[Desktop Entry]"@,
            yes@ == "true"@,
            parse_fold(lsv, i as int) == (ParseState {
                in_entry,
                name: ov(name),
                icon: ov(icon),
                exec_line: ov(exec_raw),
                try_exec: ov(try_exec),
                wm: ov(wm),
                typ: ov(entry_type),
                hidden,
                no_display,
            }),
    {
        assert(lsv[i as int] == ls@[i as int]@);
        let line = trim_chars(ls[i].as_slice());
        if line.len() > 0 && line[0] == '[' {
            in_entry = eq_ignore_ascii_case_chars(line.as_slice(), header.as_slice());
        } else if in_entry {
            match find_char(line.as_slice(), '=') {
                None => {},
                Some(p) => {
                    let key = trim_chars(subrange_of(line.as_slice(), 0, p).as_slice());
                    let value = trim_chars(
                        subrange_of(line.as_slice(), p + 1, line.len()).as_slice(),
                    );
                    if is_lit(key.as_slice(), "Name") {
                        name = Some(value);
                    } else if is_lit(key.as_slice(), "Icon") {
                        icon = Some(value);
                    } else if is_lit(key.as_slice(), "Exec") {
                        exec_raw = Some(value);
                    } else if is_lit(key.as_slice(), "TryExec") {
                        try_exec = Some(value);
                    } else if is_lit(key.as_slice(), "StartupWMClass") {
                        wm = Some(value);
                    } else if is_lit(key.as_slice(), "Type") {
                        entry_type = Some(value);
                    } else if is_lit(key.as_slice(), "Hidden") {
                        hidden = eq_ignore_ascii_case_chars(value.as_slice(), yes.as_slice());
                    } else if is_lit(key.as_slice(), "NoDisplay") {
                        no_display = eq_ignore_ascii_case_chars(value.as_slice(), yes.as_slice());
                    }
                },
            }
        }
    }
    let ghost st = content_state(content@);
    assert(st == parse_fold(lsv, n as int));
    if hidden || no_display {
        return None;
    }
    let is_app = match &entry_type {
        Some(t) => is_lit(t.as_slice(), "Application"),
        None => false,
    };
    if !is_app {
        return None;
    }
    let mut keys: Vec<Vec<char>> = Vec::new();
    let ghost from_exec: Seq<Seq<char>> = Seq::empty();
    match &exec_raw {
        Some(e) => {
            let raw = exec_raw_key_list(e.as_slice());
            let sorted = sorted_dedup(raw);
            proof {
                from_exec = exec_raw_keys(e@);
                if from_exec.len() > 0 {
                    assert(from_exec.contains(from_exec[0]));
                    assert(seqs_of_vecs(sorted@).contains(from_exec[0]));
                }
            }
            keys = sorted;
        },
        None => {},
    }
    let ghost k1 = seqs_of_vecs(keys@);
    match &try_exec {
        Some(te) => {
            let tes = string_of(te.as_slice());
            match exec_first_token(tes.as_str()) {
                Some(tok) => {
                    let tv = chars_of(tok.as_str());
                    push_exec_key(&mut keys, tv.as_slice());
                },
                None => {},
            }
        },
        None => {},
    }
    let ghost from_try = seqs_of_vecs(keys@).subrange(k1.len() as int, seqs_of_vecs(keys@).len() as int);
    proof {
        assert(seqs_of_vecs(keys@) =~= k1 + from_try);
        assert(all_keys(st) == from_exec + from_try);
        assert forall|x: Seq<char>| #[trigger] seqs_of_vecs(keys@).contains(x) <==> all_keys(st).contains(x) by {
            lemma_concat_contains(k1, from_try, x);
            lemma_concat_contains(from_exec, from_try, x);
        }
        if all_keys(st).len() > 0 {
            assert(all_keys(st).contains(all_keys(st)[0]));
        }
        if keys@.len() > 0 {
            assert(seqs_of_vecs(keys@).contains(seqs_of_vecs(keys@)[0]));
        }
    }
    if keys.len() == 0 {
        return None;
    }
    let app_id = match &exec_raw {
        Some(e) => extract_app_id(e.as_slice()),
        None => None,
    };
    let final_keys: Vec<Vec<char>> = match &app_id {
        Some(id) => {
            let mut v: Vec<Vec<char>> = Vec::new();
            v.push(app_id_key_of(id.as_slice()));
            assert(seqs_of_vecs(v@) =~= seq![app_id_key(id@)]);
            v
        },
        None => sorted_dedup(keys),
    };
    proof {
        if final_keys@.len() == 0 {
            assert(all_keys(st).contains(all_keys(st)[0]));
            assert(seqs_of_vecs(final_keys@).contains(all_keys(st)[0]));
        }
    }
    let entry_name = match name {
        Some(nm) => string_of(nm.as_slice()),
        None => string_of(final_keys[0].as_slice()),
    };
    proof {
        assert(seqs_of_vecs(final_keys@)[0] == final_keys@[0]@);
    }
    Some(DesktopEntry {
        name: entry_name,
        icon: opt_string(icon),
        exec_keys: strings_of(&final_keys),
        startup_wm_class: opt_string(wm),
        app_id: opt_string(app_id),
    })
}

fn subrange_of(v: &[char], from: usize, to: usize) -> (r: Vec<char>)
    requires
        from <= to <= v@.len(),
    ensures
        r@ == v@.subrange(from as int, to as int),
{
    let mut r: Vec<char> = Vec::new();
    let mut i = from;
    while i < to
        invariant
            from <= i <= to <= v@.len(),
            r@ == v@.subrange(from as int, i as int),
        decreases to - i,
    {
        r.push(v[i]);
        assert(v@.subrange(from as int, i + 1) =~= v@.subrange(from as int, i as int).push(v@[i as int]));
        i += 1;
    }
    r
}

// ---------------------------------------------------------------------------
// The index
// ---------------------------------------------------------------------------

/// A table of the index: keys with their entries, in registration order.
pub open spec fn table_view(v: Seq<(String, DesktopEntry)>) -> Seq<(Seq<char>, EntryView)> {
    v.map_values(|p: (String, DesktopEntry)| (p.0@, p.1@))
}

/// The entry of the first row from position `i` on that satisfies `pred`.
pub open spec fn first_from(
    m: Seq<(Seq<char>, EntryView)>,
    pred: spec_fn((Seq<char>, EntryView)) -> bool,
    i: int,
) -> Option<EntryView>
    decreases m.len() - i,
{
    if i < 0 || i >= m.len() {
        None
    } else if pred(m[i]) {
        Some(m[i].1)
    } else {
        first_from(m, pred, i + 1)
    }
}

pub open spec fn key_is(k: Seq<char>) -> spec_fn((Seq<char>, EntryView)) -> bool {
    |p: (Seq<char>, EntryView)| p.0 == k
}

/// The entry registered under `k`.
pub open spec fn lookup(m: Seq<(Seq<char>, EntryView)>, k: Seq<char>) -> Option<EntryView> {
    first_from(m, key_is(k), 0)
}

/// `k` with `e`, unless `k` already has an entry.
pub open spec fn insert_absent(m: Seq<(Seq<char>, EntryView)>, k: Seq<char>, e: EntryView) -> Seq<
    (Seq<char>, EntryView),
> {
    if lookup(m, k) is Some {
        m
    } else {
        m.push((k, e))
    }
}

pub open spec fn insert_keys(
    m: Seq<(Seq<char>, EntryView)>,
    keys: Seq<Seq<char>>,
    e: EntryView,
    n: int,
) -> Seq<(Seq<char>, EntryView)>
    decreases n,
{
    if n <= 0 {
        m
    } else {
        insert_absent(insert_keys(m, keys, e, n - 1), keys[n - 1], e)
    }
}

/// The key table after registering `e`.
pub open spec fn registered_keys(m: Seq<(Seq<char>, EntryView)>, e: EntryView) -> Seq<
    (Seq<char>, EntryView),
> {
    insert_keys(m, e.exec_keys, e, e.exec_keys.len() as int)
}

/// The `StartupWMClass` table after registering `e`: keyed by the
/// lower-cased class.
pub open spec fn registered_wm(m: Seq<(Seq<char>, EntryView)>, e: EntryView) -> Seq<
    (Seq<char>, EntryView),
> {
    match e.startup_wm_class {
        Some(w) => insert_absent(m, lowercase(w), e),
        None => m,
    }
}

proof fn lemma_first_from_push(
    m: Seq<(Seq<char>, EntryView)>,
    p: (Seq<char>, EntryView),
    pred: spec_fn((Seq<char>, EntryView)) -> bool,
    i: int,
)
    requires
        0 <= i <= m.len(),
    ensures
        first_from(m.push(p), pred, i) == match first_from(m, pred, i) {
            Some(x) => Some(x),
            None => if pred(p) {
                Some(p.1)
            } else {
                None
            },
        },
    decreases m.len() - i,
{
    if i < m.len() {
        assert(m.push(p)[i] == m[i]);
        lemma_first_from_push(m, p, pred, i + 1);
    } else {
        assert(m.push(p)[i] == p);
        assert(first_from(m.push(p), pred, i + 1) is None);
        assert(first_from(m, pred, i) is None);
    }
}

/// Looking a key up after one registration step.
proof fn lemma_lookup_insert_absent(
    m: Seq<(Seq<char>, EntryView)>,
    k: Seq<char>,
    e: EntryView,
    q: Seq<char>,
)
    ensures
        lookup(insert_absent(m, k, e), q) == match lookup(m, q) {
            Some(x) => Some(x),
            None => if q == k {
                Some(e)
            } else {
                None
            },
        },
{
    if lookup(m, k) is None {
        lemma_first_from_push(m, (k, e), key_is(q), 0);
    } else if q == k {
    }
}

/// What registering an entry does to the key table: a key that already
/// had an entry keeps it (the first registration wins); each key of the
/// new entry that had none now finds the new entry; every other key still
/// finds nothing.
pub proof fn lemma_register_first_wins(m: Seq<(Seq<char>, EntryView)>, e: EntryView, q: Seq<char>)
    ensures
        lookup(registered_keys(m, e), q) == match lookup(m, q) {
            Some(x) => Some(x),
            None => if e.exec_keys.contains(q) {
                Some(e)
            } else {
                None
            },
        },
{
    lemma_insert_keys(m, e.exec_keys, e, e.exec_keys.len() as int, q);
    assert(e.exec_keys.take(e.exec_keys.len() as int) =~= e.exec_keys);
}

proof fn lemma_insert_keys(
    m: Seq<(Seq<char>, EntryView)>,
    keys: Seq<Seq<char>>,
    e: EntryView,
    n: int,
    q: Seq<char>,
)
    requires
        0 <= n <= keys.len(),
    ensures
        lookup(insert_keys(m, keys, e, n), q) == match lookup(m, q) {
            Some(x) => Some(x),
            None => if keys.take(n).contains(q) {
                Some(e)
            } else {
                None
            },
        },
    decreases n,
{
    if n > 0 {
        lemma_insert_keys(m, keys, e, n - 1, q);
        lemma_lookup_insert_absent(insert_keys(m, keys, e, n - 1), keys[n - 1], e, q);
        assert(keys.take(n) =~= keys.take(n - 1).push(keys[n - 1]));
        if keys.take(n).contains(q) && !keys.take(n - 1).contains(q) {
            let k = choose|k: int| 0 <= k < n && #[trigger] keys.take(n)[k] == q;
            if k < n - 1 {
                assert(keys.take(n - 1)[k] == q);
            }
        }
        if keys.take(n - 1).contains(q) {
            let k = choose|k: int| 0 <= k < n - 1 && #[trigger] keys.take(n - 1)[k] == q;
            assert(keys.take(n)[k] == q);
        }
        if q == keys[n - 1] {
            assert(keys.take(n)[n - 1] == q);
        }
    }
}

/// Installed applications, found by executable key, by `StartupWMClass`
/// (lower-cased) and by name. Each key keeps the entry registered first.
pub struct DesktopIndex {
    by_key: Vec<(String, DesktopEntry)>,
    by_wm_class: Vec<(String, DesktopEntry)>,
}

fn find_key(t: &Vec<(String, DesktopEntry)>, k: &[char]) -> (r: Option<usize>)
    ensures
        match r {
            Some(j) => j < t@.len() && lookup(table_view(t@), k@) == Some(t@[j as int].1@),
            None => lookup(table_view(t@), k@) is None,
        },
{
    let ghost m = table_view(t@);
    let mut i: usize = 0;
    while i < t.len()
        invariant
            m == table_view(t@),
            i <= t@.len(),
            lookup(m, k@) == first_from(m, key_is(k@), i as int),
        decreases t@.len() - i,
    {
        let kv = chars_of(t[i].0.as_str());
        assert(m[i as int] == (t@[i as int].0@, t@[i as int].1@));
        if chars_eq_slices(kv.as_slice(), k) {
            return Some(i);
        }
        i += 1;
    }
    None
}

fn chars_eq_slices(a: &[char], b: &[char]) -> (r: bool)
    ensures
        r == (a@ == b@),
{
    crate::text::chars_eq(a, b)
}

fn insert_absent_row(t: &mut Vec<(String, DesktopEntry)>, k: &[char], e: &DesktopEntry)
    ensures
        table_view(final(t)@) == insert_absent(table_view(old(t)@), k@, e@),
{
    match find_key(t, k) {
        Some(_) => {},
        None => {
            let ghost before = table_view(t@);
            t.push((string_of(k), e.duplicate()));
            assert(table_view(t@) =~= before.push((k@, e@)));
        },
    }
}

impl DesktopIndex {
    /// The key table: executable keys (and web app id keys) with entries.
    pub closed spec fn keys(&self) -> Seq<(Seq<char>, EntryView)> {
        table_view(self.by_key@)
    }

    /// The lower-cased `StartupWMClass` table.
    pub closed spec fn wm_classes(&self) -> Seq<(Seq<char>, EntryView)> {
        table_view(self.by_wm_class@)
    }

    /// An empty index.
    pub fn new() -> (r: DesktopIndex)
        ensures
            r.keys() == Seq::<(Seq<char>, EntryView)>::empty(),
            r.wm_classes() == Seq::<(Seq<char>, EntryView)>::empty(),
    {
        let r = DesktopIndex { by_key: Vec::new(), by_wm_class: Vec::new() };
        assert(r.keys() =~= Seq::<(Seq<char>, EntryView)>::empty());
        assert(r.wm_classes() =~= Seq::<(Seq<char>, EntryView)>::empty());
        r
    }

    /// Registers an entry under each of its keys and its lower-cased
    /// `StartupWMClass`, where these have no entry yet.
    pub fn register_entry(&mut self, parsed: DesktopEntry)
        ensures
            final(self).keys() == registered_keys(old(self).keys(), parsed@),
            final(self).wm_classes() == registered_wm(old(self).wm_classes(), parsed@),
    {
        let ghost e = parsed@;
        let ghost m0 = self.keys();
        let n = parsed.exec_keys.len();
        for i in 0..n
            invariant
                n == parsed.exec_keys@.len(),
                e == parsed@,
                table_view(self.by_key@) == insert_keys(m0, e.exec_keys, e, i as int),
                self.wm_classes() == old(self).wm_classes(),
        {
            let kv = chars_of(parsed.exec_keys[i].as_str());
            assert(e.exec_keys[i as int] == parsed.exec_keys@[i as int]@);
            insert_absent_row(&mut self.by_key, kv.as_slice(), &parsed);
        }
        match &parsed.startup_wm_class {
            Some(wm) => {
                let lower = lower_chars(chars_of(wm.as_str()).as_slice());
                insert_absent_row(&mut self.by_wm_class, lower.as_slice(), &parsed);
            },
            None => {},
        }
    }

    /// An index of the given entries, registered in order.
    pub fn from_entries(entries: Vec<(String, DesktopEntry)>) -> (r: DesktopIndex)
        ensures
            r.keys() == register_all_keys(Seq::empty(), entries_view(entries@), entries@.len() as int),
            r.wm_classes() == register_all_wm(Seq::empty(), entries_view(entries@), entries@.len() as int),
    {
        let mut index = DesktopIndex::new();
        let n = entries.len();
        for i in 0..n
            invariant
                n == entries@.len(),
                index.keys() == register_all_keys(Seq::empty(), entries_view(entries@), i as int),
                index.wm_classes() == register_all_wm(Seq::empty(), entries_view(entries@), i as int),
        {
            assert(entries_view(entries@)[i as int] == entries@[i as int].1@);
            index.register_entry(entries[i].1.duplicate());
        }
        index
    }

    /// The index of the listed files, in the order given: files whose name
    /// has the `desktop` extension are parsed and registered (see
    /// `add_desktop_file`); others are passed over.
    pub fn load(files: &Vec<(String, String)>) -> (r: DesktopIndex)
        ensures
            loaded(files_view(files@), r.keys(), r.wm_classes()),
    {
        let mut index = DesktopIndex::new();
        let ghost fv = files_view(files@);
        let ghost mut ks = seq![index.keys()];
        let ghost mut ws = seq![index.wm_classes()];
        let n = files.len();
        for i in 0..n
            invariant
                n == files@.len(),
                fv == files_view(files@),
                load_trace(fv.take(i as int), ks, ws),
                ks.last() == index.keys(),
                ws.last() == index.wm_classes(),
        {
            let ghost pk = index.keys();
            let ghost pw = index.wm_classes();
            let (path, content) = (&files[i].0, &files[i].1);
            assert(fv[i as int] == (path@, content@));
            if is_desktop_file_path(path.as_str()) {
                index.add_desktop_file(content.as_str());
            }
            assert(load_step(path@, content@, pk, pw, index.keys(), index.wm_classes()));
            proof {
                let ghost oks = ks;
                let ghost ows = ws;
                let ghost ft = fv.take(i + 1);
                ks = ks.push(index.keys());
                ws = ws.push(index.wm_classes());
                assert forall|j: int| #![trigger ft[j]] 0 <= j < ft.len() implies load_step(
                    ft[j].0,
                    ft[j].1,
                    ks[j],
                    ws[j],
                    ks[j + 1],
                    ws[j + 1],
                ) by {
                    if j < i {
                        assert(ft[j] == fv.take(i as int)[j]);
                        assert(ks[j] == oks[j] && ks[j + 1] == oks[j + 1]);
                        assert(ws[j] == ows[j] && ws[j + 1] == ows[j + 1]);
                    } else {
                        assert(ft[j] == fv[i as int]);
                    }
                }
                assert(load_trace(ft, ks, ws));
            }
        }
        assert(fv.take(n as int) =~= fv);
        index
    }

    /// Parses one `.desktop` file and registers the entry it gives, if any.
    pub fn add_desktop_file(&mut self, content: &str)
        ensures
            parse_rejects(content@) ==> final(self).keys() == old(self).keys()
                && final(self).wm_classes() == old(self).wm_classes(),
            !parse_rejects(content@) ==> exists|e: EntryView|
                #![trigger parsed_as(content@, e)]
                parsed_as(content@, e) && final(self).keys() == registered_keys(old(self).keys(), e)
                    && final(self).wm_classes() == registered_wm(old(self).wm_classes(), e),
    {
        match parse_desktop_file(content) {
            Some(entry) => {
                let ghost e = entry@;
                self.register_entry(entry);
                assert(parsed_as(content@, e));
            },
            None => {},
        }
    }
}

pub open spec fn entries_view(v: Seq<(String, DesktopEntry)>) -> Seq<EntryView> {
    v.map_values(|p: (String, DesktopEntry)| p.1@)
}

/// The listed files as (path, content) texts.
pub open spec fn files_view(files: Seq<(String, String)>) -> Seq<(Seq<char>, Seq<char>)> {
    files.map_values(|f: (String, String)| (f.0@, f.1@))
}

/// One file's effect on the tables `(pk, pw)`, giving `(k, w)`.
pub open spec fn load_step(
    path: Seq<char>,
    content: Seq<char>,
    pk: Seq<(Seq<char>, EntryView)>,
    pw: Seq<(Seq<char>, EntryView)>,
    k: Seq<(Seq<char>, EntryView)>,
    w: Seq<(Seq<char>, EntryView)>,
) -> bool {
    if extension(path) != Some("desktop"@) || parse_rejects(content) {
        k == pk && w == pw
    } else {
        exists|e: EntryView|
            #![trigger parsed_as(content, e)]
            parsed_as(content, e) && k == registered_keys(pk, e) && w == registered_wm(pw, e)
    }
}

/// `ks`, `ws` list the tables before the first file and after each one.
pub open spec fn load_trace(
    files: Seq<(Seq<char>, Seq<char>)>,
    ks: Seq<Seq<(Seq<char>, EntryView)>>,
    ws: Seq<Seq<(Seq<char>, EntryView)>>,
) -> bool {
    &&& ks.len() == files.len() + 1
    &&& ws.len() == files.len() + 1
    &&& ks[0] == Seq::<(Seq<char>, EntryView)>::empty()
    &&& ws[0] == Seq::<(Seq<char>, EntryView)>::empty()
    &&& forall|j: int|
        #![trigger files[j]]
        0 <= j < files.len() ==> load_step(files[j].0, files[j].1, ks[j], ws[j], ks[j + 1], ws[j + 1])
}

/// `(k, w)` are the tables after loading `files` into an empty index.
pub open spec fn loaded(
    files: Seq<(Seq<char>, Seq<char>)>,
    k: Seq<(Seq<char>, EntryView)>,
    w: Seq<(Seq<char>, EntryView)>,
) -> bool {
    exists|ks: Seq<Seq<(Seq<char>, EntryView)>>, ws: Seq<Seq<(Seq<char>, EntryView)>>|
        #[trigger] load_trace(files, ks, ws) && ks.last() == k && ws.last() == w
}

pub open spec fn register_all_keys(
    m: Seq<(Seq<char>, EntryView)>,
    es: Seq<EntryView>,
    n: int,
) -> Seq<(Seq<char>, EntryView)>
    decreases n,
{
    if n <= 0 {
        m
    } else {
        registered_keys(register_all_keys(m, es, n - 1), es[n - 1])
    }
}

pub open spec fn register_all_wm(
    m: Seq<(Seq<char>, EntryView)>,
    es: Seq<EntryView>,
    n: int,
) -> Seq<(Seq<char>, EntryView)>
    decreases n,
{
    if n <= 0 {
        m
    } else {
        registered_wm(register_all_wm(m, es, n - 1), es[n - 1])
    }
}

// ---------------------------------------------------------------------------
// Matching
// ---------------------------------------------------------------------------

/// `str::trim_end_matches` with a non-empty string pattern: every trailing
/// repetition removed.
pub open spec fn trim_end_all(s: Seq<char>, p: Seq<char>) -> Seq<char>
    decreases s.len(),
{
    if p.len() > 0 && ends_with(s, p) {
        trim_end_all(s.subrange(0, s.len() - p.len()), p)
    } else {
        s
    }
}

pub fn trim_end_all_chars(v: &[char], p: &[char]) -> (r: Vec<char>)
    ensures
        r@ == trim_end_all(v@, p@),
{
    let mut cur = clone_vec(v);
    while p.len() > 0 && ends_with_chars(cur.as_slice(), p)
        invariant
            trim_end_all(cur@, p@) == trim_end_all(v@, p@),
        decreases cur@.len(),
    {
        cur = subrange_of(cur.as_slice(), 0, cur.len() - p.len());
    }
    cur
}

/// An entry that is not a web app.
pub open spec fn unscoped(e: Option<EntryView>) -> Option<EntryView> {
    match e {
        Some(x) => if x.app_id is None {
            Some(x)
        } else {
            None
        },
        None => None,
    }
}

/// A row whose key ends the executable path or names one of its
/// components (`/<key>` inside it), web apps left out.
pub open spec fn path_match(exe_lower: Seq<char>) -> spec_fn((Seq<char>, EntryView)) -> bool {
    |p: (Seq<char>, EntryView)|
        p.1.app_id is None && (ends_with(exe_lower, p.0) || contains(
            exe_lower,
            seq!['/'] + p.0,
        ))
}

/// A row whose key holds `stem`, web apps left out.
pub open spec fn stem_match(stem: Seq<char>) -> spec_fn((Seq<char>, EntryView)) -> bool {
    |p: (Seq<char>, EntryView)| p.1.app_id is None && contains(p.0, stem)
}

/// The entry of a running process: by the web app id on its command line;
/// else by its basename (and, for `…-bin`, the basename without it);
/// else by a key that ends or names a component of its executable path;
/// else, for `…-bin`, by a key holding the stem. Only the first step may
/// give a web app.
pub open spec fn process_match(
    keys: Seq<(Seq<char>, EntryView)>,
    executable: Seq<char>,
    basename_lower: Seq<char>,
    cmdline: Option<Seq<char>>,
) -> Option<EntryView> {
    let by_app = match cmdline {
        Some(cmd) => match app_id_of(cmd) {
            Some(id) => lookup(keys, app_id_key(id)),
            None => None,
        },
        None => None,
    };
    let bin = ends_with(basename_lower, "-bin"@);
    let stem = trim_end_all(basename_lower, "-bin"@);
    let direct = unscoped(lookup(keys, basename_lower));
    let direct_stem = if bin {
        unscoped(lookup(keys, stem))
    } else {
        None
    };
    let by_path = first_from(keys, path_match(lowercase(executable)), 0);
    let by_stem = if bin {
        first_from(keys, stem_match(stem), 0)
    } else {
        None
    };
    if by_app is Some {
        by_app
    } else if direct is Some {
        direct
    } else if direct_stem is Some {
        direct_stem
    } else if by_path is Some {
        by_path
    } else {
        by_stem
    }
}

/// A row whose key occurs in the lower-cased title.
pub open spec fn wm_in(lower: Seq<char>) -> spec_fn((Seq<char>, EntryView)) -> bool {
    |p: (Seq<char>, EntryView)| contains(lower, p.0)
}

/// `str::len`: the length in bytes of the UTF-8 form.
pub open spec fn byte_len(s: Seq<char>) -> usize {
    vstd::utf8::encode_utf8(s).len() as usize
}

pub open spec fn name_qualifies(e: EntryView, lower: Seq<char>) -> bool {
    e.app_id is None && contains(lower, lowercase(e.name))
}

/// Among the first `n` rows, the first entry with the longest name (in
/// bytes) that occurs in the lower-cased title.
pub open spec fn best_named(m: Seq<(Seq<char>, EntryView)>, lower: Seq<char>, n: int) -> Option<
    EntryView,
>
    decreases n,
{
    if n <= 0 {
        None
    } else {
        let prev = best_named(m, lower, n - 1);
        let e = m[n - 1].1;
        if name_qualifies(e, lower) && match prev {
            Some(b) => byte_len(e.name) > byte_len(b.name),
            None => true,
        } {
            Some(e)
        } else {
            prev
        }
    }
}

/// The entry of a window title: by a `StartupWMClass` occurring in it,
/// else by the longest application name occurring in it.
pub open spec fn title_match(
    keys: Seq<(Seq<char>, EntryView)>,
    wms: Seq<(Seq<char>, EntryView)>,
    title: Seq<char>,
) -> Option<EntryView> {
    let lower = lowercase(title);
    match first_from(wms, wm_in(lower), 0) {
        Some(e) => Some(e),
        None => best_named(keys, lower, keys.len() as int),
    }
}

proof fn lemma_best_named_longest(m: Seq<(Seq<char>, EntryView)>, lower: Seq<char>, n: int)
    requires
        0 <= n <= m.len(),
    ensures
        best_named(m, lower, n) matches Some(e) ==> (exists|i: int| 0 <= i < n && m[i].1 == e)
            && e.app_id is None && contains(lower, lowercase(e.name)),
        forall|i: int|
            0 <= i < n && (#[trigger] m[i]).1.app_id is None && contains(lower, lowercase(m[i].1.name))
                ==> (best_named(m, lower, n) matches Some(b) && byte_len(m[i].1.name) <= byte_len(b.name)),
    decreases n,
{
    if n > 0 {
        lemma_best_named_longest(m, lower, n - 1);
        let prev = best_named(m, lower, n - 1);
        if best_named(m, lower, n) != prev {
            assert(m[n - 1].1 == best_named(m, lower, n)->0);
        }
        if let Some(e) = best_named(m, lower, n) {
            if best_named(m, lower, n) == prev && prev is Some {
                let i = choose|i: int| 0 <= i < n - 1 && m[i].1 == e;
                assert(0 <= i < n && m[i].1 == e);
            }
        }
    }
}

/// Without a `StartupWMClass` in the title, a window title is matched by
/// the longest name: the entry found is one of the index's entries, not a
/// web app, whose lower-cased name occurs in the lower-cased title, and no
/// other such entry has a longer name (in bytes). Nothing is found only
/// when no entry's name occurs in the title.
pub proof fn law_title_match_takes_longest_name(
    keys: Seq<(Seq<char>, EntryView)>,
    wms: Seq<(Seq<char>, EntryView)>,
    title: Seq<char>,
)
    requires
        first_from(wms, wm_in(lowercase(title)), 0) is None,
    ensures
        title_match(keys, wms, title) matches Some(e) ==> (exists|i: int| 0 <= i < keys.len() && keys[i].1 == e)
            && e.app_id is None && contains(lowercase(title), lowercase(e.name)),
        forall|i: int|
            0 <= i < keys.len() && (#[trigger] keys[i]).1.app_id is None && contains(
                lowercase(title),
                lowercase(keys[i].1.name),
            ) ==> (title_match(keys, wms, title) matches Some(b) && byte_len(keys[i].1.name) <= byte_len(b.name)),
{
    lemma_best_named_longest(keys, lowercase(title), keys.len() as int);
}

proof fn lemma_first_from_found(m: Seq<(Seq<char>, EntryView)>, pred: spec_fn((Seq<char>, EntryView)) -> bool, i: int)
    requires
        0 <= i,
    ensures
        first_from(m, pred, i) matches Some(e) ==> exists|k: int| i <= k < m.len() && pred(m[k]) && m[k].1 == e,
        first_from(m, pred, i) is None ==> forall|k: int| i <= k < m.len() ==> !pred(#[trigger] m[k]),
    decreases m.len() - i,
{
    if i < m.len() {
        lemma_first_from_found(m, pred, i + 1);
    }
}

/// A `StartupWMClass` occurring in a window title decides before any name:
/// when one of the index's window classes occurs in the lower-cased title,
/// the entry found is one registered under such a class.
pub proof fn law_title_match_prefers_wm_class(
    keys: Seq<(Seq<char>, EntryView)>,
    wms: Seq<(Seq<char>, EntryView)>,
    title: Seq<char>,
)
    ensures
        (exists|k: int| 0 <= k < wms.len() && contains(lowercase(title), (#[trigger] wms[k]).0)) ==> (
        title_match(keys, wms, title) matches Some(e) && exists|k: int|
            0 <= k < wms.len() && contains(lowercase(title), wms[k].0) && wms[k].1 == e),
        !(exists|k: int| 0 <= k < wms.len() && contains(lowercase(title), (#[trigger] wms[k]).0))
            ==> first_from(wms, wm_in(lowercase(title)), 0) is None,
{
    let lower = lowercase(title);
    lemma_first_from_found(wms, wm_in(lower), 0);
    if exists|k: int| 0 <= k < wms.len() && contains(lower, (#[trigger] wms[k]).0) {
        let k = choose|k: int| 0 <= k < wms.len() && contains(lower, (#[trigger] wms[k]).0);
        assert(wm_in(lower)(wms[k]));
    } else {
        if let Some(e) = first_from(wms, wm_in(lower), 0) {
            let k = choose|k: int| 0 <= k < wms.len() && wm_in(lower)(wms[k]) && wms[k].1 == e;
            assert(contains(lower, wms[k].0));
        }
    }
}

/// A running process is matched, in this order of precedence, by the web
/// app id on its command line, by its lower-case basename as a key, by
/// that basename without a trailing `-bin`, by a key that ends its
/// executable path or names one of its components, and (for `…-bin`) by a
/// key holding the stem. The entry found is always registered under a key
/// that one of these steps names, and only the web app id step can give a
/// web app.
pub proof fn law_process_match_sources(
    keys: Seq<(Seq<char>, EntryView)>,
    executable: Seq<char>,
    basename_lower: Seq<char>,
    cmdline: Option<Seq<char>>,
)
    ensures
        (cmdline matches Some(c) && app_id_of(c) matches Some(id) && lookup(keys, app_id_key(id)) is Some) ==> process_match(
            keys,
            executable,
            basename_lower,
            cmdline,
        ) == lookup(keys, app_id_key(app_id_of(cmdline->0)->0)),
        (cmdline is None || app_id_of(cmdline->0) is None) && (lookup(keys, basename_lower) matches Some(e)
            && e.app_id is None) ==> process_match(keys, executable, basename_lower, cmdline) == lookup(
            keys,
            basename_lower,
        ),
        process_match(keys, executable, basename_lower, cmdline) matches Some(e) ==> exists|k: int|
            0 <= k < keys.len() && keys[k].1 == e && ({
                let key = keys[k].0;
                let lower_exe = lowercase(executable);
                ||| (cmdline matches Some(c) && app_id_of(c) matches Some(id) && key == app_id_key(id))
                ||| (e.app_id is None && (key == basename_lower || (ends_with(basename_lower, "-bin"@)
                    && (key == trim_end_all(basename_lower, "-bin"@) || contains(
                    key,
                    trim_end_all(basename_lower, "-bin"@),
                ))) || ends_with(lower_exe, key) || contains(lower_exe, seq!['/'] + key)))
            }),
{
    let by_app = match cmdline {
        Some(cmd) => match app_id_of(cmd) {
            Some(id) => lookup(keys, app_id_key(id)),
            None => None,
        },
        None => None,
    };
    let stem = trim_end_all(basename_lower, "-bin"@);
    if let Some(c) = cmdline {
        if let Some(id) = app_id_of(c) {
            lemma_first_from_found(keys, key_is(app_id_key(id)), 0);
        }
    }
    lemma_first_from_found(keys, key_is(basename_lower), 0);
    lemma_first_from_found(keys, key_is(stem), 0);
    lemma_first_from_found(keys, path_match(lowercase(executable)), 0);
    lemma_first_from_found(keys, stem_match(stem), 0);
    if let Some(e) = process_match(keys, executable, basename_lower, cmdline) {
        if by_app is Some {
            let c = cmdline->0;
            let id = app_id_of(c)->0;
            let k = choose|k: int| 0 <= k < keys.len() && key_is(app_id_key(id))(keys[k]) && keys[k].1 == e;
            assert(keys[k].1 == e);
        } else if unscoped(lookup(keys, basename_lower)) is Some {
            let k = choose|k: int| 0 <= k < keys.len() && key_is(basename_lower)(keys[k]) && keys[k].1 == e;
            assert(keys[k].1 == e);
        } else if ends_with(basename_lower, "-bin"@) && unscoped(lookup(keys, stem)) is Some {
            let k = choose|k: int| 0 <= k < keys.len() && key_is(stem)(keys[k]) && keys[k].1 == e;
            assert(keys[k].1 == e);
        } else if first_from(keys, path_match(lowercase(executable)), 0) is Some {
            let k = choose|k: int|
                0 <= k < keys.len() && path_match(lowercase(executable))(keys[k]) && keys[k].1 == e;
            assert(keys[k].1 == e);
        } else {
            let k = choose|k: int| 0 <= k < keys.len() && stem_match(stem)(keys[k]) && keys[k].1 == e;
            assert(keys[k].1 == e);
        }
    }
}

/// A Wayland app id is matched, in this order of precedence, by its
/// trimmed, lower-cased form as a key, then as a window class, then by an
/// entry whose `StartupWMClass` or name equals it ignoring ASCII case; a
/// blank app id matches nothing.
pub proof fn law_app_id_match_sources(
    keys: Seq<(Seq<char>, EntryView)>,
    wms: Seq<(Seq<char>, EntryView)>,
    app_id: Seq<char>,
)
    ensures
        trim(app_id).len() == 0 ==> app_id_match(keys, wms, app_id) is None,
        trim(app_id).len() > 0 && lookup(keys, lowercase(trim(app_id))) is Some ==> app_id_match(keys, wms, app_id)
            == lookup(keys, lowercase(trim(app_id))),
        app_id_match(keys, wms, app_id) matches Some(e) ==> (exists|k: int|
            0 <= k < keys.len() && keys[k].1 == e && keys[k].0 == lowercase(trim(app_id))) || (exists|k: int|
            0 <= k < wms.len() && wms[k].1 == e && wms[k].0 == lowercase(trim(app_id))) || (exists|k: int|
            0 <= k < keys.len() && keys[k].1 == e && ((e.startup_wm_class matches Some(w) && eq_ignore_ascii_case(
                w,
                trim(app_id),
            )) || eq_ignore_ascii_case(e.name, trim(app_id)))),
{
    let id = trim(app_id);
    let lower = lowercase(id);
    lemma_first_from_found(keys, key_is(lower), 0);
    lemma_first_from_found(wms, key_is(lower), 0);
    lemma_first_from_found(keys, id_names(id), 0);
    if let Some(e) = app_id_match(keys, wms, app_id) {
        if lookup(keys, lower) is Some {
            let k = choose|k: int| 0 <= k < keys.len() && key_is(lower)(keys[k]) && keys[k].1 == e;
            assert(keys[k].1 == e && keys[k].0 == lower);
        } else if lookup(wms, lower) is Some {
            let k = choose|k: int| 0 <= k < wms.len() && key_is(lower)(wms[k]) && wms[k].1 == e;
            assert(wms[k].1 == e && wms[k].0 == lower);
        } else {
            let k = choose|k: int| 0 <= k < keys.len() && id_names(id)(keys[k]) && keys[k].1 == e;
            assert(keys[k].1 == e);
        }
    }
}

/// A row whose `StartupWMClass` or name equals `id`, ignoring ASCII case.
pub open spec fn id_names(id: Seq<char>) -> spec_fn((Seq<char>, EntryView)) -> bool {
    |p: (Seq<char>, EntryView)|
        (match p.1.startup_wm_class {
            Some(w) => eq_ignore_ascii_case(w, id),
            None => false,
        }) || eq_ignore_ascii_case(p.1.name, id)
}

/// The entry of a Wayland app id: by key, by `StartupWMClass`, else by a
/// `StartupWMClass` or name equal to it ignoring ASCII case.
pub open spec fn app_id_match(
    keys: Seq<(Seq<char>, EntryView)>,
    wms: Seq<(Seq<char>, EntryView)>,
    app_id: Seq<char>,
) -> Option<EntryView> {
    let id = trim(app_id);
    if id.len() == 0 {
        None
    } else {
        let lower = lowercase(id);
        match lookup(keys, lower) {
            Some(e) => Some(e),
            None => match lookup(wms, lower) {
                Some(e) => Some(e),
                None => first_from(keys, id_names(id), 0),
            },
        }
    }
}

pub open spec fn entry_ref_view(r: Option<&DesktopEntry>) -> Option<EntryView> {
    match r {
        Some(e) => Some(e@),
        None => None,
    }
}

fn find_path_match(t: &Vec<(String, DesktopEntry)>, exe_lower: &[char]) -> (r: Option<usize>)
    ensures
        match r {
            Some(j) => j < t@.len() && first_from(table_view(t@), path_match(exe_lower@), 0)
                == Some(t@[j as int].1@),
            None => first_from(table_view(t@), path_match(exe_lower@), 0) is None,
        },
{
    let ghost m = table_view(t@);
    let mut i: usize = 0;
    while i < t.len()
        invariant
            m == table_view(t@),
            i <= t@.len(),
            first_from(m, path_match(exe_lower@), 0) == first_from(m, path_match(exe_lower@), i as int),
        decreases t@.len() - i,
    {
        assert(m[i as int] == (t@[i as int].0@, t@[i as int].1@));
        if t[i].1.app_id.is_none() {
            let kv = chars_of(t[i].0.as_str());
            let slash_key = crate::text::concat_chars(&['/'], kv.as_slice());
            proof {
                assert(seq!['/'] =~= (['/'])@);
            }
            if ends_with_chars(exe_lower, kv.as_slice()) || contains_chars(exe_lower, slash_key.as_slice()) {
                return Some(i);
            }
        }
        i += 1;
    }
    None
}

fn find_stem_match(t: &Vec<(String, DesktopEntry)>, stem: &[char]) -> (r: Option<usize>)
    ensures
        match r {
            Some(j) => j < t@.len() && first_from(table_view(t@), stem_match(stem@), 0) == Some(
                t@[j as int].1@,
            ),
            None => first_from(table_view(t@), stem_match(stem@), 0) is None,
        },
{
    let ghost m = table_view(t@);
    let mut i: usize = 0;
    while i < t.len()
        invariant
            m == table_view(t@),
            i <= t@.len(),
            first_from(m, stem_match(stem@), 0) == first_from(m, stem_match(stem@), i as int),
        decreases t@.len() - i,
    {
        assert(m[i as int] == (t@[i as int].0@, t@[i as int].1@));
        if t[i].1.app_id.is_none() {
            let kv = chars_of(t[i].0.as_str());
            if contains_chars(kv.as_slice(), stem) {
                return Some(i);
            }
        }
        i += 1;
    }
    None
}

fn find_wm_in(t: &Vec<(String, DesktopEntry)>, lower: &[char]) -> (r: Option<usize>)
    ensures
        match r {
            Some(j) => j < t@.len() && first_from(table_view(t@), wm_in(lower@), 0) == Some(
                t@[j as int].1@,
            ),
            None => first_from(table_view(t@), wm_in(lower@), 0) is None,
        },
{
    let ghost m = table_view(t@);
    let mut i: usize = 0;
    while i < t.len()
        invariant
            m == table_view(t@),
            i <= t@.len(),
            first_from(m, wm_in(lower@), 0) == first_from(m, wm_in(lower@), i as int),
        decreases t@.len() - i,
    {
        assert(m[i as int] == (t@[i as int].0@, t@[i as int].1@));
        let kv = chars_of(t[i].0.as_str());
        if contains_chars(lower, kv.as_slice()) {
            return Some(i);
        }
        i += 1;
    }
    None
}

fn find_id_names(t: &Vec<(String, DesktopEntry)>, id: &[char]) -> (r: Option<usize>)
    ensures
        match r {
            Some(j) => j < t@.len() && first_from(table_view(t@), id_names(id@), 0) == Some(
                t@[j as int].1@,
            ),
            None => first_from(table_view(t@), id_names(id@), 0) is None,
        },
{
    let ghost m = table_view(t@);
    let mut i: usize = 0;
    while i < t.len()
        invariant
            m == table_view(t@),
            i <= t@.len(),
            first_from(m, id_names(id@), 0) == first_from(m, id_names(id@), i as int),
        decreases t@.len() - i,
    {
        assert(m[i as int] == (t@[i as int].0@, t@[i as int].1@));
        let by_wm = match &t[i].1.startup_wm_class {
            Some(w) => eq_ignore_ascii_case_chars(chars_of(w.as_str()).as_slice(), id),
            None => false,
        };
        if by_wm || eq_ignore_ascii_case_chars(chars_of(t[i].1.name.as_str()).as_slice(), id) {
            return Some(i);
        }
        i += 1;
    }
    None
}

fn find_best_named(t: &Vec<(String, DesktopEntry)>, lower: &[char]) -> (r: Option<usize>)
    ensures
        match r {
            Some(j) => j < t@.len() && best_named(table_view(t@), lower@, t@.len() as int) == Some(
                t@[j as int].1@,
            ),
            None => best_named(table_view(t@), lower@, t@.len() as int) is None,
        },
{
    let ghost m = table_view(t@);
    let mut best: Option<usize> = None;
    let mut best_len: usize = 0;
    let n = t.len();
    for i in 0..n
        invariant
            n == t@.len(),
            m == table_view(t@),
            match best {
                Some(j) => j < i && best_named(m, lower@, i as int) == Some(t@[j as int].1@)
                    && best_len == byte_len(t@[j as int].1@.name),
                None => best_named(m, lower@, i as int) is None,
            },
    {
        assert(m[i as int] == (t@[i as int].0@, t@[i as int].1@));
        if t[i].1.app_id.is_none() {
            let nl = lower_chars(chars_of(t[i].1.name.as_str()).as_slice());
            if contains_chars(lower, nl.as_slice()) {
                let len = t[i].1.name.as_str().len();
                let better = match best {
                    Some(_) => len > best_len,
                    None => true,
                };
                if better {
                    best = Some(i);
                    best_len = len;
                }
            }
        }
    }
    best
}

impl DesktopIndex {
    fn entry_at(&self, j: usize) -> (r: &DesktopEntry)
        requires
            j < self.by_key@.len(),
        ensures
            r@ == self.by_key@[j as int].1@,
    {
        &self.by_key[j].1
    }

    /// The entry of a running process (see `process_match`).
    pub fn match_process(&self, executable: &str, basename_lower: &str, cmdline: Option<&str>) -> (r:
        Option<&DesktopEntry>)
        ensures
            entry_ref_view(r) == process_match(
                self.keys(),
                executable@,
                basename_lower@,
                match cmdline {
                    Some(c) => Some(c@),
                    None => None,
                },
            ),
    {
        let ghost keys = self.keys();
        let ghost cmd_v: Option<Seq<char>> = match cmdline {
            Some(c) => Some(c@),
            None => None,
        };
        let ghost spec = process_match(keys, executable@, basename_lower@, cmd_v);
        match cmdline {
            Some(cmd) => {
                let cv = chars_of(cmd);
                match extract_app_id(cv.as_slice()) {
                    Some(id) => {
                        let key = app_id_key_of(id.as_slice());
                        match find_key(&self.by_key, key.as_slice()) {
                            Some(j) => {
                                return Some(self.entry_at(j));
                            },
                            None => {},
                        }
                    },
                    None => {},
                }
            },
            None => {},
        }
        let base = chars_of(basename_lower);
        let bin_lit = chars_of("-bin");
        let bin = ends_with_chars(base.as_slice(), bin_lit.as_slice());
        let stem = trim_end_all_chars(base.as_slice(), bin_lit.as_slice());
        match find_key(&self.by_key, base.as_slice()) {
            Some(j) => {
                if self.by_key[j].1.app_id.is_none() {
                    return Some(self.entry_at(j));
                }
            },
            None => {},
        }
        if bin {
            match find_key(&self.by_key, stem.as_slice()) {
                Some(j) => {
                    if self.by_key[j].1.app_id.is_none() {
                        return Some(self.entry_at(j));
                    }
                },
                None => {},
            }
        }
        let exe_lower = lower_chars(chars_of(executable).as_slice());
        match find_path_match(&self.by_key, exe_lower.as_slice()) {
            Some(j) => {
                return Some(self.entry_at(j));
            },
            None => {},
        }
        if bin {
            match find_stem_match(&self.by_key, stem.as_slice()) {
                Some(j) => {
                    return Some(self.entry_at(j));
                },
                None => {},
            }
        }
        None
    }

    /// The entry of a window title (see `title_match`).
    pub fn match_window_title(&self, title: &str) -> (r: Option<&DesktopEntry>)
        ensures
            entry_ref_view(r) == title_match(self.keys(), self.wm_classes(), title@),
    {
        let lower = lower_chars(chars_of(title).as_slice());
        match find_wm_in(&self.by_wm_class, lower.as_slice()) {
            Some(j) => {
                return Some(&self.by_wm_class[j].1);
            },
            None => {},
        }
        match find_best_named(&self.by_key, lower.as_slice()) {
            Some(j) => Some(self.entry_at(j)),
            None => None,
        }
    }

    /// The entry of a Wayland foreign-toplevel app id (see `app_id_match`).
    pub fn match_app_id(&self, app_id: &str) -> (r: Option<&DesktopEntry>)
        ensures
            entry_ref_view(r) == app_id_match(self.keys(), self.wm_classes(), app_id@),
    {
        let id = trim_chars(chars_of(app_id).as_slice());
        if id.len() == 0 {
            return None;
        }
        let lower = lower_chars(id.as_slice());
        match find_key(&self.by_key, lower.as_slice()) {
            Some(j) => {
                return Some(self.entry_at(j));
            },
            None => {},
        }
        match find_key(&self.by_wm_class, lower.as_slice()) {
            Some(j) => {
                return Some(&self.by_wm_class[j].1);
            },
            None => {},
        }
        match find_id_names(&self.by_key, id.as_slice()) {
            Some(j) => Some(self.entry_at(j)),
            None => None,
        }
    }
}

// ---------------------------------------------------------------------------
// Names and files
// ---------------------------------------------------------------------------

/// A basename with its first character upper-cased.
pub open spec fn humanized(b: Seq<char>) -> Seq<char> {
    if b.len() == 0 {
        Seq::empty()
    } else {
        uppercase_char(b[0]) + b.drop_first()
    }
}

/// A display name for a program without a desktop entry.
pub fn humanize_basename(basename: &str) -> (r: String)
    ensures
        r@ == humanized(basename@),
{
    let v = chars_of(basename);
    if v.len() == 0 {
        return String::new();
    }
    let first = to_uppercase_char(v[0]);
    let rest = subrange_of(v.as_slice(), 1, v.len());
    let fv = chars_of(first.as_str());
    let all = crate::text::concat_chars(fv.as_slice(), rest.as_slice());
    assert(v@.drop_first() =~= v@.subrange(1, v@.len() as int));
    string_of(all.as_slice())
}

/// The last position of `c` in `s`.
pub open spec fn last_index_of(s: Seq<char>, c: char, n: int) -> Option<int>
    decreases n,
{
    if n <= 0 || n > s.len() {
        None
    } else if s[n - 1] == c {
        Some(n - 1)
    } else {
        last_index_of(s, c, n - 1)
    }
}

/// `Path::extension`: what follows the last `.` of the file name, when
/// that `.` is not its first character.
pub open spec fn extension(path: Seq<char>) -> Option<Seq<char>> {
    match file_name(path) {
        Some(n) => match last_index_of(n, '.', n.len() as int) {
            Some(i) => if i > 0 {
                Some(n.subrange(i + 1, n.len() as int))
            } else {
                None
            },
            None => None,
        },
        None => None,
    }
}

/// Whether a directory entry is a `.desktop` file worth reading.
pub fn is_desktop_file_path(path: &str) -> (r: bool)
    ensures
        r == (extension(path@) == Some("desktop"@)),
{
    let pv = chars_of(path);
    let name = match file_name_chars(pv.as_slice()) {
        Some(n) => n,
        None => {
            return false;
        },
    };
    let mut k: usize = name.len();
    while k > 0
        invariant
            k <= name@.len(),
            file_name(path@) == Some(name@),
            last_index_of(name@, '.', name@.len() as int) == last_index_of(name@, '.', k as int),
        decreases k,
    {
        if name[k - 1] == '.' {
            if k - 1 == 0 {
                return false;
            }
            let ext = subrange_of(name.as_slice(), k, name.len());
            return is_lit(ext.as_slice(), "desktop");
        }
        k -= 1;
    }
    false
}

/// The directories searched for `.desktop` files, given the home
/// directory.
pub open spec fn application_dirs(home: Option<Seq<char>>) -> Seq<Seq<char>> {
    match home {
        Some(h) => seq![
            "/usr/share/applications"@,
            path_join(h, ".local/share/applications"@),
            path_join(h, ".local/share/flatpak/exports/share/applications"@),
            "/var/lib/flatpak/exports/share/applications"@,
            "/var/lib/snapd/desktop/applications"@,
        ],
        None => seq![
            "/usr/share/applications"@,
            "/var/lib/flatpak/exports/share/applications"@,
            "/var/lib/snapd/desktop/applications"@,
        ],
    }
}

pub fn application_dirs_for(home: &Option<String>) -> (r: Vec<String>)
    ensures
        seqs_of(r@) == application_dirs(opt_view(*home)),
{
    let mut r: Vec<String> = Vec::new();
    r.push(String::from_str("/usr/share/applications"));
    match home {
        Some(h) => {
            r.push(join_path(h.as_str(), ".local/share/applications"));
            r.push(join_path(h.as_str(), ".local/share/flatpak/exports/share/applications"));
        },
        None => {},
    }
    r.push(String::from_str("/var/lib/flatpak/exports/share/applications"));
    r.push(String::from_str("/var/lib/snapd/desktop/applications"));
    assert(seqs_of(r@) =~= application_dirs(opt_view(*home)));
    r
}

/// The directories searched for `.desktop` files, under the home directory
/// that `dirs` reports.
pub fn desktop_application_dirs() -> (r: Vec<String>)
    ensures
        exists|h: Option<Seq<char>>| seqs_of(r@) == application_dirs(h),
{
    let home = home_dir();
    application_dirs_for(&home)
}

} // verus!
