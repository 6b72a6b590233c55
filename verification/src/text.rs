//! Character-level string helpers shared by the parsers and matchers.
//!
//! Strings are modelled by their character sequences (`Seq<char>`); every
//! helper here states its result over that model.

use vstd::prelude::*;

verus! {

// ---------------------------------------------------------------------------
// Specifications
// ---------------------------------------------------------------------------

/// Unicode `White_Space` (the set `char::is_whitespace` tests).
pub open spec fn is_ws(c: char) -> bool {
    let u = c as u32;
    ||| 0x09 <= u <= 0x0d
    ||| u == 0x20
    ||| u == 0x85
    ||| u == 0xa0
    ||| u == 0x1680
    ||| 0x2000 <= u <= 0x200a
    ||| u == 0x2028
    ||| u == 0x2029
    ||| u == 0x202f
    ||| u == 0x205f
    ||| u == 0x3000
}

pub open spec fn trim_start(s: Seq<char>) -> Seq<char>
    decreases s.len(),
{
    if s.len() > 0 && is_ws(s[0]) {
        trim_start(s.drop_first())
    } else {
        s
    }
}

pub open spec fn trim_end(s: Seq<char>) -> Seq<char>
    decreases s.len(),
{
    if s.len() > 0 && is_ws(s.last()) {
        trim_end(s.drop_last())
    } else {
        s
    }
}

/// `str::trim`: leading and trailing white space removed.
pub open spec fn trim(s: Seq<char>) -> Seq<char> {
    trim_end(trim_start(s))
}

/// `needle` occurs in `hay` starting at index `i`.
pub open spec fn occurs_at(hay: Seq<char>, needle: Seq<char>, i: int) -> bool {
    &&& 0 <= i
    &&& i + needle.len() <= hay.len()
    &&& hay.subrange(i, i + needle.len()) == needle
}

/// `str::contains` with a string pattern.
pub open spec fn contains(hay: Seq<char>, needle: Seq<char>) -> bool {
    exists|i: int| occurs_at(hay, needle, i)
}

/// `str::starts_with` with a string pattern.
pub open spec fn starts_with(hay: Seq<char>, prefix: Seq<char>) -> bool {
    occurs_at(hay, prefix, 0)
}

/// `str::ends_with` with a string pattern.
pub open spec fn ends_with(hay: Seq<char>, suffix: Seq<char>) -> bool {
    suffix.len() <= hay.len() && occurs_at(hay, suffix, hay.len() - suffix.len())
}

/// `char::to_ascii_lowercase`.
pub open spec fn ascii_lower_char(c: char) -> char {
    if 'A' <= c && c <= 'Z' {
        ((c as u32) + 32) as char
    } else {
        c
    }
}

pub open spec fn ascii_lower(s: Seq<char>) -> Seq<char> {
    s.map_values(|c: char| ascii_lower_char(c))
}

pub open spec fn all_ascii(s: Seq<char>) -> bool {
    forall|i: int| 0 <= i < s.len() ==> (s[i] as u32) < 128
}

/// `str::eq_ignore_ascii_case`.
pub open spec fn eq_ignore_ascii_case(a: Seq<char>, b: Seq<char>) -> bool {
    ascii_lower(a) == ascii_lower(b)
}

/// What `str::to_lowercase` returns for a string with these characters
/// (Unicode lower-case mapping).
pub uninterp spec fn lowercase(s: Seq<char>) -> Seq<char>;

/// State of a left-to-right split on one separator character: the finished
/// pieces and the piece being read.
pub open spec fn split_state(s: Seq<char>, sep: char) -> (Seq<Seq<char>>, Seq<char>)
    decreases s.len(),
{
    if s.len() == 0 {
        (Seq::empty(), Seq::empty())
    } else {
        let (done, cur) = split_state(s.drop_last(), sep);
        if s.last() == sep {
            (done.push(cur), Seq::empty())
        } else {
            (done, cur.push(s.last()))
        }
    }
}

/// `str::split` on one character: always at least one piece.
pub open spec fn split_char(s: Seq<char>, sep: char) -> Seq<Seq<char>> {
    split_state(s, sep).0.push(split_state(s, sep).1)
}

/// State of `str::split_whitespace`: finished words and the word being read.
pub open spec fn words_state(s: Seq<char>) -> (Seq<Seq<char>>, Seq<char>)
    decreases s.len(),
{
    if s.len() == 0 {
        (Seq::empty(), Seq::empty())
    } else {
        let (done, cur) = words_state(s.drop_last());
        if is_ws(s.last()) {
            if cur.len() > 0 {
                (done.push(cur), Seq::empty())
            } else {
                (done, cur)
            }
        } else {
            (done, cur.push(s.last()))
        }
    }
}

/// `str::split_whitespace`: the maximal runs of non-white-space characters.
pub open spec fn words(s: Seq<char>) -> Seq<Seq<char>> {
    let (done, cur) = words_state(s);
    if cur.len() > 0 {
        done.push(cur)
    } else {
        done
    }
}

/// Left-to-right, non-overlapping split on a non-empty string pattern, as
/// `str::split(&str)` does; `start` is where the current piece began and `i`
/// the next position to test.
pub open spec fn split_pat_from(
    s: Seq<char>,
    p: Seq<char>,
    start: int,
    i: int,
    acc: Seq<Seq<char>>,
) -> Seq<Seq<char>>
    decreases s.len() - i,
{
    if p.len() == 0 || i < 0 || i + p.len() > s.len() {
        acc.push(s.subrange(start, s.len() as int))
    } else if occurs_at(s, p, i) {
        split_pat_from(s, p, i + p.len(), i + p.len(), acc.push(s.subrange(start, i)))
    } else {
        split_pat_from(s, p, start, i + 1, acc)
    }
}

pub open spec fn split_pat(s: Seq<char>, p: Seq<char>) -> Seq<Seq<char>> {
    split_pat_from(s, p, 0, 0, Seq::empty())
}

pub open spec fn strip_cr(line: Seq<char>) -> Seq<char> {
    if line.len() > 0 && line.last() == '\r' {
        line.drop_last()
    } else {
        line
    }
}

/// `str::lines`: split on `\n`, drop a `\r` before each `\n`, and drop the
/// empty piece after a final `\n`.
pub open spec fn lines(s: Seq<char>) -> Seq<Seq<char>> {
    let parts = split_char(s, '\n');
    let init = parts.drop_last().map_values(|l: Seq<char>| strip_cr(l));
    if parts.last().len() == 0 {
        init
    } else {
        init.push(parts.last())
    }
}

/// The path components that `Path::components` yields as normal names:
/// `/`-separated pieces without empty and `.` pieces.
pub open spec fn path_names(s: Seq<char>) -> Seq<Seq<char>> {
    split_char(s, '/').filter(name_piece())
}

/// A `/`-separated piece that names a path component.
pub open spec fn name_piece() -> spec_fn(Seq<char>) -> bool {
    |p: Seq<char>| p.len() > 0 && p != seq!['.']
}

/// `Path::file_name` for a `/`-separated path.
pub open spec fn file_name(s: Seq<char>) -> Option<Seq<char>> {
    let names = path_names(s);
    if names.len() == 0 || names.last() == seq!['.', '.'] {
        None
    } else {
        Some(names.last())
    }
}

/// `Path::is_absolute` on Unix.
pub open spec fn is_absolute(s: Seq<char>) -> bool {
    s.len() > 0 && s[0] == '/'
}

pub open spec fn strip_prefix(s: Seq<char>, p: Seq<char>) -> Option<Seq<char>> {
    if starts_with(s, p) {
        Some(s.subrange(p.len() as int, s.len() as int))
    } else {
        None
    }
}

pub open spec fn strip_suffix(s: Seq<char>, p: Seq<char>) -> Option<Seq<char>> {
    if ends_with(s, p) {
        Some(s.subrange(0, s.len() - p.len()))
    } else {
        None
    }
}

pub open spec fn opt_view(o: Option<String>) -> Option<Seq<char>> {
    match o {
        Some(s) => Some(s@),
        None => None,
    }
}

pub open spec fn seqs_of(v: Seq<String>) -> Seq<Seq<char>> {
    v.map_values(|s: String| s@)
}

pub open spec fn seqs_of_vecs(v: Seq<Vec<char>>) -> Seq<Seq<char>> {
    v.map_values(|s: Vec<char>| s@)
}

// ---------------------------------------------------------------------------
// Conversions
// ---------------------------------------------------------------------------

/// Appends one character to a string (`String::push`).
#[verifier::external_body]
fn push_char(s: &mut String, c: char)
    ensures
        final(s)@ == old(s)@.push(c),
{
    s.push(c);
}

/// `str::to_lowercase`: the documented Unicode lower-case mapping, which on
/// ASCII text is the ASCII mapping. The full mapping is left to the name
/// `lowercase`.
#[verifier::external_body]
fn to_lowercase_str(s: &str) -> (r: String)
    ensures
        r@ == lowercase(s@),
        all_ascii(s@) ==> r@ == ascii_lower(s@),
{
    s.to_lowercase()
}

/// The characters of `s`, in order.
pub fn chars_of(s: &str) -> (v: Vec<char>)
    ensures
        v@ == s@,
{
    let mut v: Vec<char> = Vec::new();
    for c in it: s.chars()
        invariant
            v@ == it.seq().take(it.index() as int),
    {
        v.push(c);
    }
    v
}

/// The string made of the characters of `v`, in order.
pub fn string_of(v: &[char]) -> (s: String)
    ensures
        s@ == v@,
{
    let mut s = String::new();
    let n = v.len();
    for i in 0..n
        invariant
            n == v@.len(),
            s@ == v@.take(i as int),
    {
        push_char(&mut s, v[i]);
        assert(v@.take(i + 1) == v@.take(i as int).push(v@[i as int]));
    }
    assert(v@.take(n as int) == v@);
    s
}

pub fn strings_of(v: &Vec<Vec<char>>) -> (r: Vec<String>)
    ensures
        seqs_of(r@) == seqs_of_vecs(v@),
{
    let mut r: Vec<String> = Vec::new();
    let n = v.len();
    for i in 0..n
        invariant
            n == v@.len(),
            r@.len() == i,
            forall|j: int| 0 <= j < i ==> r@[j]@ == v@[j]@,
    {
        r.push(string_of(v[i].as_slice()));
    }
    assert(seqs_of(r@) =~= seqs_of_vecs(v@));
    r
}

pub fn char_vecs_of(v: &Vec<String>) -> (r: Vec<Vec<char>>)
    ensures
        seqs_of_vecs(r@) == seqs_of(v@),
{
    let mut r: Vec<Vec<char>> = Vec::new();
    let n = v.len();
    for i in 0..n
        invariant
            n == v@.len(),
            r@.len() == i,
            forall|j: int| 0 <= j < i ==> r@[j]@ == v@[j]@,
    {
        r.push(chars_of(v[i].as_str()));
    }
    assert(seqs_of(v@) =~= seqs_of_vecs(r@));
    r
}

pub fn clone_chars(v: &Vec<char>) -> (r: Vec<char>)
    ensures
        r@ == v@,
{
    let mut r: Vec<char> = Vec::new();
    let n = v.len();
    for i in 0..n
        invariant
            n == v@.len(),
            r@ == v@.take(i as int),
    {
        r.push(v[i]);
        assert(v@.take(i + 1) == v@.take(i as int).push(v@[i as int]));
    }
    assert(v@.take(n as int) == v@);
    r
}

pub fn clone_string(s: &String) -> (r: String)
    ensures
        r@ == s@,
{
    s.clone()
}

pub fn clone_strings(v: &Vec<String>) -> (r: Vec<String>)
    ensures
        seqs_of(r@) == seqs_of(v@),
        r@.len() == v@.len(),
{
    let mut r: Vec<String> = Vec::new();
    let n = v.len();
    for i in 0..n
        invariant
            n == v@.len(),
            r@.len() == i,
            forall|j: int| 0 <= j < i ==> r@[j]@ == v@[j]@,
    {
        r.push(v[i].clone());
    }
    assert(seqs_of(r@) =~= seqs_of(v@));
    r
}

pub fn clone_opt_string(o: &Option<String>) -> (r: Option<String>)
    ensures
        opt_view(r) == opt_view(*o),
{
    match o {
        Some(s) => Some(s.clone()),
        None => None,
    }
}

// ---------------------------------------------------------------------------
// Predicates and transformations on character vectors
// ---------------------------------------------------------------------------

pub fn is_whitespace(c: char) -> (r: bool)
    ensures
        r == is_ws(c),
{
    let u = c as u32;
    (0x09 <= u && u <= 0x0d) || u == 0x20 || u == 0x85 || u == 0xa0 || u == 0x1680 || (0x2000
        <= u && u <= 0x200a) || u == 0x2028 || u == 0x2029 || u == 0x202f || u == 0x205f || u
        == 0x3000
}

pub fn chars_eq(a: &[char], b: &[char]) -> (r: bool)
    ensures
        r == (a@ == b@),
{
    if a.len() != b.len() {
        return false;
    }
    let n = a.len();
    for i in 0..n
        invariant
            n == a@.len(),
            n == b@.len(),
            forall|j: int| 0 <= j < i ==> a@[j] == b@[j],
    {
        if a[i] != b[i] {
            return false;
        }
    }
    assert(a@ =~= b@);
    true
}

/// Whether `needle` occurs in `hay` at index `i`.
pub fn matches_at(hay: &[char], needle: &[char], i: usize) -> (r: bool)
    ensures
        r == occurs_at(hay@, needle@, i as int),
{
    if needle.len() > hay.len() || i > hay.len() - needle.len() {
        return false;
    }
    let n = needle.len();
    let hl = hay.len();
    for k in 0..n
        invariant
            n == needle@.len(),
            hl == hay@.len(),
            i + n <= hay@.len(),
            forall|j: int| 0 <= j < k ==> hay@[i + j] == needle@[j],
    {
        assert(i + k < hay@.len());
        if hay[i + k] != needle[k] {
            assert(hay@.subrange(i as int, i + n)[k as int] != needle@[k as int]);
            return false;
        }
    }
    assert(hay@.subrange(i as int, i + n) =~= needle@);
    true
}

pub fn contains_chars(hay: &[char], needle: &[char]) -> (r: bool)
    ensures
        r == contains(hay@, needle@),
{
    if needle.len() > hay.len() {
        return false;
    }
    let last = hay.len() - needle.len();
    for i in 0..last
        invariant
            last == hay@.len() - needle@.len(),
            forall|j: int| 0 <= j < i ==> !occurs_at(hay@, needle@, j),
    {
        if matches_at(hay, needle, i) {
            return true;
        }
    }
    if matches_at(hay, needle, last) {
        return true;
    }
    assert forall|j: int| !occurs_at(hay@, needle@, j) by {
        if 0 <= j && j + needle@.len() <= hay@.len() {
            assert(j <= last);
        }
    }
    false
}

pub fn starts_with_chars(hay: &[char], prefix: &[char]) -> (r: bool)
    ensures
        r == starts_with(hay@, prefix@),
{
    matches_at(hay, prefix, 0)
}

pub fn ends_with_chars(hay: &[char], suffix: &[char]) -> (r: bool)
    ensures
        r == ends_with(hay@, suffix@),
{
    if suffix.len() > hay.len() {
        return false;
    }
    matches_at(hay, suffix, hay.len() - suffix.len())
}

pub fn contains_char(hay: &[char], c: char) -> (r: bool)
    ensures
        r == hay@.contains(c),
{
    let n = hay.len();
    for i in 0..n
        invariant
            n == hay@.len(),
            forall|j: int| 0 <= j < i ==> hay@[j] != c,
    {
        if hay[i] == c {
            return true;
        }
    }
    false
}

pub fn subrange(v: &[char], from: usize, to: usize) -> (r: Vec<char>)
    requires
        from <= to <= v@.len(),
    ensures
        r@ == v@.subrange(from as int, to as int),
{
    let mut r: Vec<char> = Vec::new();
    let mut i = from;
    while i < to
        invariant
            from <= i <= to <= v@.len(),
            r@ == v@.subrange(from as int, i as int),
        decreases to - i,
    {
        r.push(v[i]);
        assert(v@.subrange(from as int, i + 1) == v@.subrange(from as int, i as int).push(
            v@[i as int],
        ));
        i = i + 1;
    }
    r
}

proof fn lemma_trim_start_shape(s: Seq<char>)
    ensures
        trim_start(s).len() == 0 || !is_ws(trim_start(s)[0]),
    decreases s.len(),
{
    if s.len() > 0 && is_ws(s[0]) {
        lemma_trim_start_shape(s.drop_first());
    }
}

proof fn lemma_trim_end_shape(s: Seq<char>)
    ensures
        trim_end(s).len() <= s.len(),
        trim_end(s) == s.subrange(0, trim_end(s).len() as int),
        trim_end(s).len() == 0 || !is_ws(trim_end(s).last()),
    decreases s.len(),
{
    if s.len() > 0 && is_ws(s.last()) {
        lemma_trim_end_shape(s.drop_last());
        assert(s.drop_last().subrange(0, trim_end(s).len() as int) =~= s.subrange(0, trim_end(s).len() as int));
    } else {
        assert(s.subrange(0, s.len() as int) =~= s);
    }
}

/// Trimming twice changes nothing.
pub proof fn lemma_trim_idempotent(s: Seq<char>)
    ensures
        trim(trim(s)) == trim(s),
{
    let a = trim_start(s);
    let b = trim_end(a);
    lemma_trim_start_shape(s);
    lemma_trim_end_shape(a);
    if b.len() > 0 {
        assert(b[0] == a[0]);
    }
    assert(trim_start(b) == b);
    assert(trim_end(b) == b);
}

proof fn lemma_trim_start_step(s: Seq<char>, i: int)
    requires
        0 <= i < s.len(),
        is_ws(s[i]),
    ensures
        trim_start(s.subrange(i, s.len() as int)) == trim_start(s.subrange(i + 1, s.len() as int)),
{
    let t = s.subrange(i, s.len() as int);
    assert(t.drop_first() =~= s.subrange(i + 1, s.len() as int));
}

proof fn lemma_trim_end_step(s: Seq<char>, j: int)
    requires
        0 < j <= s.len(),
        is_ws(s[j - 1]),
    ensures
        trim_end(s.subrange(0, j)) == trim_end(s.subrange(0, j - 1)),
{
    let t = s.subrange(0, j);
    assert(t.drop_last() =~= s.subrange(0, j - 1));
}

/// `str::trim` on characters.
pub fn trim_chars(v: &[char]) -> (r: Vec<char>)
    ensures
        r@ == trim(v@),
{
    let n = v.len();
    let mut i: usize = 0;
    assert(v@.subrange(0, n as int) =~= v@);
    while i < n && is_whitespace(v[i])
        invariant
            n == v@.len(),
            i <= n,
            trim_start(v@) == trim_start(v@.subrange(i as int, n as int)),
        decreases n - i,
    {
        proof {
            lemma_trim_start_step(v@, i as int);
        }
        i = i + 1;
    }
    let ghost t = v@.subrange(i as int, n as int);
    assert(trim_start(v@) == t) by {
        if t.len() > 0 {
            assert(t[0] == v@[i as int]);
        }
    }
    let mut j: usize = n;
    assert(t.subrange(0, (n - i) as int) =~= t);
    while j > i && is_whitespace(v[j - 1])
        invariant
            n == v@.len(),
            i <= j <= n,
            t == v@.subrange(i as int, n as int),
            trim_end(t) == trim_end(t.subrange(0, j - i)),
        decreases j,
    {
        proof {
            lemma_trim_end_step(t, (j - i) as int);
        }
        j = j - 1;
    }
    let r = subrange(v, i, j);
    assert(r@ =~= t.subrange(0, j - i));
    assert(trim_end(t.subrange(0, j - i)) == t.subrange(0, j - i)) by {
        let u = t.subrange(0, j - i);
        if u.len() > 0 {
            assert(u.last() == v@[j - 1]);
        }
    }
    r
}

pub fn trim_str(s: &str) -> (r: Vec<char>)
    ensures
        r@ == trim(s@),
{
    let v = chars_of(s);
    trim_chars(v.as_slice())
}

/// `str::to_lowercase` on characters.
pub fn lower_chars(v: &[char]) -> (r: Vec<char>)
    ensures
        r@ == lowercase(v@),
        all_ascii(v@) ==> r@ == ascii_lower(v@),
{
    let s = string_of(v);
    let l = to_lowercase_str(s.as_str());
    chars_of(l.as_str())
}

pub fn lower_str(s: &str) -> (r: Vec<char>)
    ensures
        r@ == lowercase(s@),
        all_ascii(s@) ==> r@ == ascii_lower(s@),
{
    let l = to_lowercase_str(s);
    chars_of(l.as_str())
}

pub fn ascii_lower_c(c: char) -> (r: char)
    ensures
        r == ascii_lower_char(c),
{
    if 'A' <= c && c <= 'Z' {
        let b = (c as u8) + 32;
        b as char
    } else {
        c
    }
}

/// `str::eq_ignore_ascii_case` on characters.
pub fn eq_ignore_ascii_case_chars(a: &[char], b: &[char]) -> (r: bool)
    ensures
        r == eq_ignore_ascii_case(a@, b@),
{
    if a.len() != b.len() {
        assert(ascii_lower(a@).len() != ascii_lower(b@).len());
        return false;
    }
    let n = a.len();
    for i in 0..n
        invariant
            n == a@.len(),
            n == b@.len(),
            forall|j: int| 0 <= j < i ==> ascii_lower_char(a@[j]) == ascii_lower_char(b@[j]),
    {
        if ascii_lower_c(a[i]) != ascii_lower_c(b[i]) {
            assert(ascii_lower(a@)[i as int] != ascii_lower(b@)[i as int]);
            return false;
        }
    }
    assert(ascii_lower(a@) =~= ascii_lower(b@));
    true
}

/// `str::split` on one character.
pub fn split_on_char(v: &[char], sep: char) -> (r: Vec<Vec<char>>)
    ensures
        seqs_of_vecs(r@) == split_char(v@, sep),
{
    let mut done: Vec<Vec<char>> = Vec::new();
    let mut cur: Vec<char> = Vec::new();
    let n = v.len();
    for i in 0..n
        invariant
            n == v@.len(),
            (seqs_of_vecs(done@), cur@) == split_state(v@.take(i as int), sep),
    {
        assert(v@.take(i + 1).drop_last() =~= v@.take(i as int));
        if v[i] == sep {
            let piece = cur;
            cur = Vec::new();
            done.push(piece);
            assert(seqs_of_vecs(done@) =~= split_state(v@.take(i as int), sep).0.push(
                piece@,
            ));
        } else {
            cur.push(v[i]);
        }
    }
    assert(v@.take(n as int) =~= v@);
    let ghost before = seqs_of_vecs(done@);
    let last = cur;
    done.push(last);
    assert(seqs_of_vecs(done@) =~= before.push(last@));
    done
}

/// `str::split_whitespace` on characters.
pub fn split_words(v: &[char]) -> (r: Vec<Vec<char>>)
    ensures
        seqs_of_vecs(r@) == words(v@),
{
    let mut done: Vec<Vec<char>> = Vec::new();
    let mut cur: Vec<char> = Vec::new();
    let n = v.len();
    for i in 0..n
        invariant
            n == v@.len(),
            (seqs_of_vecs(done@), cur@) == words_state(v@.take(i as int)),
    {
        assert(v@.take(i + 1).drop_last() =~= v@.take(i as int));
        if is_whitespace(v[i]) {
            if cur.len() > 0 {
                let piece = cur;
                cur = Vec::new();
                done.push(piece);
                assert(seqs_of_vecs(done@) =~= words_state(v@.take(i as int)).0.push(piece@));
            }
        } else {
            cur.push(v[i]);
        }
    }
    assert(v@.take(n as int) =~= v@);
    if cur.len() > 0 {
        let ghost before = seqs_of_vecs(done@);
        let last = cur;
        done.push(last);
        assert(seqs_of_vecs(done@) =~= before.push(last@));
    }
    done
}

/// `str::split` on a non-empty string pattern.
pub fn split_on_pattern(v: &[char], p: &[char]) -> (r: Vec<Vec<char>>)
    requires
        p@.len() > 0,
    ensures
        seqs_of_vecs(r@) == split_pat(v@, p@),
{
    let mut acc: Vec<Vec<char>> = Vec::new();
    let mut start: usize = 0;
    let mut i: usize = 0;
    let n = v.len();
    let m = p.len();
    assert(seqs_of_vecs(acc@) =~= Seq::<Seq<char>>::empty());
    while m <= n && i <= n - m
        invariant
            n == v@.len(),
            m == p@.len(),
            m > 0,
            start <= i,
            i <= n,
            split_pat(v@, p@) == split_pat_from(v@, p@, start as int, i as int, seqs_of_vecs(acc@)),
        decreases n + 1 - i,
    {
        if matches_at(v, p, i) {
            let piece = subrange(v, start, i);
            let ghost before = seqs_of_vecs(acc@);
            acc.push(piece);
            assert(seqs_of_vecs(acc@) =~= before.push(v@.subrange(start as int, i as int)));
            i = i + m;
            start = i;
        } else {
            i = i + 1;
        }
    }
    let piece = subrange(v, start, n);
    let ghost before = seqs_of_vecs(acc@);
    acc.push(piece);
    assert(seqs_of_vecs(acc@) =~= before.push(v@.subrange(start as int, n as int)));
    acc
}

pub fn strip_cr_chars(line: Vec<char>) -> (r: Vec<char>)
    ensures
        r@ == strip_cr(line@),
{
    let mut line = line;
    if line.len() > 0 && line[line.len() - 1] == '\r' {
        line.pop();
    }
    line
}

/// `str::lines` on characters.
pub fn lines_of(v: &[char]) -> (r: Vec<Vec<char>>)
    ensures
        seqs_of_vecs(r@) == lines(v@),
{
    let parts = split_on_char(v, '\n');
    let ghost ps = seqs_of_vecs(parts@);
    assert(ps.len() > 0);
    let k = parts.len() - 1;
    let mut out: Vec<Vec<char>> = Vec::new();
    for i in 0..k
        invariant
            k == parts@.len() - 1,
            ps == seqs_of_vecs(parts@),
            out@.len() == i,
            forall|j: int| 0 <= j < i ==> out@[j]@ == strip_cr(ps[j]),
    {
        out.push(strip_cr_chars(clone_chars(&parts[i])));
    }
    assert(seqs_of_vecs(out@) =~= ps.drop_last().map_values(|l: Seq<char>| strip_cr(l)));
    if parts[k].len() > 0 {
        let ghost before = seqs_of_vecs(out@);
        let last = clone_chars(&parts[k]);
        out.push(last);
        assert(seqs_of_vecs(out@) =~= before.push(ps.last()));
    }
    out
}

/// `Path::file_name` on characters.
pub fn file_name_chars(v: &[char]) -> (r: Option<Vec<char>>)
    ensures
        match r {
            Some(x) => file_name(v@) == Some(x@),
            None => file_name(v@) is None,
        },
{
    let parts = split_on_char(v, '/');
    let ghost ps = seqs_of_vecs(parts@);
    let ghost pred = name_piece();
    let mut names: Vec<Vec<char>> = Vec::new();
    let n = parts.len();
    let dot = vec!['.'];
    for i in 0..n
        invariant
            n == parts@.len(),
            ps == seqs_of_vecs(parts@),
            dot@ == seq!['.'],
            pred == name_piece(),
            seqs_of_vecs(names@) == ps.take(i as int).filter(pred),
    {
        let keep = parts[i].len() > 0 && !chars_eq(parts[i].as_slice(), dot.as_slice());
        proof {
            assert(ps[i as int] == parts@[i as int]@);
            assert((parts@[i as int]@.len() > 0) == (parts[i as int].len() > 0));
            assert(keep == (ps[i as int].len() > 0 && ps[i as int] != seq!['.']));
            assert(keep == pred(ps[i as int]));
            assert(ps.take(i + 1).drop_last() =~= ps.take(i as int));
            assert(ps.take(i + 1).last() == ps[i as int]);
            reveal(Seq::filter);
        }
        if keep {
            let ghost before = seqs_of_vecs(names@);
            names.push(clone_chars(&parts[i]));
            assert(seqs_of_vecs(names@) =~= before.push(ps[i as int]));
        }
    }
    assert(ps.take(n as int) =~= ps);
    let dotdot = vec!['.', '.'];
    if names.len() == 0 {
        return None;
    }
    let last = names.len() - 1;
    if chars_eq(names[last].as_slice(), dotdot.as_slice()) {
        return None;
    }
    Some(clone_chars(&names[last]))
}

pub fn file_name_str(s: &str) -> (r: Option<Vec<char>>)
    ensures
        match r {
            Some(x) => file_name(s@) == Some(x@),
            None => file_name(s@) is None,
        },
{
    let v = chars_of(s);
    file_name_chars(v.as_slice())
}

pub fn is_absolute_chars(v: &[char]) -> (r: bool)
    ensures
        r == is_absolute(v@),
{
    v.len() > 0 && v[0] == '/'
}

pub fn strip_prefix_chars(v: &[char], p: &[char]) -> (r: Option<Vec<char>>)
    ensures
        match r {
            Some(x) => strip_prefix(v@, p@) == Some(x@),
            None => strip_prefix(v@, p@) is None,
        },
{
    if starts_with_chars(v, p) {
        Some(subrange(v, p.len(), v.len()))
    } else {
        None
    }
}

pub fn strip_suffix_chars(v: &[char], p: &[char]) -> (r: Option<Vec<char>>)
    ensures
        match r {
            Some(x) => strip_suffix(v@, p@) == Some(x@),
            None => strip_suffix(v@, p@) is None,
        },
{
    if ends_with_chars(v, p) {
        Some(subrange(v, 0, v.len() - p.len()))
    } else {
        None
    }
}

pub fn concat_chars(a: &[char], b: &[char]) -> (r: Vec<char>)
    ensures
        r@ == a@ + b@,
{
    let mut r = subrange(a, 0, a.len());
    let n = b.len();
    assert(a@.subrange(0, a@.len() as int) =~= a@);
    for i in 0..n
        invariant
            n == b@.len(),
            r@ == a@ + b@.take(i as int),
    {
        r.push(b[i]);
        assert(b@.take(i + 1) == b@.take(i as int).push(b@[i as int]));
        assert(a@ + b@.take(i + 1) =~= (a@ + b@.take(i as int)).push(b@[i as int]));
    }
    assert(b@.take(n as int) =~= b@);
    r
}

/// Whether `lit` occurs in `hay`.
pub fn has_lit(hay: &[char], lit: &str) -> (r: bool)
    ensures
        r == contains(hay@, lit@),
{
    let l = chars_of(lit);
    contains_chars(hay, l.as_slice())
}

/// Whether `hay` starts with `lit`.
pub fn starts_lit(hay: &[char], lit: &str) -> (r: bool)
    ensures
        r == starts_with(hay@, lit@),
{
    let l = chars_of(lit);
    starts_with_chars(hay, l.as_slice())
}

/// Whether `hay` ends with `lit`.
pub fn ends_lit(hay: &[char], lit: &str) -> (r: bool)
    ensures
        r == ends_with(hay@, lit@),
{
    let l = chars_of(lit);
    ends_with_chars(hay, l.as_slice())
}

/// Whether `hay` is exactly `lit`.
pub fn is_lit(hay: &[char], lit: &str) -> (r: bool)
    ensures
        r == (hay@ == lit@),
{
    let l = chars_of(lit);
    chars_eq(hay, l.as_slice())
}

/// `Path::new(s).file_name()` lower-cased, or the empty string when the
/// path has no file name.
pub open spec fn lower_file_name_or_empty(s: Seq<char>) -> Seq<char> {
    match file_name(s) {
        Some(n) => lowercase(n),
        None => Seq::empty(),
    }
}

pub fn lower_file_name_or_empty_of(v: &[char]) -> (r: Vec<char>)
    ensures
        r@ == lower_file_name_or_empty(v@),
{
    match file_name_chars(v) {
        Some(n) => lower_chars(n.as_slice()),
        None => Vec::new(),
    }
}

/// What `char::to_uppercase` yields for `c` (Unicode upper-case mapping,
/// possibly several characters).
pub uninterp spec fn uppercase_char(c: char) -> Seq<char>;

/// `char::to_uppercase`, collected: the documented Unicode mapping, which
/// maps ASCII `a`–`z` to `A`–`Z` and leaves other ASCII characters alone.
#[verifier::external_body]
pub(crate) fn to_uppercase_char(c: char) -> (r: String)
    ensures
        r@ == uppercase_char(c),
        'a' <= c <= 'z' ==> r@ == seq![((c as u32) - 32) as char],
        (c as u32) < 128 && !('a' <= c <= 'z') ==> r@ == seq![c],
{
    c.to_uppercase().collect::<String>()
}

/// The decimal digit of `d` (below 10).
pub open spec fn digit_char(d: nat) -> char {
    ((48 + d) as u8) as char
}

/// The decimal form of a number, as `Display` writes it.
pub open spec fn decimal(n: nat) -> Seq<char>
    decreases n,
{
    if n < 10 {
        seq![digit_char(n)]
    } else {
        decimal(n / 10).push(digit_char(n % 10))
    }
}

/// The decimal form of `n`.
pub fn decimal_chars(n: u64) -> (r: Vec<char>)
    ensures
        r@ == decimal(n as nat),
    decreases n,
{
    if n < 10 {
        let d = (48u8 + n as u8) as char;
        let mut v: Vec<char> = Vec::new();
        v.push(d);
        assert(v@ =~= seq![digit_char(n as nat)]);
        v
    } else {
        let mut v = decimal_chars(n / 10);
        let d = (48u8 + (n % 10) as u8) as char;
        v.push(d);
        v
    }
}

/// `n.to_string()`.
pub fn decimal_string(n: u64) -> (r: String)
    ensures
        r@ == decimal(n as nat),
{
    let v = decimal_chars(n);
    string_of(v.as_slice())
}

} // verus!
