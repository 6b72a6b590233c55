//! Calls whose answers come from the running machine (environment, disk,
//! random numbers) or from outside crates. Each item states only what holds
//! of every answer; the verified callers take it from there.

use vstd::prelude::*;

verus! {

/// `dirs::home_dir`, as a lossy UTF-8 string. On Linux the crate answers
/// `$HOME` when it is set and non-empty, else the password-database entry
/// when that is non-empty, else `None`; so an answer is never empty.
#[verifier::external_body]
pub(crate) fn home_dir() -> (r: Option<String>)
    ensures
        r matches Some(h) ==> h@.len() > 0,
{
    dirs::home_dir().map(|p| p.to_string_lossy().into_owned())
}

/// `dirs::data_local_dir`, as a lossy UTF-8 string. On Linux the crate
/// answers `$XDG_DATA_HOME` when it is an absolute path, else the home
/// directory joined with `.local/share`, else `None`; so an answer is never
/// empty. Which directory comes back depends on the environment, and it is
/// absolute only when the home directory is, so nothing more is claimed.
#[verifier::external_body]
pub(crate) fn data_local_dir() -> (r: Option<String>)
    ensures
        r matches Some(d) ==> d@.len() > 0,
{
    dirs::data_local_dir().map(|p| p.to_string_lossy().into_owned())
}

/// `dirs::config_dir`, as a lossy UTF-8 string. On Linux the crate answers
/// `$XDG_CONFIG_HOME` when it is an absolute path, else the home directory
/// joined with `.config`, else `None`; so an answer is never empty. Which
/// directory comes back depends on the environment, and it is absolute only
/// when the home directory is, so nothing more is claimed.
#[verifier::external_body]
pub(crate) fn config_dir() -> (r: Option<String>)
    ensures
        r matches Some(d) ==> d@.len() > 0,
{
    dirs::config_dir().map(|p| p.to_string_lossy().into_owned())
}

/// `Path::is_file`: whether a regular file exists at `p` right now. The
/// answer depends on the disk, so nothing is claimed about it.
#[verifier::external_body]
pub(crate) fn path_is_file(p: &str) -> (r: bool) {
    std::path::Path::new(p).is_file()
}

/// `Path::is_dir`: whether a directory exists at `p` right now. The answer
/// depends on the disk, so nothing is claimed about it.
#[verifier::external_body]
pub(crate) fn path_is_dir(p: &str) -> (r: bool) {
    std::path::Path::new(p).is_dir()
}

/// `Path::exists`: whether anything exists at `p` right now. The answer
/// depends on the disk, so nothing is claimed about it.
#[verifier::external_body]
pub(crate) fn path_exists(p: &str) -> (r: bool) {
    std::path::Path::new(p).exists()
}

pub open spec fn is_lower_hex_digit(c: char) -> bool {
    ('0' <= c && c <= '9') || ('a' <= c && c <= 'f')
}

/// The shape of `Uuid::to_string`: 36 characters, lower-case hexadecimal
/// digits with hyphens at positions 8, 13, 18 and 23.
pub open spec fn is_hyphenated_uuid(s: Seq<char>) -> bool {
    &&& s.len() == 36
    &&& forall|i: int|
        0 <= i < 36 ==> if i == 8 || i == 13 || i == 18 || i == 23 {
            s[i] == '-'
        } else {
            is_lower_hex_digit(s[i])
        }
}

/// `uuid::Uuid::new_v4().to_string()`: a random version-4 UUID in the
/// crate's lower-case hyphenated form. Which UUID comes back is random; only
/// its shape is claimed.
#[verifier::external_body]
pub(crate) fn new_uuid_string() -> (r: String)
    ensures
        is_hyphenated_uuid(r@),
{
    uuid::Uuid::new_v4().to_string()
}

/// What `serde_json` gives for `content` parsed as a JSON value, then member
/// `key` of it read as a string (`None` when the text is not JSON, the value
/// is not an object, or the member is missing or not a string).
pub uninterp spec fn json_string_member(content: Seq<char>, key: Seq<char>) -> Option<Seq<char>>;

/// `serde_json::from_str::<Value>(content)`, then `.get(key)` and
/// `.as_str()`. The result is named by `json_string_member`.
#[verifier::external_body]
pub(crate) fn json_string_member_of(content: &str, key: &str) -> (r: Option<String>)
    ensures
        match r {
            Some(v) => json_string_member(content@, key@) == Some(v@),
            None => json_string_member(content@, key@) is None,
        },
{
    let value: serde_json::Value = match serde_json::from_str(content) {
        Ok(v) => v,
        Err(_) => return None,
    };
    value.get(key).and_then(|v| v.as_str()).map(|s| s.to_string())
}

/// What `Path::parent` returns for a path: the path without its final
/// component, none when the path ends in a root or is empty.
pub uninterp spec fn parent_path(p: Seq<char>) -> Option<Seq<char>>;

/// `Path::parent`, as a lossy UTF-8 string. It depends on the path alone;
/// the result is left to the name `parent_path`.
#[verifier::external_body]
pub(crate) fn path_parent(p: &str) -> (r: Option<String>)
    ensures
        crate::text::opt_view(r) == parent_path(p@),
{
    std::path::Path::new(p).parent().map(|q| q.to_string_lossy().into_owned())
}

} // verus!
