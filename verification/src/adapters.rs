//! Which compositor runs the session, and whether it is expected to tell
//! which workspace a window is on. Window records stay portable (`pid`,
//! optional workspace, title, optional app id) whatever the compositor.

use vstd::prelude::*;

use crate::text::{ascii_lower, ascii_lower_c, chars_of, contains, has_lit};

verus! {

/// Coarse desktop environment family.
#[derive(Debug, Clone, Copy, PartialEq, Eq, Structural)]
pub enum CompositorFamily {
    Cosmic,
    Gnome,
    Kwin,
    Hyprland,
    Unknown,
}

/// The family named by `XDG_CURRENT_DESKTOP` and `XDG_SESSION_DESKTOP`
/// (ASCII lower-cased, joined by `;`): Cosmic, then GNOME, then KDE or
/// Plasma, then Hyprland.
pub open spec fn family_of(desktop: Seq<char>, session: Seq<char>) -> CompositorFamily {
    let combined = ascii_lower(desktop) + seq![';'] + ascii_lower(session);
    if contains(combined, "cosmic"@) {
        CompositorFamily::Cosmic
    } else if contains(combined, "gnome"@) {
        CompositorFamily::Gnome
    } else if contains(combined, "kde"@) || contains(combined, "plasma"@) {
        CompositorFamily::Kwin
    } else if contains(combined, "hyprland"@) {
        CompositorFamily::Hyprland
    } else {
        CompositorFamily::Unknown
    }
}

fn ascii_lower_vec(s: &str) -> (r: Vec<char>)
    ensures
        r@ == ascii_lower(s@),
{
    let v = chars_of(s);
    let mut r: Vec<char> = Vec::new();
    for i in 0..v.len()
        invariant
            r@ == ascii_lower(v@.take(i as int)),
    {
        r.push(ascii_lower_c(v[i]));
        assert(ascii_lower(v@.take(i + 1)) =~= ascii_lower(v@.take(i as int)).push(
            crate::text::ascii_lower_char(v@[i as int]),
        ));
    }
    assert(v@.take(v@.len() as int) =~= v@);
    r
}

/// The compositor family from the two environment values (empty when
/// unset).
pub fn compositor_family_from(desktop: &str, session: &str) -> (r: CompositorFamily)
    ensures
        r == family_of(desktop@, session@),
{
    let mut combined = ascii_lower_vec(desktop);
    combined.push(';');
    let s = ascii_lower_vec(session);
    let ghost left = combined@;
    for i in 0..s.len()
        invariant
            combined@ == left + s@.take(i as int),
    {
        combined.push(s[i]);
        assert(left + s@.take(i + 1) =~= (left + s@.take(i as int)).push(s@[i as int]));
    }
    assert(s@.take(s@.len() as int) =~= s@);
    assert(left =~= ascii_lower(desktop@) + seq![';']);
    assert(combined@ =~= ascii_lower(desktop@) + seq![';'] + ascii_lower(session@));
    let c = combined.as_slice();
    if has_lit(c, "cosmic") {
        CompositorFamily::Cosmic
    } else if has_lit(c, "gnome") {
        CompositorFamily::Gnome
    } else if has_lit(c, "kde") || has_lit(c, "plasma") {
        CompositorFamily::Kwin
    } else if has_lit(c, "hyprland") {
        CompositorFamily::Hyprland
    } else {
        CompositorFamily::Unknown
    }
}

/// Native workspace enrichment is expected on Cosmic only; elsewhere the
/// workspace is left unset rather than invented as 0.
pub fn workspace_enrichment_expected(family: CompositorFamily) -> (r: bool)
    ensures
        r == (family == CompositorFamily::Cosmic),
{
    match family {
        CompositorFamily::Cosmic => true,
        _ => false,
    }
}

/// GNOME does not expose workspace membership to unprivileged clients
/// portably: no enrichment.
pub fn gnome_workspace_enrichment_available() -> (r: bool)
    ensures
        !r,
{
    false
}

/// KWin / Plasma: no fabricated workspace indices.
pub fn kwin_workspace_enrichment_available() -> (r: bool)
    ensures
        !r,
{
    false
}

/// Hyprland: no workspace indices.
pub fn hyprland_workspace_enrichment_available() -> (r: bool)
    ensures
        !r,
{
    false
}

} // verus!
