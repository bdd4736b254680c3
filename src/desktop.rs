//! The desktop entry that registers an installed version with the launcher.
use crate::text::concat;
use vstd::prelude::*;

verus! {

/// The launcher name of version `tag`.
pub open spec fn entry_name_of(tag: Seq<char>) -> Seq<char> {
    "osu! "@ + tag
}

/// The text of a desktop entry for the program `exec` with the icon `icon`.
pub open spec fn desktop_entry_text(name: Seq<char>, icon: Seq<char>, exec: Seq<char>) -> Seq<char> {
    "[Desktop Entry]\nName="@ + name + "\nIcon="@ + icon
        + "\nComment=rhythm is just a *click* away!\nExec="@ + exec
        + "\nVersion=1.0\nType=Application\nCategories=Game;"@
}

/// The launcher name of version `tag`.
pub fn entry_name(tag: &str) -> (r: String)
    ensures
        r@ == entry_name_of(tag@),
{
    concat("osu! ", tag)
}

/// The desktop entry for the program `exec` with the icon `icon`; both should
/// be absolute paths.
pub fn render_desktop_entry(name: &str, icon: &str, exec: &str) -> (r: String)
    ensures
        r@ == desktop_entry_text(name@, icon@, exec@),
{
    let mut r = String::from_str("[Desktop Entry]\nName=");
    r.append(name);
    r.append("\nIcon=");
    r.append(icon);
    r.append("\nComment=rhythm is just a *click* away!\nExec=");
    r.append(exec);
    r.append("\nVersion=1.0\nType=Application\nCategories=Game;");
    r
}

} // verus!
