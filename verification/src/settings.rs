//! Where the font comes from, and loading settings kept in a file.
use vstd::prelude::*;

verus! {

/// Who chose the font: neovim by RPC, the GNOME desktop, or nobody yet.
#[derive(PartialEq, Eq, Structural, Clone, Copy, Debug)]
pub enum FontSource {
    Rpc,
    Gnome,
    Default,
}

/// What a change of the desktop's monospace font does: a font set by RPC
/// stays; otherwise the desktop's font, where it has one, is set and becomes
/// the source. Gives the new source and the font to set, if any.
pub fn font_update(current: FontSource, desktop_font: Option<String>) -> (r: (FontSource, Option<String>))
    ensures
        current == FontSource::Rpc ==> r.0 == FontSource::Rpc && r.1 is None,
        current != FontSource::Rpc && desktop_font is Some ==> r.0 == FontSource::Gnome && r.1 == desktop_font,
        current != FontSource::Rpc && desktop_font is None ==> r.0 == current && r.1 is None,
{
    if current == FontSource::Rpc {
        (FontSource::Rpc, None)
    } else {
        match desktop_font {
            Some(name) => (FontSource::Gnome, Some(name)),
            None => (current, None),
        }
    }
}

/// Settings that are kept in a file of the configuration directory. An impl
/// is held to give one fixed value from `empty` and, for the same text, the
/// same result from `from_str`; an impl outside verified code is taken at its
/// word on that. The two spec functions have a default body because an impl
/// in ordinary Rust cannot define spec functions: that body stands for
/// whatever fixed value the impl gives, and no proof here learns which.
pub trait SettingsLoader: Sized {
    /// The file's name.
    const SETTINGS_FILE: &'static str;

    /// What `empty` gives: one fixed value for the settings type.
    closed spec fn spec_empty() -> Self {
        vstd::pervasive::arbitrary()
    }

    /// What `from_str` gives for a text: the same result for the same text.
    closed spec fn spec_from_str(s: Seq<char>) -> Result<Self, String> {
        vstd::pervasive::arbitrary()
    }

    /// The settings when there are none.
    fn empty() -> (r: Self)
        ensures
            r == Self::spec_empty(),
    ;

    /// Reads the settings from the file's text.
    fn from_str(s: &str) -> (r: Result<Self, String>)
        ensures
            r == Self::spec_from_str(s@),
    ;
}

/// Settings read from a file: parsed from its text where it exists, empty where
/// it does not. What parsing gives is up to the settings type.
pub fn load_from_contents<T: SettingsLoader>(contents: Option<&str>) -> (r: Result<T, String>)
    ensures
        r == (match contents {
            Some(text) => T::spec_from_str(text@),
            None => Ok(T::spec_empty()),
        }),
{
    match contents {
        Some(text) => T::from_str(text),
        None => Ok(T::empty()),
    }
}

/// The settings loaded, or empty ones where loading failed.
pub fn loaded_or_empty<T: SettingsLoader>(loaded: Result<T, String>) -> (r: T)
    ensures
        loaded is Ok ==> r == loaded->Ok_0,
        loaded is Err ==> r == T::spec_empty(),
{
    match loaded {
        Ok(settings) => settings,
        Err(_) => T::empty(),
    }
}

} // verus!
