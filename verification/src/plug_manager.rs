//! Who manages the plugins (this GUI, vim-plug, or not known yet), and the
//! decisions on where the plugin list comes from.
use vstd::prelude::*;

use crate::itemize::{is_whitespace, spec_is_whitespace};
use crate::misc::{extract_name, plugin_name};
use crate::plug_store::{clashes, plug_view, PlugInfo, PlugManagerConfigSource, Store};
use crate::text::{string_from, to_chars};

verus! {

#[derive(Clone, Copy, PartialEq, Eq, Structural, Debug)]
pub enum PlugManageState {
    NvimGtk,
    VimPlug,
    Unknown,
}

/// Where the plugin store is to be taken from.
#[derive(Clone, Copy, PartialEq, Eq, Structural, Debug)]
pub enum StoreSource {
    /// The GUI's own plugin file.
    Load,
    /// The plugins vim-plug reports.
    FromPlug,
    /// An empty store.
    Empty,
}

/// At start: the GUI manages the plugins when its plugin file exists.
pub fn initial_state(config_exists: bool) -> (r: (PlugManageState, StoreSource))
    ensures
        r == (if config_exists {
            (PlugManageState::NvimGtk, StoreSource::Load)
        } else {
            (PlugManageState::Unknown, StoreSource::Empty)
        }),
{
    if config_exists {
        (PlugManageState::NvimGtk, StoreSource::Load)
    } else {
        (PlugManageState::Unknown, StoreSource::Empty)
    }
}

/// What a reload decides, from the current state, whether the plugin file
/// exists, and the two answers to "is vim-plug loaded?" (asked a second time
/// only when the state is still unknown after the first decision).
pub open spec fn spec_reload(
    state: PlugManageState,
    config_exists: bool,
    plug_loaded: bool,
    plug_loaded_again: bool,
) -> (PlugManageState, StoreSource) {
    let first = match state {
        PlugManageState::Unknown => if plug_loaded {
            (PlugManageState::VimPlug, StoreSource::FromPlug)
        } else {
            (PlugManageState::Unknown, StoreSource::Empty)
        },
        PlugManageState::NvimGtk => if config_exists {
            (PlugManageState::NvimGtk, StoreSource::Load)
        } else {
            (PlugManageState::NvimGtk, StoreSource::Empty)
        },
        PlugManageState::VimPlug => if config_exists {
            (PlugManageState::NvimGtk, StoreSource::Load)
        } else {
            (PlugManageState::VimPlug, StoreSource::Empty)
        },
    };
    if first.0 == PlugManageState::Unknown && plug_loaded_again {
        (PlugManageState::VimPlug, StoreSource::FromPlug)
    } else {
        first
    }
}

pub fn reload_plan(
    state: PlugManageState,
    config_exists: bool,
    plug_loaded: bool,
    plug_loaded_again: bool,
) -> (r: (PlugManageState, StoreSource))
    ensures
        r == spec_reload(state, config_exists, plug_loaded, plug_loaded_again),
{
    let first = match state {
        PlugManageState::Unknown => if plug_loaded {
            (PlugManageState::VimPlug, StoreSource::FromPlug)
        } else {
            (PlugManageState::Unknown, StoreSource::Empty)
        },
        PlugManageState::NvimGtk => if config_exists {
            (PlugManageState::NvimGtk, StoreSource::Load)
        } else {
            (PlugManageState::NvimGtk, StoreSource::Empty)
        },
        PlugManageState::VimPlug => if config_exists {
            (PlugManageState::NvimGtk, StoreSource::Load)
        } else {
            (PlugManageState::VimPlug, StoreSource::Empty)
        },
    };
    if first.0 == PlugManageState::Unknown && plug_loaded_again {
        (PlugManageState::VimPlug, StoreSource::FromPlug)
    } else {
        first
    }
}

/// Once the GUI's own plugin file exists, a reload always hands management
/// to the GUI and loads that file; and once managed, plugins never go back
/// to an unknown manager.
pub proof fn law_reload_settles(state: PlugManageState, plug_loaded: bool, again: bool)
    ensures
        state != PlugManageState::Unknown ==> spec_reload(state, true, plug_loaded, again) == (
            PlugManageState::NvimGtk,
            StoreSource::Load,
        ),
        state != PlugManageState::Unknown ==> spec_reload(state, false, plug_loaded, again).0 == state,
{
}

/// The plugin manager: the store and who manages it.
pub struct Manager {
    pub store: Store,
    pub plug_manage_state: PlugManageState,
}

impl Manager {
    /// The vim-plug configuration to source, when the GUI manages plugins.
    pub fn generate_config(&self) -> (r: Option<PlugManagerConfigSource>)
        ensures
            r is Some <==> self.store.settings.enabled,
            r matches Some(c) ==> c.source@ == "call plug#begin()\n"@ + crate::plug_store::plug_lines(
                self.store.settings.plugs@,
            ) + "call plug#end()\n"@,
    {
        if self.store.is_enabled() {
            Some(PlugManagerConfigSource::new(&self.store))
        } else {
            None
        }
    }

    pub fn clear_removed(&mut self)
        ensures
            final(self).store.settings.plugs@ == crate::plug_store::kept(old(self).store.settings.plugs@),
            final(self).store.settings.enabled == old(self).store.settings.enabled,
            final(self).plug_manage_state == old(self).plug_manage_state,
    {
        self.store.clear_removed();
    }

    pub fn add_plug(&mut self, plug: PlugInfo) -> (added: bool)
        ensures
            added == !clashes(old(self).store.settings.plugs@, plug),
            added ==> final(self).store.settings.plugs@ == old(self).store.settings.plugs@.push(plug),
            !added ==> final(self).store.settings.plugs@ == old(self).store.settings.plugs@,
            final(self).store.settings.enabled == old(self).store.settings.enabled,
            final(self).plug_manage_state == old(self).plug_manage_state,
    {
        self.store.add_plug(plug)
    }

    pub fn move_item(&mut self, idx: usize, offset: i32)
        requires
            idx < old(self).store.settings.plugs@.len(),
            idx <= i32::MAX,
            0 <= idx + offset < old(self).store.settings.plugs@.len(),
            idx + offset <= i32::MAX,
        ensures
            final(self).store.settings.plugs@ == old(self).store.settings.plugs@.remove(idx as int).insert(
                idx + offset,
                old(self).store.settings.plugs@[idx as int],
            ),
            final(self).store.settings.enabled == old(self).store.settings.enabled,
            final(self).plug_manage_state == old(self).plug_manage_state,
    {
        self.store.move_item(idx, offset);
    }
}

/// Text that trims to nothing: whitespace only.
pub open spec fn is_blank(s: Seq<char>) -> bool {
    forall|i: int| 0 <= i < s.len() ==> spec_is_whitespace(#[trigger] s[i])
}

/// The name a plugin added in the dialog gets: the name entered, unless it
/// is blank; else the name taken from the repository path; else the path.
pub open spec fn dialog_name(name: Seq<char>, path: Seq<char>) -> Seq<char> {
    if !is_blank(name) {
        name
    } else {
        match plugin_name(path) {
            Some(n) => n,
            None => path,
        }
    }
}

fn blank(s: &str) -> (r: bool)
    ensures
        r == is_blank(s@),
{
    let chars = to_chars(s);
    let mut i: usize = 0;
    while i < chars.len()
        invariant
            chars@ == s@,
            i <= chars@.len(),
            forall|k: int| 0 <= k < i ==> spec_is_whitespace(#[trigger] chars@[k]),
        decreases chars@.len() - i,
    {
        if !is_whitespace(chars[i]) {
            return false;
        }
        i = i + 1;
    }
    true
}

/// The plugin that the add-plugin dialog gives for the repository path and
/// the name entered.
pub fn dialog_plug_info(path: &str, name: &str) -> (p: PlugInfo)
    ensures
        plug_view(p) == (dialog_name(name@, path@), path@, false),
{
    let plug_name = if !blank(name) {
        string_from(name)
    } else {
        match extract_name(path) {
            Some(n) => n,
            None => string_from(path),
        }
    };
    PlugInfo::new(plug_name, string_from(path))
}

} // verus!
