//! What vim-plug reports about the plugins it manages.
use vstd::prelude::*;

use crate::text::string_from;
use crate::value::{all_keys_str, attrs_lookup, lemma_attrs_get, AttrsMap, Value};

verus! {

/// A plugin as vim-plug lists it: its name and the URI it is fetched from.
#[derive(Debug)]
pub struct VimPlugInfo {
    pub name: String,
    pub uri: String,
}

impl VimPlugInfo {
    pub fn new(name: String, uri: String) -> (p: Self)
        ensures
            p.name == name,
            p.uri == uri,
    {
        VimPlugInfo { name, uri }
    }
}

/// The plugin `name` (an entry of `g:plugs_order`) stands for in `g:plugs`:
/// its name and URI, where the name is a string, `g:plugs` describes it by a
/// map with string keys, and that map has a string `uri`.
pub open spec fn plug_entry(plugs: Seq<(Value, Value)>, name: Value) -> Option<(Seq<char>, Seq<char>)> {
    match name.spec_as_str() {
        None => None,
        Some(n) => match attrs_lookup(plugs, n) {
            Some(Value::Table(desc)) => if all_keys_str(desc@) {
                match attrs_lookup(desc@, "uri"@) {
                    Some(u) => match u.spec_as_str() {
                        Some(uri) => Some((n, uri)),
                        None => None,
                    },
                    None => None,
                }
            } else {
                None
            },
            _ => None,
        },
    }
}

/// The plugins of `g:plugs_order` that `g:plugs` describes, in order.
pub open spec fn plug_entries(plugs: Seq<(Value, Value)>, order: Seq<Value>) -> Seq<(Seq<char>, Seq<char>)>
    decreases order.len(),
{
    if order.len() == 0 {
        Seq::empty()
    } else {
        match plug_entry(plugs, order.last()) {
            Some(e) => plug_entries(plugs, order.drop_last()).push(e),
            None => plug_entries(plugs, order.drop_last()),
        }
    }
}

/// The view of a list of plugins.
pub open spec fn infos_view(v: Seq<VimPlugInfo>) -> Seq<(Seq<char>, Seq<char>)> {
    v.map_values(|p: VimPlugInfo| (p.name@, p.uri@))
}

fn entry(plugs_map: &AttrsMap, plugs: &Vec<(Value, Value)>, n: &Value) -> (r: Option<VimPlugInfo>)
    requires
        plugs_map.reads_as(plugs@),
    ensures
        r is Some <==> plug_entry(plugs@, *n) is Some,
        r matches Some(p) ==> (p.name@, p.uri@) == plug_entry(plugs@, *n)->0,
{
    let name = match n.as_str() {
        Some(s) => s,
        None => return None,
    };
    proof {
        lemma_attrs_get(*plugs_map, plugs@, name@);
    }
    let desc = match plugs_map.get(name) {
        Some(d) => d,
        None => return None,
    };
    let pairs = match desc.as_map() {
        Some(p) => p,
        None => return None,
    };
    let desc_map = match AttrsMap::from_pairs(pairs) {
        Ok(m) => m,
        Err(_) => return None,
    };
    proof {
        lemma_attrs_get(desc_map, pairs@, "uri"@);
    }
    match desc_map.get("uri") {
        Some(u) => match u.as_str() {
            Some(uri) => Some(VimPlugInfo::new(string_from(name), string_from(uri))),
            None => None,
        },
        None => None,
    }
}

/// Reads the plugins from the values of `g:plugs` and `g:plugs_order`.
pub fn get_plugs(g_plugs: &Value, g_plugs_order: &Value) -> (r: Result<Vec<VimPlugInfo>, String>)
    ensures
        match r {
            Err(e) => {
                ||| (!(g_plugs is Table) && e@ == "Can't retrive g:plugs map"@)
                ||| (g_plugs matches Value::Table(p) && !all_keys_str(p@) && e@ == "Can't convert map key to string"@)
                ||| (g_plugs matches Value::Table(p) && all_keys_str(p@) && !(g_plugs_order is Array)
                    && e@ == "Can't find g:plugs_order array"@)
            },
            Ok(v) => g_plugs matches Value::Table(p) && (all_keys_str(p@) && (g_plugs_order matches Value::Array(o)
                && infos_view(v@) == plug_entries(p@, o@))),
        },
        r is Ok <==> (g_plugs matches Value::Table(p) && (all_keys_str(p@) && g_plugs_order is Array)),
{
    let plugs = match g_plugs.as_map() {
        Some(p) => p,
        None => return Err(string_from("Can't retrive g:plugs map")),
    };
    let plugs_map = match AttrsMap::from_pairs(plugs) {
        Ok(m) => m,
        Err(e) => return Err(e),
    };
    let order = match g_plugs_order.as_array() {
        Some(o) => o,
        None => return Err(string_from("Can't find g:plugs_order array")),
    };
    let mut infos: Vec<VimPlugInfo> = Vec::new();
    let mut i: usize = 0;
    while i < order.len()
        invariant
            i <= order@.len(),
            plugs_map.reads_as(plugs@),
            infos_view(infos@) == plug_entries(plugs@, order@.take(i as int)),
        decreases order@.len() - i,
    {
        proof {
            let t = order@.take(i + 1);
            assert(t.drop_last() =~= order@.take(i as int));
            assert(t.last() == order@[i as int]);
        }
        match entry(&plugs_map, plugs, &order[i]) {
            Some(p) => {
                let ghost before = infos@;
                infos.push(p);
                proof {
                    assert(infos_view(infos@) =~= infos_view(before).push((p.name@, p.uri@)));
                }
            },
            None => {},
        }
        i = i + 1;
    }
    proof {
        assert(order@.take(i as int) =~= order@);
    }
    Ok(infos)
}

/// Whether vim-plug is loaded, from the value of `exists('g:loaded_plug')`
/// (`None` when it could not be read): a positive integer says it is.
pub fn is_loaded(loaded_plug: Option<&Value>) -> (r: bool)
    ensures
        r == (loaded_plug matches Some(v) && v.spec_as_i64() matches Some(n) && n > 0),
{
    match loaded_plug {
        Some(v) => match v.as_i64() {
            Some(n) => n > 0,
            None => false,
        },
        None => false,
    }
}

/// The command that sources the plugin configuration at `path`.
pub fn reload_command(path: &str) -> (cmd: String)
    ensures
        cmd@ == "source "@ + path@,
{
    let mut cmd = string_from("source ");
    crate::text::push_str(&mut cmd, path);
    cmd
}

} // verus!
