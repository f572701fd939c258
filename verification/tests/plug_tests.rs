use nvim_gtk::misc::extract_name;
use nvim_gtk::plug_manager::{initial_state, reload_plan, Manager, PlugManageState, StoreSource};
use nvim_gtk::plug_store::{PlugInfo, PlugManagerConfigSource, Store};
use nvim_gtk::value::Value;
use nvim_gtk::vim_plug::{get_plugs, is_loaded, reload_command, VimPlugInfo};

#[test]
fn test_get_plug_path() {
    let plug = PlugInfo::new(
        "rust.vim".to_owned(),
        "https://git::@github.com/rust-lang/rust.vim.git".to_owned(),
    );
    assert_eq!("rust-lang/rust.vim".to_owned(), plug.get_plug_path());
}

#[test]
fn test_extract_name() {
    assert_eq!(
        Some("plugin_name".to_owned()),
        extract_name("http://github.com/somebody/plugin_name.git")
    );
}

#[test]
fn extract_name_edge_cases() {
    assert_eq!(None, extract_name("no_separator"));
    assert_eq!(None, extract_name("ends/with/"));
    assert_eq!(Some("x".to_owned()), extract_name("a\\x.git.git"));
    assert_eq!(Some("".to_owned()), extract_name("a/.git"));
}

#[test]
fn plug_path_of_other_hosts_is_the_url() {
    let plug = PlugInfo::new("p".to_owned(), "https://example.org/a/b.git".to_owned());
    assert_eq!("https://example.org/a/b.git", plug.get_plug_path());
    let plug = PlugInfo::new("q".to_owned(), "github.com".to_owned());
    assert_eq!("github.com", plug.get_plug_path());
}

fn plug(name: &str, url: &str) -> PlugInfo {
    PlugInfo::new(name.to_owned(), url.to_owned())
}

#[test]
fn store_add_refuses_clashes() {
    let mut store = Store::default();
    assert!(store.add_plug(plug("a", "https://github.com/x/a")));
    assert!(!store.add_plug(plug("a", "https://github.com/y/b")));
    assert!(!store.add_plug(plug("c", "https://github.com/x/a.git")));
    assert!(store.add_plug(plug("c", "https://github.com/x/c")));
    assert_eq!(2, store.plugs_count());
}

#[test]
fn store_remove_restore_and_clear() {
    let mut store = Store::default();
    store.add_plug(plug("a", "https://github.com/x/a"));
    store.add_plug(plug("b", "https://github.com/x/b"));
    store.add_plug(plug("c", "https://github.com/x/c"));
    store.remove_plug(1);
    assert!(store.get_plugs()[1].removed);
    store.restore_plug(1);
    assert!(!store.get_plugs()[1].removed);
    store.remove_plug(0);
    store.clear_removed();
    assert_eq!(2, store.plugs_count());
    assert_eq!("b", store.get_plugs()[0].name);
    assert_eq!("c", store.get_plugs()[1].name);
}

#[test]
fn store_move_item() {
    let mut store = Store::default();
    store.add_plug(plug("a", "https://github.com/x/a"));
    store.add_plug(plug("b", "https://github.com/x/b"));
    store.add_plug(plug("c", "https://github.com/x/c"));
    store.move_item(0, 2);
    let names: Vec<&str> = store.get_plugs().iter().map(|p| p.name.as_str()).collect();
    assert_eq!(vec!["b", "c", "a"], names);
    store.move_item(2, -1);
    let names: Vec<&str> = store.get_plugs().iter().map(|p| p.name.as_str()).collect();
    assert_eq!(vec!["b", "a", "c"], names);
}

#[test]
fn config_source_lists_kept_plugins() {
    let mut store = Store::default();
    store.add_plug(plug("rust.vim", "https://github.com/rust-lang/rust.vim.git"));
    store.add_plug(plug("gone", "https://github.com/x/gone"));
    store.remove_plug(1);
    let config = PlugManagerConfigSource::new(&store);
    assert_eq!(
        "call plug#begin()\nPlug 'rust-lang/rust.vim', { 'as': 'rust.vim' }\ncall plug#end()\n",
        config.source
    );
    // dropping the removed plugin generates the same configuration
    store.clear_removed();
    assert_eq!(config.source, PlugManagerConfigSource::new(&store).source);
}

#[test]
fn manager_generates_config_only_when_enabled() {
    let mut manager = Manager { store: Store::default(), plug_manage_state: PlugManageState::Unknown };
    assert!(manager.add_plug(plug("a", "https://github.com/x/a")));
    assert!(manager.generate_config().is_none());
    manager.store.set_enabled(true);
    let config = manager.generate_config().unwrap();
    assert_eq!("call plug#begin()\nPlug 'x/a', { 'as': 'a' }\ncall plug#end()\n", config.source);
}

#[test]
fn reload_decisions() {
    assert_eq!((PlugManageState::NvimGtk, StoreSource::Load), initial_state(true));
    assert_eq!((PlugManageState::Unknown, StoreSource::Empty), initial_state(false));
    assert_eq!(
        (PlugManageState::VimPlug, StoreSource::FromPlug),
        reload_plan(PlugManageState::Unknown, false, true, false)
    );
    assert_eq!(
        (PlugManageState::NvimGtk, StoreSource::Load),
        reload_plan(PlugManageState::VimPlug, true, true, true)
    );
    assert_eq!(
        (PlugManageState::VimPlug, StoreSource::FromPlug),
        reload_plan(PlugManageState::Unknown, false, false, true)
    );
    assert_eq!(
        (PlugManageState::NvimGtk, StoreSource::Empty),
        reload_plan(PlugManageState::NvimGtk, false, true, true)
    );
}

#[test]
fn load_from_plug_builds_store() {
    let infos = vec![VimPlugInfo::new("a".to_owned(), "https://github.com/x/a".to_owned())];
    let store = Store::load_from_plug(Ok(infos));
    assert_eq!(1, store.plugs_count());
    assert!(!store.is_enabled());
    let store = Store::load_from_plug(Err("no".to_owned()));
    assert_eq!(0, store.plugs_count());
}

fn s(t: &str) -> Value {
    Value::Str(t.to_owned())
}

#[test]
fn vim_plug_lists_plugins_in_order() {
    let plugs = Value::Table(vec![
        (s("b"), Value::Table(vec![(s("uri"), s("https://github.com/x/b"))])),
        (s("a"), Value::Table(vec![(s("uri"), s("https://github.com/x/a"))])),
    ]);
    let order = Value::Array(vec![s("a"), s("missing"), s("b")]);
    let list = get_plugs(&plugs, &order).unwrap();
    assert_eq!(2, list.len());
    assert_eq!("a", list[0].name);
    assert_eq!("https://github.com/x/b", list[1].uri);
}

#[test]
fn vim_plug_errors() {
    let order = Value::Array(vec![]);
    assert_eq!("Can't retrive g:plugs map", get_plugs(&Value::Nil, &order).unwrap_err());
    let bad_keys = Value::Table(vec![(Value::PosInt(1), Value::Nil)]);
    assert_eq!("Can't convert map key to string", get_plugs(&bad_keys, &order).unwrap_err());
    let plugs = Value::Table(vec![]);
    assert_eq!("Can't find g:plugs_order array", get_plugs(&plugs, &Value::Nil).unwrap_err());
}

#[test]
fn vim_plug_loaded_and_reload() {
    assert!(is_loaded(Some(&Value::PosInt(1))));
    assert!(!is_loaded(Some(&Value::PosInt(0))));
    assert!(!is_loaded(None));
    assert_eq!("source /tmp/x.vim", reload_command("/tmp/x.vim"));
}

#[test]
fn dialog_name_falls_back_to_path() {
    let p = nvim_gtk::plug_manager::dialog_plug_info("https://github.com/tpope/vim-fugitive.git", "fug");
    assert_eq!(("fug", "https://github.com/tpope/vim-fugitive.git", false), (p.name.as_str(), p.url.as_str(), p.removed));
    let p = nvim_gtk::plug_manager::dialog_plug_info("tpope/vim-surround", " \t");
    assert_eq!("vim-surround", p.name);
    let p = nvim_gtk::plug_manager::dialog_plug_info("plain", "");
    assert_eq!("plain", p.name);
}
