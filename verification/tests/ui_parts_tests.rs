use nvim_gtk::popup_menu::{column_widths, ColumnWidths};
use nvim_gtk::browser::{is_shown, open_file_command, tree_rows, EntryKind, sorts_before, update_dir_list, update_dir_rows, DirRow};
use nvim_gtk::highlight::{Highlight, HighlightMap};
use nvim_gtk::notify::clipboard_reply;
use nvim_gtk::popup_menu::find_scroll_count;
use nvim_gtk::project::list_old_files;
use nvim_gtk::redraw::remove_or_delay_uneeded_events;
use nvim_gtk::value::{AttrsMap, Value};
use nvim_gtk::vimawesome::request_url;
use nvim_gtk::window::window_title;
use nvim_gtk::input::im_input;
use nvim_gtk::misc::nvim_init_error_markup;

fn s(t: &str) -> Value {
    Value::Str(t.to_owned())
}

fn row(name: &str, icon: &str, path: &str) -> DirRow {
    DirRow { name: name.to_owned(), icon: icon.to_owned(), path: path.to_owned() }
}

fn comps(list: &[(&str, &str)]) -> Vec<(String, String)> {
    list.iter().map(|(a, b)| (a.to_string(), b.to_string())).collect()
}

#[test]
fn dir_list_keeps_subdirectories_of_a_prefix() {
    let rows = vec![
        row("/", "folder-symbolic", "/"),
        row("home", "folder-symbolic", "/home"),
        row("u", "folder-open-symbolic", "/home/u"),
    ];
    let (rows, active) = update_dir_rows(rows, &comps(&[("/", "/"), ("home", "/home")]));
    assert_eq!(Some(1), active);
    assert_eq!(3, rows.len());
    assert_eq!("folder-open-symbolic", rows[1].icon);
    assert_eq!("u", rows[2].name);
    assert_eq!("folder-symbolic", rows[2].icon);
    assert_eq!("/home/u", rows[2].path);
}

#[test]
fn dir_list_drops_rows_of_another_branch() {
    let rows = vec![
        row("/", "folder-symbolic", "/"),
        row("home", "folder-symbolic", "/home"),
        row("u", "folder-open-symbolic", "/home/u"),
    ];
    let (rows, active) = update_dir_rows(rows, &comps(&[("/", "/"), ("tmp", "/tmp")]));
    assert_eq!(Some(1), active);
    assert_eq!(2, rows.len());
    assert_eq!("tmp", rows[1].name);
    // with no component, every row stays, closed
    let (rows, active) = update_dir_rows(rows, &comps(&[]));
    assert_eq!(None, active);
    assert_eq!(2, rows.len());
    assert_eq!("folder-symbolic", rows[1].icon);
}

#[test]
fn browser_filters_and_orders() {
    assert!(!is_shown(".git", false));
    assert!(!is_shown("notes~", false));
    assert!(is_shown("src", false));
    assert!(is_shown(".git", true));
    assert!(sorts_before(true, false, false));
    assert!(!sorts_before(false, true, true));
    assert!(sorts_before(false, false, true));
}

#[test]
fn popup_scroll_counts() {
    assert_eq!(4, find_scroll_count(-1, 3));
    assert_eq!(2, find_scroll_count(1, 3));
    assert_eq!(2, find_scroll_count(5, 3));
}

#[test]
fn old_files_skip_terminals() {
    let v = Value::Array(vec![s("/a.rs"), s("term://bash"), Value::Nil, s("/b.rs")]);
    assert_eq!(vec!["/a.rs".to_owned(), "/b.rs".to_owned()], list_old_files(&v));
    assert!(list_old_files(&Value::Nil).is_empty());
}

#[test]
fn window_titles() {
    assert_eq!("[No Name]", window_title("", "/home"));
    assert_eq!("src/lib.rs", window_title("/p/src/lib.rs", "/p"));
    assert_eq!("/q/x.rs", window_title("/q/x.rs", "/p"));
}

#[test]
fn vimawesome_urls() {
    assert_eq!("https://vimawesome.com/api/plugins?query=rust&page=1", request_url(Some("rust")));
    assert_eq!("https://vimawesome.com/api/plugins?query=&page=1", request_url(None));
}

#[test]
fn highlight_set_then_get() {
    let pairs = vec![(s("bold"), Value::Boolean(true)), (s("foreground"), Value::PosInt(0x102030))];
    let attrs = AttrsMap::from_pairs(&pairs).unwrap();
    let mut hls = HighlightMap::new();
    hls.set(5, &attrs, &vec![]);
    assert_eq!(Highlight::from_value_map(&attrs), hls.get(Some(5)));
}

#[test]
fn filtering_twice_changes_nothing() {
    let ev = |name: &str| Value::Array(vec![s(name)]);
    let mut once = vec![ev("popupmenu_hide"), ev("grid_line"), ev("popupmenu_hide"), ev("flush")];
    remove_or_delay_uneeded_events(&mut once);
    let kept = once.len();
    remove_or_delay_uneeded_events(&mut once);
    assert_eq!(kept, once.len());
    assert_eq!(2, kept);
}

#[test]
fn plain_text_input_passes_unchanged() {
    assert_eq!("hello, wörld!", im_input("hello, wörld!"));
}

#[test]
fn escaped_markup_has_no_tags_from_text() {
    let m = nvim_init_error_markup("<b>x</b>");
    assert!(m.contains("&lt;b&gt;x&lt;/b&gt;"));
}

#[test]
fn clipboard_lines_join_back() {
    let text = "one\n\ntwo\n";
    match clipboard_reply(text) {
        Value::Array(lines) => {
            let joined: Vec<&str> = lines.iter().map(|l| l.as_str().unwrap()).collect();
            assert_eq!(text, joined.join("\n"));
        }
        other => panic!("unexpected {:?}", other),
    }
}

fn menu_rows(rows: &[[&str; 4]]) -> Vec<Vec<String>> {
    rows.iter().map(|r| r.iter().map(|c| c.to_string()).collect()).collect()
}

#[test]
fn longest_entries_are_the_last_of_the_longest() {
    let rows = menu_rows(&[["ab", "", "m", ""], ["cd", "", "mmm", ""], ["e", "", "nnn", ""]]);
    let items = nvim_gtk::redraw::CompleteItem::map(&rows);
    assert_eq!(1, nvim_gtk::popup_menu::longest_word(&items));
    assert_eq!(2, nvim_gtk::popup_menu::longest_menu(&items));
    assert!(!nvim_gtk::popup_menu::kind_exists(&items));
    let rows = menu_rows(&[["ab", "", "", ""], ["c", "v", "", ""]]);
    let items = nvim_gtk::redraw::CompleteItem::map(&rows);
    assert!(nvim_gtk::popup_menu::kind_exists(&items));
    assert_eq!(0, nvim_gtk::popup_menu::longest_word(&items));
}

#[test]
fn column_widths_share_the_room() {
    assert_eq!(
        ColumnWidths { kind: Some(25), word: 84, menu: None },
        column_widths(true, 100, 2, 200, 16, None)
    );
    assert_eq!(
        ColumnWidths { kind: None, word: 49, menu: Some(15) },
        column_widths(false, 100, 2, 40, 16, Some(6))
    );
    assert_eq!(
        ColumnWidths { kind: None, word: 100, menu: None },
        column_widths(false, 100, 0, 300, 0, None)
    );
}

#[test]
fn dir_list_follows_the_directory() {
    let rows = vec![
        row("/", "folder-symbolic", "/"),
        row("home", "folder-symbolic", "/home"),
        row("u", "folder-symbolic", "/home/u"),
        row("src", "folder-open-symbolic", "/home/u/src"),
    ];
    let (rows, active) = update_dir_list(rows, "/home/u");
    assert_eq!(Some(2), active);
    assert_eq!(4, rows.len());
    assert_eq!("/", rows[0].path);
    assert_eq!("/home", rows[1].path);
    assert_eq!("u", rows[2].name);
    assert_eq!("/home/u", rows[2].path);
    assert_eq!("folder-open-symbolic", rows[2].icon);
    assert_eq!("folder-symbolic", rows[3].icon);
    let (rows, active) = update_dir_list(rows, "/tmp/x/");
    assert_eq!(Some(2), active);
    assert_eq!(3, rows.len());
    assert_eq!("/tmp/x", rows[2].path);
    assert_eq!("x", rows[2].name);
}

#[test]
fn browser_opens_files_relative_to_the_working_directory() {
    assert_eq!(Some(":e src/main.rs".to_owned()), open_file_command("/home/u", "/home/u/src/main.rs"));
    assert_eq!(Some(":e /etc/my\\ file".to_owned()), open_file_command("/home/u", "/etc/my file"));
}

#[test]
fn tree_rows_list_directories_first_by_path() {
    let e = |n: &str, k: EntryKind, full: bool| (n.to_owned(), format!("/p/{}", n), k, full);
    let entries = vec![
        e("b.txt", EntryKind::File, false),
        e(".git", EntryKind::Dir, true),
        e("src", EntryKind::Dir, true),
        e("a.txt", EntryKind::File, false),
        e("empty", EntryKind::Dir, false),
        e("a.txt~", EntryKind::File, false),
    ];
    let rows = tree_rows(entries.clone(), false);
    let names: Vec<&str> = rows.iter().map(|r| r.name.as_str()).collect();
    assert_eq!(vec!["empty", "src", "a.txt", "b.txt"], names);
    assert_eq!("folder-symbolic", rows[0].icon);
    assert!(!rows[0].placeholder);
    assert!(rows[1].placeholder);
    assert_eq!("text-x-generic-symbolic", rows[2].icon);
    assert_eq!("/p/a.txt", rows[2].path);
    let rows = tree_rows(entries, true);
    let names: Vec<&str> = rows.iter().map(|r| r.name.as_str()).collect();
    assert_eq!(vec![".git", "empty", "src", "a.txt", "a.txt~", "b.txt"], names);
}

#[test]
fn tree_rows_are_a_sorted_permutation_of_shown_entries() {
    let e = |n: &str, k: EntryKind| (n.to_owned(), format!("/q/{}", n), k, false);
    let entries = vec![
        e("zeta", EntryKind::File),
        e("Beta", EntryKind::Dir),
        e("alpha", EntryKind::Dir),
        e("beta", EntryKind::File),
        e("Alpha", EntryKind::File),
        e("a", EntryKind::File),
    ];
    let rows = tree_rows(entries.clone(), true);
    assert_eq!(entries.len(), rows.len());
    let names: Vec<&str> = rows.iter().map(|r| r.name.as_str()).collect();
    assert_eq!(vec!["Beta", "alpha", "Alpha", "a", "beta", "zeta"], names);
    for w in rows.windows(2) {
        let (l, r) = (&w[0], &w[1]);
        let l_dir = matches!(l.kind, EntryKind::Dir);
        let r_dir = matches!(r.kind, EntryKind::Dir);
        assert!(!sorts_before(r_dir, l_dir, r.path < l.path));
    }
}
