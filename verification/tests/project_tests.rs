use nvim_gtk::project::{Entry, EntryStore, Pixbuf, ProjectEntrySettings};

fn project(name: &str, path: &str) -> ProjectEntrySettings {
    ProjectEntrySettings { name: name.to_owned(), path: path.to_owned() }
}

#[test]
fn file_row_escapes_name_and_directory() {
    let e = Entry::new_from_path("/home/u/a<b>.txt");
    assert_eq!("/home/u/a<b>.txt", e.uri);
    assert_eq!("a<b>.txt", e.name);
    assert_eq!("a&lt;b&gt;.txt", e.file_name);
    assert_eq!("<small>/home/u</small>", e.path);
    assert_eq!(Pixbuf::PlainFile, e.pixbuf);
    assert!(!e.project);
    assert!(!e.stored);
}

#[test]
fn file_row_of_root_has_no_name() {
    let e = Entry::new_from_path("/");
    assert_eq!("<empty>", e.name);
    assert_eq!("&lt;empty&gt;", e.file_name);
    assert_eq!("", e.path);
}

#[test]
fn current_dir_row_of_root_is_named_by_its_path() {
    let e = Entry::new_current_project("/");
    assert_eq!("/", e.name);
    assert_eq!("", e.path);
    assert_eq!(Pixbuf::CurrentDir, e.pixbuf);
    assert_eq!("folder", e.pixbuf.icon_name());
    assert!(e.project);
    assert!(!e.stored);
}

#[test]
fn project_row_is_stored() {
    let e = Entry::new_project("R&D", "/work/rd");
    assert_eq!("R&amp;D", e.file_name);
    assert_eq!("<small>/work</small>", e.path);
    assert_eq!("user-bookmarks", e.pixbuf.icon_name());
    assert!(e.project && e.stored);
}

#[test]
fn load_puts_current_dir_first_when_not_stored() {
    let projects = vec![project("a", "/p/a")];
    let old = vec!["/f/x.rs".to_owned()];
    let s = EntryStore::load(&projects, Some("/p/b"), &old);
    assert_eq!(3, s.entries.len());
    assert_eq!("/p/b", s.entries[0].uri);
    assert_eq!(Pixbuf::CurrentDir, s.entries[0].pixbuf);
    assert_eq!("/p/a", s.entries[1].uri);
    assert_eq!("x.rs", s.entries[2].name);
    assert!(!s.changed);
    assert!(s.save().is_none());
}

#[test]
fn load_skips_current_dir_already_stored() {
    let projects = vec![project("a", "/p/a")];
    let old: Vec<String> = Vec::new();
    let s = EntryStore::load(&projects, Some("/p/a"), &old);
    assert_eq!(1, s.entries.len());
    assert_eq!(Pixbuf::Bookmarked, s.entries[0].pixbuf);
    let s = EntryStore::load(&projects, None, &old);
    assert_eq!(1, s.entries.len());
}

#[test]
fn toggling_a_project_saves_only_stored_ones() {
    let projects = vec![project("a", "/p/a"), project("b", "/p/b")];
    let old = vec!["/p/a".to_owned()];
    let mut s = EntryStore::load(&projects, Some("/p/c"), &old);
    s.toggle_stored("/p/a", true);
    assert!(!s.entries[1].stored);
    assert!(!s.entries[3].stored);
    s.toggle_stored("/p/c", false);
    assert!(s.entries[0].stored);
    let saved = s.save().unwrap();
    let names: Vec<(String, String)> = saved.projects.iter().map(|p| (p.name.clone(), p.path.clone())).collect();
    assert_eq!(vec![("c".to_owned(), "/p/c".to_owned()), ("b".to_owned(), "/p/b".to_owned())], names);
    s.toggle_stored("/p/a", false);
    assert!(s.entries[1].stored);
}

#[test]
fn toggling_an_unknown_path_changes_no_row() {
    let projects = vec![project("a", "/p/a")];
    let old = vec!["/f/y".to_owned()];
    let mut s = EntryStore::load(&projects, None, &old);
    s.toggle_stored("/f/y", false);
    assert!(!s.entries[1].stored);
    assert!(s.entries[0].stored);
    assert!(s.changed);
    assert!(s.find_mut("/f/y").is_none());
    assert!(s.find_mut("/p/a").is_some());
}

#[test]
fn populate_filters_in_upper_case() {
    let projects = vec![project("Alpha", "/p/alpha")];
    let old = vec!["/src/beta.rs".to_owned(), "/src/gamma.rs".to_owned()];
    let s = EntryStore::load(&projects, None, &old);
    assert_eq!(vec![0, 1, 2], s.populate(None));
    let f = "ALP".to_owned();
    assert_eq!(vec![0], s.populate(Some(&f)));
    let f = "src".to_owned();
    assert_eq!(vec![1, 2], s.populate(Some(&f)));
    let f = "gamma".to_owned();
    assert_eq!(vec![2], s.populate(Some(&f)));
    let f = "small".to_owned();
    assert_eq!(vec![0, 1, 2], s.populate(Some(&f)));
    let f = "zeta".to_owned();
    assert!(s.populate(Some(&f)).is_empty());
}
