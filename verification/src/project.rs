//! The projects list: the stored projects, the current directory and the
//! files neovim remembers, with what is stored and what a filter shows.
use vstd::prelude::*;

use std::path::Path;

use crate::misc::{encode_minimal, html_escaped};
use crate::text::{push_str, str_eq, string_from};
use crate::value::Value;

verus! {

/// A terminal buffer's name, which the list leaves out.
pub open spec fn is_terminal(path: Seq<char>) -> bool {
    path.len() >= 5 && path.take(5) == "term:"@
}

/// The paths of `v:oldfiles` that the list shows, in order: the strings that
/// are not terminal buffers.
pub open spec fn shown_old_files(files: Seq<Value>) -> Seq<Seq<char>>
    decreases files.len(),
{
    if files.len() == 0 {
        Seq::empty()
    } else {
        let p = shown_old_files(files.drop_last());
        match files.last().spec_as_str() {
            Some(s) => if is_terminal(s) {
                p
            } else {
                p.push(s)
            },
            None => p,
        }
    }
}

fn starts_with_term(s: &str) -> (r: bool)
    ensures
        r == is_terminal(s@),
{
    let chars = crate::text::to_chars(s);
    proof {
        reveal_strlit("term:");
    }
    if chars.len() < 5 {
        return false;
    }
    let r = chars[0] == 't' && chars[1] == 'e' && chars[2] == 'r' && chars[3] == 'm' && chars[4] == ':';
    proof {
        if r {
            assert(chars@.take(5) =~= "term:"@);
        } else if chars@.take(5) == "term:"@ {
            assert(chars@.take(5)[0] == 't' && chars@.take(5)[1] == 'e' && chars@.take(5)[2] == 'r');
            assert(chars@.take(5)[3] == 'm' && chars@.take(5)[4] == ':');
        }
    }
    r
}

/// The files to list from the value of `v:oldfiles`: none where it is not
/// an array.
pub fn list_old_files(oldfiles: &Value) -> (r: Vec<String>)
    ensures
        r@.map_values(|s: String| s@) == (match oldfiles {
            Value::Array(a) => shown_old_files(a@),
            _ => Seq::empty(),
        }),
{
    let files = match oldfiles.as_array() {
        Some(a) => a,
        None => {
            let r: Vec<String> = Vec::new();
            proof {
                assert(r@.map_values(|s: String| s@) =~= Seq::<Seq<char>>::empty());
            }
            return r;
        },
    };
    let mut out: Vec<String> = Vec::new();
    let mut i: usize = 0;
    proof {
        assert(files@.take(0) =~= Seq::<Value>::empty());
        assert(out@.map_values(|s: String| s@) =~= Seq::<Seq<char>>::empty());
    }
    while i < files.len()
        invariant
            i <= files@.len(),
            *oldfiles == Value::Array(*files),
            out@.map_values(|s: String| s@) == shown_old_files(files@.take(i as int)),
        decreases files@.len() - i,
    {
        proof {
            assert(files@.take(i + 1).drop_last() =~= files@.take(i as int));
            assert(files@.take(i + 1).last() == files@[i as int]);
        }
        match files[i].as_str() {
            Some(path) => {
                if !starts_with_term(path) {
                    let ghost before = out@.map_values(|s: String| s@);
                    out.push(string_from(path));
                    proof {
                        assert(out@.map_values(|s: String| s@) =~= before.push(path@));
                    }
                }
            },
            None => {},
        }
        i = i + 1;
    }
    proof {
        assert(files@.take(i as int) =~= files@);
    }
    out
}


/// What `Path::new(p).file_name()` gives for the path `p` (on Unix), as text.
pub uninterp spec fn path_file_name(p: Seq<char>) -> Option<Seq<char>>;

/// What `Path::new(p).parent()` gives for the path `p` (on Unix), as text.
pub uninterp spec fn path_parent(p: Seq<char>) -> Option<Seq<char>>;

/// `Path::file_name` of a path given as text: claimed to give the name that
/// `path_file_name` names. A part of a `str` is valid UTF-8, so the text is
/// taken whole. Unix's rules on paths are not written out here.
#[verifier::external_body]
fn file_name(p: &str) -> (r: Option<String>)
    ensures
        match r {
            Some(f) => path_file_name(p@) == Some(f@),
            None => path_file_name(p@) is None,
        },
{
    match Path::new(p).file_name() {
        Some(f) => Some(f.to_string_lossy().into_owned()),
        None => None,
    }
}

/// `Path::parent` of a path given as text: claimed to give the parent that
/// `path_parent` names. Unix's rules on paths are not written out here.
#[verifier::external_body]
fn parent(p: &str) -> (r: Option<String>)
    ensures
        match r {
            Some(d) => path_parent(p@) == Some(d@),
            None => path_parent(p@) is None,
        },
{
    match Path::new(p).parent() {
        Some(d) => Some(d.to_string_lossy().into_owned()),
        None => None,
    }
}

/// The icon a row of the list shows.
#[derive(Clone, Copy, PartialEq, Eq, Structural, Debug)]
pub enum Pixbuf {
    Bookmarked,
    CurrentDir,
    PlainFile,
}

impl Pixbuf {
    /// The icon's name in the icon theme.
    pub fn icon_name(&self) -> (r: &'static str)
        ensures
            r@ == (match *self {
                Pixbuf::Bookmarked => "user-bookmarks"@,
                Pixbuf::CurrentDir => "folder"@,
                Pixbuf::PlainFile => "text-x-generic"@,
            }),
    {
        match self {
            Pixbuf::Bookmarked => "user-bookmarks",
            Pixbuf::CurrentDir => "folder",
            Pixbuf::PlainFile => "text-x-generic",
        }
    }
}

/// A row of the projects list.
pub struct Entry {
    pub uri: String,
    /// The directory, as escaped markup.
    pub path: String,
    /// The name, escaped.
    pub file_name: String,
    pub name: String,
    pub pixbuf: Pixbuf,
    pub project: bool,
    pub stored: bool,
}

/// The directory line of a row: the parent, escaped, in small type; nothing
/// where the path has no parent.
pub open spec fn parent_markup(uri: Seq<char>) -> Seq<char> {
    match path_parent(uri) {
        Some(d) => "<small>"@ + html_escaped(d) + "</small>"@,
        None => Seq::empty(),
    }
}

/// The name a row of a file gives: the path's last component, else a mark.
pub open spec fn file_entry_name(uri: Seq<char>) -> Seq<char> {
    match path_file_name(uri) {
        Some(f) => f,
        None => "<empty>"@,
    }
}

/// The name the row of the current directory gives: its last component,
/// else the whole path.
pub open spec fn dir_entry_name(uri: Seq<char>) -> Seq<char> {
    match path_file_name(uri) {
        Some(f) => f,
        None => uri,
    }
}

fn parent_line(uri: &str) -> (r: String)
    ensures
        r@ == parent_markup(uri@),
{
    proof {
        reveal_strlit("<small>");
        reveal_strlit("</small>");
    }
    match parent(uri) {
        Some(d) => {
            let mut m = string_from("<small>");
            let e = encode_minimal(d.as_str());
            push_str(&mut m, e.as_str());
            push_str(&mut m, "</small>");
            m
        },
        None => {
            proof {
                reveal_strlit("");
            }
            string_from("")
        },
    }
}

impl Entry {
    /// The row of a stored project.
    pub fn new_project(name: &str, uri: &str) -> (e: Entry)
        ensures
            e.uri@ == uri@,
            e.path@ == parent_markup(uri@),
            e.file_name@ == html_escaped(name@),
            e.name@ == name@,
            e.pixbuf == Pixbuf::Bookmarked,
            e.project,
            e.stored,
    {
        Entry {
            uri: string_from(uri),
            path: parent_line(uri),
            file_name: encode_minimal(name),
            name: string_from(name),
            pixbuf: Pixbuf::Bookmarked,
            project: true,
            stored: true,
        }
    }

    /// The row of neovim's current directory, not stored.
    pub fn new_current_project(uri: &str) -> (e: Entry)
        ensures
            e.uri@ == uri@,
            e.path@ == parent_markup(uri@),
            e.file_name@ == html_escaped(dir_entry_name(uri@)),
            e.name@ == dir_entry_name(uri@),
            e.pixbuf == Pixbuf::CurrentDir,
            e.project,
            !e.stored,
    {
        let name = match file_name(uri) {
            Some(f) => f,
            None => string_from(uri),
        };
        Entry {
            uri: string_from(uri),
            path: parent_line(uri),
            file_name: encode_minimal(name.as_str()),
            name,
            pixbuf: Pixbuf::CurrentDir,
            project: true,
            stored: false,
        }
    }

    /// The row of a recently opened file.
    pub fn new_from_path(uri: &str) -> (e: Entry)
        ensures
            e.uri@ == uri@,
            e.path@ == parent_markup(uri@),
            e.file_name@ == html_escaped(file_entry_name(uri@)),
            e.name@ == file_entry_name(uri@),
            e.pixbuf == Pixbuf::PlainFile,
            !e.project,
            !e.stored,
    {
        proof {
            reveal_strlit("<empty>");
        }
        let name = match file_name(uri) {
            Some(f) => f,
            None => string_from("<empty>"),
        };
        Entry {
            uri: string_from(uri),
            path: parent_line(uri),
            file_name: encode_minimal(name.as_str()),
            name,
            pixbuf: Pixbuf::PlainFile,
            project: false,
            stored: false,
        }
    }
}


/// A stored project, as the settings file keeps it.
pub struct ProjectEntrySettings {
    pub name: String,
    pub path: String,
}

/// The stored projects.
pub struct ProjectSettings {
    pub projects: Vec<ProjectEntrySettings>,
}

/// The rows of the projects list, and whether the stored projects changed.
pub struct EntryStore {
    pub entries: Vec<Entry>,
    pub changed: bool,
}

/// `e` is the row that `Entry::new_project(name, uri)` makes.
pub open spec fn is_project_row(e: Entry, name: Seq<char>, uri: Seq<char>) -> bool {
    &&& e.uri@ == uri
    &&& e.path@ == parent_markup(uri)
    &&& e.file_name@ == html_escaped(name)
    &&& e.name@ == name
    &&& e.pixbuf == Pixbuf::Bookmarked
    &&& e.project
    &&& e.stored
}

/// `e` is the row that `Entry::new_current_project(uri)` makes.
pub open spec fn is_current_dir_row(e: Entry, uri: Seq<char>) -> bool {
    &&& e.uri@ == uri
    &&& e.path@ == parent_markup(uri)
    &&& e.file_name@ == html_escaped(dir_entry_name(uri))
    &&& e.name@ == dir_entry_name(uri)
    &&& e.pixbuf == Pixbuf::CurrentDir
    &&& e.project
    &&& !e.stored
}

/// `e` is the row that `Entry::new_from_path(uri)` makes.
pub open spec fn is_file_row(e: Entry, uri: Seq<char>) -> bool {
    &&& e.uri@ == uri
    &&& e.path@ == parent_markup(uri)
    &&& e.file_name@ == html_escaped(file_entry_name(uri))
    &&& e.name@ == file_entry_name(uri)
    &&& e.pixbuf == Pixbuf::PlainFile
    &&& !e.project
    &&& !e.stored
}

/// Some stored project has the path `uri`.
pub open spec fn has_project(projects: Seq<ProjectEntrySettings>, uri: Seq<char>) -> bool {
    exists|i: int| 0 <= i < projects.len() && (#[trigger] projects[i]).path@ == uri
}

/// Whether the current directory gets a row of its own, at the top.
pub open spec fn lists_cwd(projects: Seq<ProjectEntrySettings>, cwd: Option<&str>) -> bool {
    cwd matches Some(d) && !has_project(projects, d@)
}

/// The index of the first project row for `uri`, if any.
pub open spec fn first_project(entries: Seq<Entry>, uri: Seq<char>) -> Option<int>
    decreases entries.len(),
{
    if entries.len() == 0 {
        None
    } else {
        match first_project(entries.drop_last(), uri) {
            Some(i) => Some(i),
            None => if entries.last().project && entries.last().uri@ == uri {
                Some(entries.len() - 1)
            } else {
                None
            },
        }
    }
}

proof fn lemma_first_project(entries: Seq<Entry>, uri: Seq<char>)
    ensures
        first_project(entries, uri) matches Some(i) ==> 0 <= i < entries.len() && entries[i].project
            && entries[i].uri@ == uri && forall|j: int| 0 <= j < i ==> !((#[trigger] entries[j]).project
            && entries[j].uri@ == uri),
        first_project(entries, uri) is None ==> forall|j: int| 0 <= j < entries.len() ==> !((#[trigger] entries[j]).project
            && entries[j].uri@ == uri),
    decreases entries.len(),
{
    if entries.len() > 0 {
        lemma_first_project(entries.drop_last(), uri);
        assert forall|j: int| 0 <= j < entries.len() - 1 implies #[trigger] entries[j] == entries.drop_last()[j] by {}
    }
}

impl EntryStore {
    /// The list as it opens: the current directory first where no stored
    /// project is it, then the stored projects, then the recent files.
    pub fn load(projects: &Vec<ProjectEntrySettings>, cwd: Option<&str>, old_files: &Vec<String>) -> (s: EntryStore)
        ensures
            ({
                let lead: int = if lists_cwd(projects@, cwd) { 1 } else { 0 };
                &&& s.entries@.len() == lead + projects@.len() + old_files@.len()
                &&& lists_cwd(projects@, cwd) ==> is_current_dir_row(s.entries@[0], cwd->0@)
                &&& forall|i: int| 0 <= i < projects@.len() ==> is_project_row(
                    #[trigger] s.entries@[lead + i],
                    projects@[i].name@,
                    projects@[i].path@,
                )
                &&& forall|j: int| 0 <= j < old_files@.len() ==> is_file_row(
                    #[trigger] s.entries@[lead + projects@.len() + j],
                    old_files@[j]@,
                )
            }),
            !s.changed,
    {
        let mut entries: Vec<Entry> = Vec::new();
        let mut listed = false;
        match cwd {
            Some(d) => {
                let mut found = false;
                let mut k: usize = 0;
                while k < projects.len()
                    invariant
                        k <= projects@.len(),
                        found <==> exists|i: int| 0 <= i < k && (#[trigger] projects@[i]).path@ == d@,
                    decreases projects@.len() - k,
                {
                    if str_eq(projects[k].path.as_str(), d) {
                        found = true;
                    }
                    k = k + 1;
                }
                if !found {
                    entries.push(Entry::new_current_project(d));
                    listed = true;
                }
            },
            None => {},
        }
        let lead: usize = if listed { 1 } else { 0 };
        assert(listed == lists_cwd(projects@, cwd));
        let mut i: usize = 0;
        while i < projects.len()
            invariant
                i <= projects@.len(),
                lead == (if lists_cwd(projects@, cwd) { 1usize } else { 0usize }),
                entries@.len() == lead + i,
                lists_cwd(projects@, cwd) ==> is_current_dir_row(entries@[0], cwd->0@),
                forall|q: int| 0 <= q < i ==> is_project_row(
                    #[trigger] entries@[lead + q],
                    projects@[q].name@,
                    projects@[q].path@,
                ),
            decreases projects@.len() - i,
        {
            let e = Entry::new_project(projects[i].name.as_str(), projects[i].path.as_str());
            entries.push(e);
            i = i + 1;
        }
        let mut j: usize = 0;
        while j < old_files.len()
            invariant
                j <= old_files@.len(),
                lead == (if lists_cwd(projects@, cwd) { 1usize } else { 0usize }),
                entries@.len() == lead + projects@.len() + j,
                lists_cwd(projects@, cwd) ==> is_current_dir_row(entries@[0], cwd->0@),
                forall|q: int| 0 <= q < projects@.len() ==> is_project_row(
                    #[trigger] entries@[lead + q],
                    projects@[q].name@,
                    projects@[q].path@,
                ),
                forall|q: int| 0 <= q < j ==> is_file_row(
                    #[trigger] entries@[lead + projects@.len() + q],
                    old_files@[q]@,
                ),
            decreases old_files@.len() - j,
        {
            let e = Entry::new_from_path(old_files[j].as_str());
            entries.push(e);
            j = j + 1;
        }
        EntryStore { entries, changed: false }
    }

    /// The first project row for `uri`, to change.
    pub fn find_mut(&mut self, uri: &str) -> (r: Option<&mut Entry>)
        ensures
            r is Some <==> first_project(old(self).entries@, uri@) is Some,
            r matches Some(e) ==> *e == old(self).entries@[first_project(old(self).entries@, uri@)->0]
                && final(self).entries@ == old(self).entries@.update(
                first_project(old(self).entries@, uri@)->0,
                *final(e),
            ) && final(self).changed == old(self).changed,
            r is None ==> final(self).entries@ == old(self).entries@ && final(self).changed == old(self).changed,
    {
        let mut i: usize = 0;
        while i < self.entries.len()
            invariant
                i <= self.entries@.len(),
                self.entries@ == old(self).entries@,
                self.changed == old(self).changed,
                forall|j: int| 0 <= j < i ==> !((#[trigger] self.entries@[j]).project
                    && self.entries@[j].uri@ == uri@),
            decreases self.entries@.len() - i,
        {
            if self.entries[i].project && str_eq(self.entries[i].uri.as_str(), uri) {
                proof {
                    lemma_first_project(self.entries@, uri@);
                }
                return Some(&mut self.entries[i]);
            }
            i = i + 1;
        }
        proof {
            lemma_first_project(self.entries@, uri@);
        }
        None
    }
}


/// What `str::to_uppercase` gives for `s`.
pub uninterp spec fn upper_case(s: Seq<char>) -> Seq<char>;

/// `str::to_uppercase`: claimed to give what `upper_case` names for `s`.
/// Unicode's case mappings are not written out here.
#[verifier::external_body]
fn to_upper(s: &str) -> (r: String)
    ensures
        r@ == upper_case(s@),
{
    s.to_uppercase()
}

/// `needle` occurs in `hay`.
pub open spec fn has_substring(hay: Seq<char>, needle: Seq<char>) -> bool {
    exists|i: int| 0 <= i <= hay.len() - needle.len() && #[trigger] hay.subrange(i, i + needle.len()) == needle
}

/// Whether `needle` occurs in `hay`.
fn contains_str(hay: &str, needle: &str) -> (r: bool)
    ensures
        r == has_substring(hay@, needle@),
{
    let h = crate::text::to_chars(hay);
    let n = crate::text::to_chars(needle);
    if n.len() == 0 {
        proof {
            assert(hay@.subrange(0, 0 + needle@.len() as int) =~= needle@);
        }
        return true;
    }
    if n.len() > h.len() {
        return false;
    }
    let last = h.len() - n.len();
    let mut i: usize = 0;
    while i <= last
        invariant
            h@ == hay@,
            n@ == needle@,
            0 < n@.len() <= h@.len(),
            h@.len() <= usize::MAX,
            last == h@.len() - n@.len(),
            i <= last + 1,
            forall|k: int| 0 <= k < i ==> #[trigger] h@.subrange(k, k + n@.len()) != n@,
        decreases last + 1 - i,
    {
        let mut j: usize = 0;
        let mut same = true;
        while j < n.len()
            invariant
                h@ == hay@,
                n@ == needle@,
                i <= last,
                n@.len() <= h@.len(),
                h@.len() <= usize::MAX,
                last == h@.len() - n@.len(),
                j <= n@.len(),
                same <==> forall|q: int| 0 <= q < j ==> h@[i + q] == n@[q],
            decreases n@.len() - j,
        {
            if h[i + j] != n[j] {
                same = false;
            }
            j = j + 1;
        }
        if same {
            proof {
                assert(h@.subrange(i as int, i + n@.len()) =~= n@);
            }
            return true;
        }
        proof {
            assert(exists|q: int| 0 <= q < n@.len() && h@[i + q] != n@[q]);
            let q = choose|q: int| 0 <= q < n@.len() && h@[i + q] != n@[q];
            assert(h@.subrange(i as int, i + n@.len())[q] != n@[q]);
        }
        i = i + 1;
    }
    false
}

/// The row `e` with its stored mark set to `stored`.
pub open spec fn with_stored(e: Entry, stored: bool) -> Entry {
    Entry {
        uri: e.uri,
        path: e.path,
        file_name: e.file_name,
        name: e.name,
        pixbuf: e.pixbuf,
        project: e.project,
        stored,
    }
}

/// The rows after the project row for `uri` was toggled from `stored`.
pub open spec fn toggled(entries: Seq<Entry>, uri: Seq<char>, stored: bool) -> Seq<Entry> {
    match first_project(entries, uri) {
        Some(i) => entries.update(i, with_stored(entries[i], !stored)),
        None => entries,
    }
}

/// The stored projects among the rows, as name and path, in order.
pub open spec fn saved_projects(entries: Seq<Entry>) -> Seq<(Seq<char>, Seq<char>)>
    decreases entries.len(),
{
    if entries.len() == 0 {
        Seq::empty()
    } else {
        let p = saved_projects(entries.drop_last());
        let e = entries.last();
        if e.project && e.stored {
            p.push((e.name@, e.uri@))
        } else {
            p
        }
    }
}

/// The row is listed under `filter` (compared in upper case, against its
/// escaped name and its directory line).
pub open spec fn shown_under(e: Entry, filter: Option<Seq<char>>) -> bool {
    match filter {
        Some(f) => has_substring(upper_case(e.file_name@), upper_case(f))
            || has_substring(upper_case(e.path@), upper_case(f)),
        None => true,
    }
}

/// The indices of the rows listed under `filter`, in order.
pub open spec fn shown_rows(entries: Seq<Entry>, filter: Option<Seq<char>>) -> Seq<int>
    decreases entries.len(),
{
    if entries.len() == 0 {
        Seq::empty()
    } else {
        let p = shown_rows(entries.drop_last(), filter);
        if shown_under(entries.last(), filter) {
            p.push(entries.len() - 1)
        } else {
            p
        }
    }
}

impl EntryStore {
    /// Marks the stored projects as changed, to be saved.
    pub fn changed(&mut self)
        ensures
            final(self).changed,
            final(self).entries@ == old(self).entries@,
    {
        self.changed = true;
    }

    /// The user flipped the stored mark of the row for `uri`, which showed
    /// `stored`: the first project row for `uri` now has the other mark, and
    /// the stored projects are to be saved.
    pub fn toggle_stored(&mut self, uri: &str, stored: bool)
        ensures
            final(self).entries@ == toggled(old(self).entries@, uri@, stored),
            final(self).changed,
    {
        match self.find_mut(uri) {
            Some(entry) => {
                entry.stored = !stored;
            },
            None => {},
        }
        self.changed();
        proof {
            lemma_first_project(old(self).entries@, uri@);
            assert(self.entries@ =~= toggled(old(self).entries@, uri@, stored));
        }
    }

    /// What to write to the settings file: the stored projects, where they
    /// changed; nothing otherwise.
    pub fn save(&self) -> (r: Option<ProjectSettings>)
        ensures
            r is Some <==> self.changed,
            r matches Some(s) ==> s.projects@.map_values(|p: ProjectEntrySettings| (p.name@, p.path@))
                == saved_projects(self.entries@),
    {
        if !self.changed {
            return None;
        }
        let mut projects: Vec<ProjectEntrySettings> = Vec::new();
        let mut i: usize = 0;
        proof {
            assert(self.entries@.take(0) =~= Seq::<Entry>::empty());
            assert(projects@.map_values(|p: ProjectEntrySettings| (p.name@, p.path@)) =~= Seq::<(Seq<char>, Seq<char>)>::empty());
        }
        while i < self.entries.len()
            invariant
                i <= self.entries@.len(),
                projects@.map_values(|p: ProjectEntrySettings| (p.name@, p.path@))
                    == saved_projects(self.entries@.take(i as int)),
            decreases self.entries@.len() - i,
        {
            proof {
                assert(self.entries@.take(i + 1).drop_last() =~= self.entries@.take(i as int));
                assert(self.entries@.take(i + 1).last() == self.entries@[i as int]);
            }
            let e = &self.entries[i];
            if e.project && e.stored {
                let ghost before = projects@.map_values(|p: ProjectEntrySettings| (p.name@, p.path@));
                projects.push(ProjectEntrySettings { name: string_from(e.name.as_str()), path: string_from(e.uri.as_str()) });
                proof {
                    assert(projects@.map_values(|p: ProjectEntrySettings| (p.name@, p.path@)) =~= before.push((e.name@, e.uri@)));
                }
            }
            i = i + 1;
        }
        proof {
            assert(self.entries@.take(i as int) =~= self.entries@);
        }
        Some(ProjectSettings { projects })
    }

    /// The indices of the rows to list under `filter`, in order: every row
    /// without one, else those whose escaped name or directory line holds it,
    /// compared in upper case.
    pub fn populate(&self, filter: Option<&String>) -> (r: Vec<usize>)
        ensures
            r@.map_values(|i: usize| i as int) == shown_rows(
                self.entries@,
                match filter {
                    Some(f) => Some(f@),
                    None => None,
                },
            ),
    {
        let ghost fv: Option<Seq<char>> = match filter {
            Some(f) => Some(f@),
            None => None,
        };
        let mut out: Vec<usize> = Vec::new();
        let mut i: usize = 0;
        proof {
            assert(self.entries@.take(0) =~= Seq::<Entry>::empty());
            assert(out@.map_values(|i: usize| i as int) =~= Seq::<int>::empty());
        }
        while i < self.entries.len()
            invariant
                i <= self.entries@.len(),
                fv == (match filter {
                    Some(f) => Some(f@),
                    None => None::<Seq<char>>,
                }),
                out@.map_values(|k: usize| k as int) == shown_rows(self.entries@.take(i as int), fv),
            decreases self.entries@.len() - i,
        {
            proof {
                assert(self.entries@.take(i + 1).drop_last() =~= self.entries@.take(i as int));
                assert(self.entries@.take(i + 1).last() == self.entries@[i as int]);
            }
            let e = &self.entries[i];
            let shown = match filter {
                Some(f) => {
                    let fu = to_upper(f.as_str());
                    contains_str(to_upper(e.file_name.as_str()).as_str(), fu.as_str())
                        || contains_str(to_upper(e.path.as_str()).as_str(), fu.as_str())
                },
                None => true,
            };
            if shown {
                let ghost before = out@.map_values(|k: usize| k as int);
                out.push(i);
                proof {
                    assert(out@.map_values(|k: usize| k as int) =~= before.push(i as int));
                }
            }
            i = i + 1;
        }
        proof {
            assert(self.entries@.take(i as int) =~= self.entries@);
        }
        out
    }
}

/// Flipping the stored mark of a project twice, from the mark it showed,
/// gives back the rows it had.
pub proof fn law_toggle_twice(entries: Seq<Entry>, uri: Seq<char>, stored: bool)
    requires
        first_project(entries, uri) matches Some(i) ==> entries[i].stored == stored,
    ensures
        toggled(toggled(entries, uri, stored), uri, !stored) == entries,
{
    lemma_first_project(entries, uri);
    let once = toggled(entries, uri, stored);
    match first_project(entries, uri) {
        Some(i) => {
            lemma_first_project(once, uri);
            assert forall|j: int| 0 <= j < i implies !((#[trigger] once[j]).project && once[j].uri@ == uri) by {
                assert(once[j] == entries[j]);
            }
            if first_project(once, uri) != Some(i) {
                assert(once[i].project && once[i].uri@ == uri);
            }
            assert(toggled(once, uri, !stored) =~= entries);
        },
        None => {},
    }
}

} // verus!
