//! The file browser's decisions: which directory entries it shows, in which
//! order, and how its list of parent directories follows the working
//! directory.
use vstd::prelude::*;
use vstd::multiset::Multiset;

use std::path::Path;

use crate::dirs::{path_join, push_component};
use crate::misc::{escape_replacement, regex_compiles, regex_replace_all, special_chars_pattern, try_escape_filename};
use crate::text::{push_str, string_from, to_chars};
use crate::window::{path_without_prefix, strip_prefix};

verus! {

/// The icon of a closed folder.
pub open spec fn icon_folder_closed() -> Seq<char> {
    "folder-symbolic"@
}

/// The icon of the open folder: the working directory.
pub open spec fn icon_folder_open() -> Seq<char> {
    "folder-open-symbolic"@
}

/// The icon of a file.
pub open spec fn icon_file() -> Seq<char> {
    "text-x-generic-symbolic"@
}

/// A hidden entry: its name starts with `.` or ends with `~`.
pub open spec fn is_hidden_name(name: Seq<char>) -> bool {
    (name.len() > 0 && name[0] == '.') || (name.len() > 0 && name.last() == '~')
}

/// Whether the browser lists an entry named `name`.
pub fn is_shown(name: &str, show_hidden: bool) -> (r: bool)
    ensures
        r == (show_hidden || !is_hidden_name(name@)),
{
    if show_hidden {
        return true;
    }
    let chars = to_chars(name);
    let n = chars.len();
    !(n > 0 && (chars[0] == '.' || chars[n - 1] == '~'))
}

/// Directories come before files; entries of one kind keep the order that
/// `path_before` gives them (the caller compares paths).
pub open spec fn dirs_first(lhs_is_dir: bool, rhs_is_dir: bool, path_before: bool) -> bool {
    if lhs_is_dir == rhs_is_dir {
        path_before
    } else {
        lhs_is_dir
    }
}

/// Whether an entry goes before another: directories first, then by path.
pub fn sorts_before(lhs_is_dir: bool, rhs_is_dir: bool, path_before: bool) -> (r: bool)
    ensures
        r == dirs_first(lhs_is_dir, rhs_is_dir, path_before),
{
    if lhs_is_dir == rhs_is_dir {
        path_before
    } else {
        lhs_is_dir
    }
}

/// A row of the list of directories above the working directory.
#[derive(Debug)]
pub struct DirRow {
    pub name: String,
    pub icon: String,
    pub path: String,
}

/// A row as plain values: name, icon, path.
pub open spec fn row_view(r: DirRow) -> (Seq<char>, Seq<char>, Seq<char>) {
    (r.name@, r.icon@, r.path@)
}

pub open spec fn rows_view(rows: Seq<DirRow>) -> Seq<(Seq<char>, Seq<char>, Seq<char>)> {
    rows.map_values(|r: DirRow| row_view(r))
}

/// The listed rows start with the components of the working directory.
pub open spec fn is_prefix_of(rows: Seq<(Seq<char>, Seq<char>, Seq<char>)>, comps: Seq<(Seq<char>, Seq<char>)>) -> bool {
    forall|i: int| 0 <= i < rows.len() && i < comps.len() ==> #[trigger] rows[i].0 == comps[i].0
}

/// The list after the working directory becomes the one whose components
/// (name and path up to it) are `comps`: a row per component, the last one
/// open and the others closed; rows listed beyond them stay, closed, where
/// the rows before them matched the components, and go otherwise.
pub open spec fn updated_rows(
    rows: Seq<(Seq<char>, Seq<char>, Seq<char>)>,
    comps: Seq<(Seq<char>, Seq<char>)>,
) -> Seq<(Seq<char>, Seq<char>, Seq<char>)> {
    let head = Seq::new(
        comps.len(),
        |i: int|
            (
                comps[i].0,
                if i == comps.len() - 1 {
                    icon_folder_open()
                } else {
                    icon_folder_closed()
                },
                comps[i].1,
            ),
    );
    if rows.len() > comps.len() && is_prefix_of(rows, comps) {
        head + Seq::new((rows.len() - comps.len()) as nat, |j: int| (rows[comps.len() + j].0, icon_folder_closed(), rows[comps.len() + j].2))
    } else {
        head
    }
}

/// Follows a change of the working directory in the list of its parents,
/// given the new directory's components, each with the path up to it.
/// Gives the new rows and the row to select (the working directory's).
pub fn update_dir_rows(rows: Vec<DirRow>, comps: &Vec<(String, String)>) -> (r: (Vec<DirRow>, Option<usize>))
    ensures
        rows_view(r.0@) == updated_rows(rows_view(rows@), comps@.map_values(|c: (String, String)| (c.0@, c.1@))),
        r.1 == (if comps@.len() == 0 { None } else { Some((comps@.len() - 1) as usize) }),
{
    let ghost rv = rows_view(rows@);
    let ghost cv = comps@.map_values(|c: (String, String)| (c.0@, c.1@));
    let mut is_prefix = true;
    let mut i: usize = 0;
    while i < comps.len() && i < rows.len()
        invariant
            i <= comps@.len(),
            i <= rows@.len(),
            rv == rows_view(rows@),
            cv == comps@.map_values(|c: (String, String)| (c.0@, c.1@)),
            is_prefix == (forall|j: int| 0 <= j < i ==> #[trigger] rv[j].0 == cv[j].0),
        decreases comps@.len() - i,
    {
        proof {
            assert(rv[i as int].0 == rows@[i as int].name@);
            assert(cv[i as int].0 == comps@[i as int].0@);
        }
        let same = crate::text::str_eq(rows[i].name.as_str(), comps[i].0.as_str());
        let ghost was = is_prefix;
        if !same {
            is_prefix = false;
        }
        i = i + 1;
        proof {
            if !same {
                assert(!(rv[i - 1].0 == cv[i - 1].0));
            }
            assert(is_prefix == (forall|j: int| 0 <= j < i ==> #[trigger] rv[j].0 == cv[j].0)) by {
                if was && same {
                    assert forall|j: int| 0 <= j < i implies #[trigger] rv[j].0 == cv[j].0 by {
                        if j < i - 1 {
                        } else {
                            assert(j == i - 1);
                        }
                    }
                }
            }
        }
    }
    proof {
        assert(is_prefix == is_prefix_of(rv, cv));
    }
    let mut out: Vec<DirRow> = Vec::new();
    let mut k: usize = 0;
    while k < comps.len()
        invariant
            k <= comps@.len(),
            cv == comps@.map_values(|c: (String, String)| (c.0@, c.1@)),
            out@.len() == k,
            forall|j: int| 0 <= j < k ==> #[trigger] row_view(out@[j]) == (
                cv[j].0,
                if j == cv.len() - 1 { icon_folder_open() } else { icon_folder_closed() },
                cv[j].1,
            ),
        decreases comps@.len() - k,
    {
        let icon = if k == comps.len() - 1 {
            string_from("folder-open-symbolic")
        } else {
            string_from("folder-symbolic")
        };
        out.push(DirRow { name: string_from(comps[k].0.as_str()), icon, path: string_from(comps[k].1.as_str()) });
        k = k + 1;
    }
    let n = comps.len();
    let ghost head = rows_view(out@);
    if rows.len() > n && is_prefix {
        let mut rest = rows;
        let ghost all = rest@;
        assert(all.len() <= usize::MAX) by {
            assert(rest.len() == all.len());
        }
        let mut dropped: usize = 0;
        while dropped < n
            invariant
                dropped <= n,
                n < all.len(),
                rest@ == all.skip(dropped as int),
            decreases n - dropped,
        {
            rest.remove(0);
            proof {
                assert(rest@ =~= all.skip(dropped + 1));
            }
            dropped = dropped + 1;
        }
        let mut j: usize = 0;
        while rest.len() > 0
            invariant
                n < all.len(),
                rv == rows_view(all),
                all.len() <= usize::MAX,
                j + n <= all.len(),
                rest@ == all.skip(n + j),
                rows_view(out@) == head + Seq::new(j as nat, |q: int| (rv[n + q].0, icon_folder_closed(), rv[n + q].2)),
            decreases rest@.len(),
        {
            let row = rest.remove(0);
            proof {
                assert(row == all[n + j]);
                assert(rest@ =~= all.skip(n + j + 1));
            }
            let ghost before = rows_view(out@);
            out.push(DirRow { name: row.name, icon: string_from("folder-symbolic"), path: row.path });
            proof {
                assert(rows_view(out@) =~= before.push((rv[n + j].0, icon_folder_closed(), rv[n + j].2)));
                assert(head + Seq::new((j + 1) as nat, |q: int| (rv[n + q].0, icon_folder_closed(), rv[n + q].2))
                    =~= (head + Seq::new(j as nat, |q: int| (rv[n + q].0, icon_folder_closed(), rv[n + q].2))).push(
                    (rv[n + j].0, icon_folder_closed(), rv[n + j].2),
                ));
            }
            j = j + 1;
        }
        proof {
            assert(all.skip(n + j).len() == 0);
            assert(head =~= Seq::new(
                cv.len(),
                |i: int|
                    (
                        cv[i].0,
                        if i == cv.len() - 1 { icon_folder_open() } else { icon_folder_closed() },
                        cv[i].1,
                    ),
            ));
        }
    } else {
        proof {
            assert(head =~= updated_rows(rv, cv));
        }
    }
    let active = if n == 0 { None } else { Some(n - 1) };
    (out, active)
}


/// What `Path::new(p).components()` yields for the path `p` (on Unix), each
/// component as text.
pub uninterp spec fn dir_components(p: Seq<char>) -> Seq<Seq<char>>;

/// `Path::components`: claimed to give the components that `dir_components`
/// names for `dir`, in order. A part of a `str` is valid UTF-8, so each is
/// taken whole. Unix's rules on paths are not written out here.
#[verifier::external_body]
fn path_components(dir: &str) -> (r: Vec<String>)
    ensures
        r@.map_values(|c: String| c@) == dir_components(dir@),
{
    Path::new(dir).components().map(|c| c.as_os_str().to_string_lossy().into_owned()).collect()
}

/// The path up to the `n`-th of the components: each pushed onto the last.
pub open spec fn path_upto(names: Seq<Seq<char>>, n: int) -> Seq<char>
    decreases n,
{
    if n <= 0 {
        Seq::empty()
    } else {
        path_join(path_upto(names, n - 1), names[n - 1])
    }
}

/// The components of a path, each with the path up to it.
pub open spec fn components_with_paths(names: Seq<Seq<char>>) -> Seq<(Seq<char>, Seq<char>)> {
    Seq::new(names.len(), |i: int| (names[i], path_upto(names, i + 1)))
}

/// Follows a change of the working directory to `dir` in the list of its
/// parents: a row per component of `dir`, with the path up to it, the last
/// one open and selected; rows below it stay where the list already led to
/// it, and go otherwise.
pub fn update_dir_list(rows: Vec<DirRow>, dir: &str) -> (r: (Vec<DirRow>, Option<usize>))
    ensures
        rows_view(r.0@) == updated_rows(rows_view(rows@), components_with_paths(dir_components(dir@))),
        r.1 == (if dir_components(dir@).len() == 0 {
            None
        } else {
            Some((dir_components(dir@).len() - 1) as usize)
        }),
{
    let names = path_components(dir);
    let ghost nv = names@.map_values(|c: String| c@);
    let mut comps: Vec<(String, String)> = Vec::new();
    let mut path = string_from("");
    let mut i: usize = 0;
    proof {
        reveal_strlit("");
    }
    while i < names.len()
        invariant
            i <= names@.len(),
            nv == names@.map_values(|c: String| c@),
            path@ == path_upto(nv, i as int),
            comps@.len() == i,
            forall|j: int| 0 <= j < i ==> (#[trigger] comps@[j]).0@ == nv[j] && comps@[j].1@ == path_upto(nv, j + 1),
        decreases names@.len() - i,
    {
        push_component(&mut path, names[i].as_str());
        comps.push((string_from(names[i].as_str()), string_from(path.as_str())));
        i = i + 1;
    }
    proof {
        assert(comps@.map_values(|c: (String, String)| (c.0@, c.1@)) =~= components_with_paths(nv));
    }
    update_dir_rows(rows, &comps)
}


/// What a file chosen in the browser is opened by: its path relative to the
/// working directory `cwd` where it is inside it, the path itself otherwise.
pub open spec fn edit_target(cwd: Seq<char>, file_path: Seq<char>) -> Seq<char> {
    match path_without_prefix(file_path, cwd) {
        Some(rel) => rel,
        None => file_path,
    }
}

/// The command that opens the file `file_path` chosen in the browser: `:e `
/// and the file's path relative to the working directory `cwd` (where it is
/// inside it), with its special characters escaped; `None` only where the
/// escaping pattern does not compile (it always does).
pub fn open_file_command(cwd: &str, file_path: &str) -> (r: Option<String>)
    ensures
        r is Some <==> regex_compiles(special_chars_pattern()),
        r matches Some(c) ==> c@ == ":e "@ + regex_replace_all(
            special_chars_pattern(),
            edit_target(cwd@, file_path@),
            escape_replacement(),
        ),
{
    let target = match strip_prefix(file_path, cwd) {
        Some(rel) => rel,
        None => string_from(file_path),
    };
    match try_escape_filename(target.as_str()) {
        Some(escaped) => {
            let mut cmd = string_from(":e ");
            push_str(&mut cmd, escaped.as_str());
            proof {
                reveal_strlit(":e ");
            }
            Some(cmd)
        },
        None => None,
    }
}


/// What a directory entry is.
#[derive(Clone, Copy, PartialEq, Eq, Structural, Debug)]
pub enum EntryKind {
    Dir,
    File,
}

/// A directory entry as plain values: name, path, kind, and (for a
/// directory) whether it holds anything.
pub type EntryView = (Seq<char>, Seq<char>, EntryKind, bool);

pub open spec fn entry_view(e: (String, String, EntryKind, bool)) -> EntryView {
    (e.0@, e.1@, e.2, e.3)
}

/// `a` comes before `b` character by character (by code point), a prefix
/// first: the order of paths within one directory.
pub open spec fn text_lt(a: Seq<char>, b: Seq<char>) -> bool
    decreases a.len(),
{
    if a.len() == 0 {
        b.len() > 0
    } else if b.len() == 0 {
        false
    } else if a[0] != b[0] {
        (a[0] as u32) < (b[0] as u32)
    } else {
        text_lt(a.drop_first(), b.drop_first())
    }
}

/// The browser's order: directories first, then by path.
pub open spec fn entry_before(a: EntryView, b: EntryView) -> bool {
    dirs_first(a.2 is Dir, b.2 is Dir, text_lt(a.1, b.1))
}

/// `x` put into `s` before the first entry it goes before.
pub open spec fn insert_sorted(s: Seq<EntryView>, x: EntryView) -> Seq<EntryView>
    decreases s.len(),
{
    if s.len() == 0 {
        seq![x]
    } else if entry_before(x, s[0]) {
        seq![x] + s
    } else {
        seq![s[0]] + insert_sorted(s.drop_first(), x)
    }
}

/// The entries in the browser's order.
pub open spec fn sort_entries(s: Seq<EntryView>) -> Seq<EntryView>
    decreases s.len(),
{
    if s.len() == 0 {
        Seq::empty()
    } else {
        insert_sorted(sort_entries(s.drop_last()), s.last())
    }
}

/// The entries the browser lists, in their order in the directory.
pub open spec fn shown_entries(s: Seq<EntryView>, show_hidden: bool) -> Seq<EntryView>
    decreases s.len(),
{
    if s.len() == 0 {
        Seq::empty()
    } else if show_hidden || !is_hidden_name(s.last().0) {
        shown_entries(s.drop_last(), show_hidden).push(s.last())
    } else {
        shown_entries(s.drop_last(), show_hidden)
    }
}

/// A row of the file tree: name, path, kind, icon, and whether an empty row
/// goes under it so that it can be expanded.
pub struct TreeRow {
    pub name: String,
    pub path: String,
    pub kind: EntryKind,
    pub icon: String,
    pub placeholder: bool,
}

pub open spec fn tree_row_view(r: TreeRow) -> (Seq<char>, Seq<char>, EntryKind, Seq<char>, bool) {
    (r.name@, r.path@, r.kind, r.icon@, r.placeholder)
}

/// The row of an entry: a closed folder or a file icon, and a placeholder
/// under a directory that holds anything.
pub open spec fn row_of(e: EntryView) -> (Seq<char>, Seq<char>, EntryKind, Seq<char>, bool) {
    (e.0, e.1, e.2, if e.2 is Dir { icon_folder_closed() } else { icon_file() }, e.2 is Dir && e.3)
}

/// The rows of one level of the file tree.
pub open spec fn spec_tree_rows(entries: Seq<EntryView>, show_hidden: bool) -> Seq<(Seq<char>, Seq<char>, EntryKind, Seq<char>, bool)> {
    sort_entries(shown_entries(entries, show_hidden)).map_values(|e: EntryView| row_of(e))
}

fn text_less(a: &str, b: &str) -> (r: bool)
    ensures
        r == text_lt(a@, b@),
{
    let x = to_chars(a);
    let y = to_chars(b);
    let mut i: usize = 0;
    proof {
        assert(x@.skip(0) =~= x@);
        assert(y@.skip(0) =~= y@);
    }
    while i < x.len() && i < y.len() && x[i] == y[i]
        invariant
            x@ == a@,
            y@ == b@,
            i <= x@.len(),
            i <= y@.len(),
            text_lt(a@, b@) == text_lt(x@.skip(i as int), y@.skip(i as int)),
        decreases x@.len() - i,
    {
        proof {
            let xs = x@.skip(i as int);
            let ys = y@.skip(i as int);
            assert(xs.drop_first() =~= x@.skip(i + 1));
            assert(ys.drop_first() =~= y@.skip(i + 1));
            assert(xs[0] == x@[i as int]);
            assert(ys[0] == y@[i as int]);
        }
        i = i + 1;
    }
    proof {
        let xs = x@.skip(i as int);
        let ys = y@.skip(i as int);
        if i < x@.len() {
            assert(xs[0] == x@[i as int]);
        }
        if i < y@.len() {
            assert(ys[0] == y@[i as int]);
        }
    }
    if i == x.len() {
        i < y.len()
    } else if i == y.len() {
        false
    } else {
        (x[i] as u32) < (y[i] as u32)
    }
}

fn before(a: &(String, String, EntryKind, bool), b: &(String, String, EntryKind, bool)) -> (r: bool)
    ensures
        r == entry_before(entry_view(*a), entry_view(*b)),
{
    let a_dir = match a.2 {
        EntryKind::Dir => true,
        EntryKind::File => false,
    };
    let b_dir = match b.2 {
        EntryKind::Dir => true,
        EntryKind::File => false,
    };
    if a_dir == b_dir {
        text_less(a.1.as_str(), b.1.as_str())
    } else {
        a_dir
    }
}

/// Putting `x` before the first entry it goes before is what
/// `insert_sorted` does.
proof fn lemma_insert_at(s: Seq<EntryView>, x: EntryView, k: int)
    requires
        0 <= k <= s.len(),
        forall|j: int| 0 <= j < k ==> !entry_before(x, #[trigger] s[j]),
        k < s.len() ==> entry_before(x, s[k]),
    ensures
        insert_sorted(s, x) == s.take(k) + seq![x] + s.skip(k),
    decreases s.len(),
{
    if s.len() == 0 {
        assert(s.take(k) + seq![x] + s.skip(k) =~= seq![x]);
    } else if k == 0 {
        assert(s.take(0) + seq![x] + s.skip(0) =~= seq![x] + s);
    } else {
        let t = s.drop_first();
        assert forall|j: int| 0 <= j < k - 1 implies !entry_before(x, #[trigger] t[j]) by {
            assert(t[j] == s[j + 1]);
        }
        if k < s.len() {
            assert(t[k - 1] == s[k]);
        }
        lemma_insert_at(t, x, k - 1);
        assert(!entry_before(x, s[0]));
        assert(seq![s[0]] + (t.take(k - 1) + seq![x] + t.skip(k - 1)) =~= s.take(k) + seq![x] + s.skip(k));
    }
}

/// The rows of one level of the file tree, from the entries of a directory
/// (name, path, kind, and for a directory whether it holds anything):
/// hidden entries left out unless `show_hidden`, directories first, then by
/// path; directories get a closed-folder icon and, where they hold
/// anything, an empty row under them; files get a file icon.
pub fn tree_rows(entries: Vec<(String, String, EntryKind, bool)>, show_hidden: bool) -> (rows: Vec<TreeRow>)
    ensures
        rows@.map_values(|r: TreeRow| tree_row_view(r)) == spec_tree_rows(
            entries@.map_values(|e: (String, String, EntryKind, bool)| entry_view(e)),
            show_hidden,
        ),
{
    let ghost all = entries@.map_values(|e: (String, String, EntryKind, bool)| entry_view(e));
    let mut rest = entries;
    let mut sorted: Vec<(String, String, EntryKind, bool)> = Vec::new();
    let n = rest.len();
    let mut i: usize = 0;
    proof {
        assert(all.take(0) =~= Seq::<EntryView>::empty());
        assert(sorted@.map_values(|e: (String, String, EntryKind, bool)| entry_view(e)) =~= Seq::<EntryView>::empty());
    }
    while i < n
        invariant
            n == all.len(),
            i <= n,
            rest@.map_values(|e: (String, String, EntryKind, bool)| entry_view(e)) == all.skip(i as int),
            sorted@.map_values(|e: (String, String, EntryKind, bool)| entry_view(e)) == sort_entries(
                shown_entries(all.take(i as int), show_hidden),
            ),
        decreases n - i,
    {
        let ghost rv = rest@;
        proof {
            assert(rv.map_values(|e: (String, String, EntryKind, bool)| entry_view(e)).len() == rv.len());
        }
        let e = rest.remove(0);
        let ghost ev = entry_view(e);
        proof {
            assert(e == rv[0]);
            assert(rv.map_values(|e: (String, String, EntryKind, bool)| entry_view(e))[0] == ev);
            assert(all[i as int] == all.skip(i as int)[0]);
            assert(all[i as int] == ev);
            assert(rest@ =~= rv.subrange(1, rv.len() as int));
            let rm = rest@.map_values(|e: (String, String, EntryKind, bool)| entry_view(e));
            let rvm = rv.map_values(|e: (String, String, EntryKind, bool)| entry_view(e));
            assert forall|q: int| 0 <= q < rest@.len() implies #[trigger] rm[q] == all.skip(i + 1)[q] by {
                assert(rest@[q] == rv[q + 1]);
                assert(rvm[q + 1] == all.skip(i as int)[q + 1]);
            }
            assert(rm =~= all.skip(i + 1));
            assert(all.take(i + 1).drop_last() =~= all.take(i as int));
            assert(all.take(i + 1).last() == all[i as int]);
        }
        if show_hidden || !is_shown_name_hidden(e.0.as_str()) {
            let ghost sv = sorted@.map_values(|e: (String, String, EntryKind, bool)| entry_view(e));
            let mut k: usize = 0;
            while k < sorted.len() && !before(&e, &sorted[k])
                invariant
                    k <= sorted@.len(),
                    sv == sorted@.map_values(|e: (String, String, EntryKind, bool)| entry_view(e)),
                    ev == entry_view(e),
                    forall|j: int| 0 <= j < k ==> !entry_before(ev, #[trigger] sv[j]),
                decreases sorted@.len() - k,
            {
                k = k + 1;
            }
            proof {
                lemma_insert_at(sv, ev, k as int);
                assert(shown_entries(all.take(i + 1), show_hidden) == shown_entries(all.take(i as int), show_hidden).push(ev));
                assert(shown_entries(all.take(i + 1), show_hidden).drop_last() =~= shown_entries(all.take(i as int), show_hidden));
            }
            sorted.insert(k, e);
            proof {
                assert(sorted@.map_values(|e: (String, String, EntryKind, bool)| entry_view(e)) =~= sv.take(k as int) + seq![ev] + sv.skip(k as int));
            }
        }
        i = i + 1;
    }
    proof {
        assert(all.take(n as int) =~= all);
    }
    let ghost sv = sorted@.map_values(|e: (String, String, EntryKind, bool)| entry_view(e));
    let mut rows: Vec<TreeRow> = Vec::new();
    let mut j: usize = 0;
    while j < sorted.len()
        invariant
            j <= sorted@.len(),
            sv == sorted@.map_values(|e: (String, String, EntryKind, bool)| entry_view(e)),
            rows@.len() == j,
            forall|q: int| 0 <= q < j ==> tree_row_view(#[trigger] rows@[q]) == row_of(sv[q]),
        decreases sorted@.len() - j,
    {
        let e = &sorted[j];
        let (icon, placeholder) = match e.2 {
            EntryKind::Dir => (string_from("folder-symbolic"), e.3),
            EntryKind::File => (string_from("text-x-generic-symbolic"), false),
        };
        rows.push(TreeRow { name: string_from(e.0.as_str()), path: string_from(e.1.as_str()), kind: e.2, icon, placeholder });
        j = j + 1;
    }
    proof {
        assert(rows@.map_values(|r: TreeRow| tree_row_view(r)) =~= sv.map_values(|e: EntryView| row_of(e)));
    }
    rows
}

fn is_shown_name_hidden(name: &str) -> (r: bool)
    ensures
        r == is_hidden_name(name@),
{
    !is_shown(name, false)
}

/// Entries in the browser's order: no entry goes before one that comes
/// earlier.
pub open spec fn entries_sorted(s: Seq<EntryView>) -> bool {
    forall|i: int, j: int| 0 <= i < j < s.len() ==> !entry_before(#[trigger] s[j], #[trigger] s[i])
}

proof fn lemma_text_lt_asymmetric(a: Seq<char>, b: Seq<char>)
    ensures
        !(text_lt(a, b) && text_lt(b, a)),
    decreases a.len(),
{
    if a.len() > 0 && b.len() > 0 && a[0] == b[0] {
        lemma_text_lt_asymmetric(a.drop_first(), b.drop_first());
    }
}

proof fn lemma_text_lt_transitive(a: Seq<char>, b: Seq<char>, c: Seq<char>)
    requires
        text_lt(a, b),
        text_lt(b, c),
    ensures
        text_lt(a, c),
    decreases a.len(),
{
    if a.len() > 0 && a[0] == b[0] && b[0] == c[0] {
        lemma_text_lt_transitive(a.drop_first(), b.drop_first(), c.drop_first());
    }
}

proof fn lemma_entry_before_order(a: EntryView, b: EntryView, c: EntryView)
    ensures
        !(entry_before(a, b) && entry_before(b, a)),
        entry_before(a, b) && entry_before(b, c) ==> entry_before(a, c),
{
    lemma_text_lt_asymmetric(a.1, b.1);
    if entry_before(a, b) && entry_before(b, c) && a.2 is Dir == b.2 is Dir && b.2 is Dir == c.2 is Dir {
        lemma_text_lt_transitive(a.1, b.1, c.1);
    }
}

/// Inserting into entries in order keeps them in order, and adds the one entry.
proof fn lemma_insert_sorted(s: Seq<EntryView>, x: EntryView)
    ensures
        insert_sorted(s, x).to_multiset() == s.to_multiset().insert(x),
        entries_sorted(s) ==> entries_sorted(insert_sorted(s, x)),
    decreases s.len(),
{
    broadcast use vstd::seq_lib::group_to_multiset_ensures, vstd::multiset::group_multiset_axioms;

    let r = insert_sorted(s, x);
    if s.len() == 0 {
        assert(Seq::<EntryView>::empty().push(x) =~= seq![x]);
        assert(s.to_multiset() =~= Multiset::<EntryView>::empty());
    } else if entry_before(x, s[0]) {
        vstd::seq_lib::lemma_multiset_commutative(seq![x], s);
        assert(Seq::<EntryView>::empty().push(x) =~= seq![x]);
        assert(Seq::<EntryView>::empty().to_multiset() =~= Multiset::<EntryView>::empty());
        assert(r.to_multiset() =~= s.to_multiset().insert(x));
        if entries_sorted(s) {
            assert forall|i: int, j: int| 0 <= i < j < r.len() implies !entry_before(#[trigger] r[j], #[trigger] r[i]) by {
                if i == 0 {
                    lemma_entry_before_order(r[j], x, s[0]);
                    if j > 1 {
                        assert(!entry_before(s[j - 1], s[0]));
                    }
                } else {
                    assert(r[i] == s[i - 1] && r[j] == s[j - 1]);
                }
            }
        }
    } else {
        let d = s.drop_first();
        let t = insert_sorted(d, x);
        lemma_insert_sorted(d, x);
        vstd::seq_lib::lemma_multiset_commutative(seq![s[0]], t);
        vstd::seq_lib::lemma_multiset_commutative(seq![s[0]], d);
        assert(Seq::<EntryView>::empty().push(s[0]) =~= seq![s[0]]);
        assert(Seq::<EntryView>::empty().to_multiset() =~= Multiset::<EntryView>::empty());
        assert(seq![s[0]] + d =~= s);
        assert(r =~= seq![s[0]] + t);
        assert(r.to_multiset() =~= s.to_multiset().insert(x));
        if entries_sorted(s) {
            assert(entries_sorted(d)) by {
                assert forall|i: int, j: int| 0 <= i < j < d.len() implies !entry_before(#[trigger] d[j], #[trigger] d[i]) by {
                    assert(d[i] == s[i + 1] && d[j] == s[j + 1]);
                }
            }
            assert forall|i: int, j: int| 0 <= i < j < r.len() implies !entry_before(#[trigger] r[j], #[trigger] r[i]) by {
                if i == 0 {
                    let y = t[j - 1];
                    assert(r[j] == y);
                    assert(t.contains(y));
                    assert(t.to_multiset().count(y) > 0);
                    if y != x {
                        assert(d.to_multiset().count(y) > 0);
                        assert(d.contains(y));
                        let m = choose|m: int| 0 <= m < d.len() && d[m] == y;
                        assert(s[m + 1] == y);
                    }
                } else {
                    assert(r[i] == t[i - 1] && r[j] == t[j - 1]);
                }
            }
        }
    }
}

/// The browser's order is a sorted permutation: `sort_entries` gives the
/// same entries, each as often, and no entry goes before one that it comes
/// after.
pub proof fn law_sort_entries_sorted_permutation(s: Seq<EntryView>)
    ensures
        entries_sorted(sort_entries(s)),
        sort_entries(s).to_multiset() == s.to_multiset(),
    decreases s.len(),
{
    broadcast use vstd::seq_lib::group_to_multiset_ensures;

    if s.len() == 0 {
        assert(sort_entries(s) =~= s);
    } else {
        law_sort_entries_sorted_permutation(s.drop_last());
        lemma_insert_sorted(sort_entries(s.drop_last()), s.last());
        assert(s.drop_last().push(s.last()) =~= s);
    }
}

} // verus!
