//! The list of vim plugins the GUI manages, and the vim-plug configuration
//! generated from it.
use vstd::prelude::*;

use crate::text::{from_chars, push_str, str_eq, string_from, to_chars};

verus! {

/// A plugin: its name, the URL it is fetched from, and whether the user
/// removed it (it stays listed until the removals are cleared).
pub struct PlugInfo {
    pub name: String,
    pub url: String,
    pub removed: bool,
}

/// `s` holds `sub` at some position.
pub open spec fn contains_seq(s: Seq<char>, sub: Seq<char>) -> bool {
    exists|i: int| 0 <= i <= s.len() - sub.len() && #[trigger] s.subrange(i, i + sub.len()) == sub
}

/// `s` with every trailing `.git` removed (`str::trim_end_matches`).
pub open spec fn trim_git(s: Seq<char>) -> Seq<char>
    decreases s.len(),
{
    if s.len() >= 4 && s.subrange(s.len() - 4, s.len() as int) == ".git"@ {
        trim_git(s.take(s.len() - 4))
    } else {
        s
    }
}

/// Index of the last `/` of `s`.
pub open spec fn last_slash(s: Seq<char>) -> Option<int>
    decreases s.len(),
{
    if s.len() == 0 {
        None
    } else if s.last() == '/' {
        Some(s.len() - 1)
    } else {
        last_slash(s.drop_last())
    }
}

/// The last two `/`-separated components of `s`, joined by `/`; `s` itself
/// when it has no `/`.
pub open spec fn last_two_components(s: Seq<char>) -> Seq<char> {
    match last_slash(s) {
        None => s,
        Some(p) => {
            let before = s.take(p);
            let second = match last_slash(before) {
                None => before,
                Some(q) => before.skip(q + 1),
            };
            second + "/"@ + s.skip(p + 1)
        },
    }
}

/// The path a plugin is known by: `owner/repo` for a GitHub URL, else the URL.
pub open spec fn plug_path(url: Seq<char>) -> Seq<char> {
    if contains_seq(url, "github.com"@) {
        last_two_components(trim_git(url))
    } else {
        url
    }
}

fn seq_contains(s: &Vec<char>, sub: &Vec<char>) -> (r: bool)
    ensures
        r == contains_seq(s@, sub@),
{
    if sub.len() > s.len() {
        return false;
    }
    let mut i: usize = 0;
    assert(s@.len() == s.len());
    let last = s.len() - sub.len();
    while i <= last
        invariant
            last == s@.len() - sub@.len(),
            sub@.len() <= s@.len(),
            i <= s@.len() - sub@.len(),
            s@.len() <= usize::MAX,
            forall|k: int| 0 <= k < i ==> #[trigger] s@.subrange(k, k + sub@.len()) != sub@,
        decreases s@.len() - i,
    {
        let mut j: usize = 0;
        let mut same = true;
        while j < sub.len()
            invariant
                i + sub@.len() <= s@.len(),
                s@.len() <= usize::MAX,
                j <= sub@.len(),
                same == (forall|k: int| 0 <= k < j ==> s@[i + k] == sub@[k]),
            decreases sub@.len() - j,
        {
            if s[i + j] != sub[j] {
                same = false;
            }
            j = j + 1;
        }
        if same {
            assert(s@.subrange(i as int, i + sub@.len()) =~= sub@);
            return true;
        }
        assert(s@.subrange(i as int, i + sub@.len()) != sub@) by {
            let k = choose|k: int| 0 <= k < j && s@[i + k] != sub@[k];
            assert(s@.subrange(i as int, i + sub@.len())[k] != sub@[k]);
        }
        if i == last {
            return false;
        }
        i = i + 1;
    }
    false
}

pub(crate) fn ends_with_git(s: &Vec<char>, n: usize) -> (r: bool)
    requires
        n <= s@.len(),
    ensures
        r == (n >= 4 && s@.take(n as int).subrange(n - 4, n as int) == ".git"@),
{
    if n < 4 {
        return false;
    }
    let r = s[n - 4] == '.' && s[n - 3] == 'g' && s[n - 2] == 'i' && s[n - 1] == 't';
    proof {
        reveal_strlit(".git");
        if r {
            assert(s@.take(n as int).subrange(n - 4, n as int) =~= ".git"@);
        } else {
            if s@.take(n as int).subrange(n - 4, n as int) == ".git"@ {
                assert(s@.take(n as int).subrange(n - 4, n as int)[0] == '.');
                assert(s@.take(n as int).subrange(n - 4, n as int)[1] == 'g');
                assert(s@.take(n as int).subrange(n - 4, n as int)[2] == 'i');
                assert(s@.take(n as int).subrange(n - 4, n as int)[3] == 't');
            }
        }
    }
    r
}

fn find_last_slash(s: &Vec<char>, n: usize) -> (r: Option<usize>)
    requires
        n <= s@.len(),
    ensures
        r is Some <==> last_slash(s@.take(n as int)) is Some,
        r matches Some(p) ==> last_slash(s@.take(n as int)) == Some(p as int) && p < n,
{
    let mut k = n;
    while k > 0 && s[k - 1] != '/'
        invariant
            k <= n <= s@.len(),
            last_slash(s@.take(n as int)) == last_slash(s@.take(k as int)),
        decreases k,
    {
        proof {
            let t = s@.take(k as int);
            assert(t.drop_last() =~= s@.take(k - 1));
        }
        k = k - 1;
    }
    if k == 0 {
        proof {
            assert(s@.take(0) =~= Seq::<char>::empty());
        }
        None
    } else {
        Some(k - 1)
    }
}

pub(crate) fn slice_chars(s: &Vec<char>, from: usize, to: usize) -> (r: Vec<char>)
    requires
        from <= to <= s@.len(),
    ensures
        r@ == s@.subrange(from as int, to as int),
{
    let mut r: Vec<char> = Vec::new();
    let mut i = from;
    while i < to
        invariant
            from <= i <= to <= s@.len(),
            r@ == s@.subrange(from as int, i as int),
        decreases to - i,
    {
        r.push(s[i]);
        i = i + 1;
        proof {
            assert(r@ =~= s@.subrange(from as int, i as int));
        }
    }
    r
}

impl PlugInfo {
    pub fn new(name: String, url: String) -> (p: Self)
        ensures
            p.name == name,
            p.url == url,
            !p.removed,
    {
        PlugInfo { name, url, removed: false }
    }

    /// `owner/repo` for a GitHub URL (a trailing `.git` dropped), else the URL.
    pub fn get_plug_path(&self) -> (path: String)
        ensures
            path@ == plug_path(self.url@),
    {
        let url = to_chars(self.url.as_str());
        let gh = to_chars("github.com");
        if !seq_contains(&url, &gh) {
            return self.url.clone();
        }
        // strip trailing ".git" repeatedly
        let mut n = url.len();
        proof {
            assert(url@.take(n as int) =~= url@);
        }
        while ends_with_git(&url, n)
            invariant
                n <= url@.len(),
                trim_git(url@) == trim_git(url@.take(n as int)),
            decreases n,
        {
            proof {
                assert(url@.take(n as int).take(n - 4) =~= url@.take(n - 4));
            }
            n = n - 4;
        }
        let ghost t = url@.take(n as int);
        assert(trim_git(url@) == t);
        match find_last_slash(&url, n) {
            None => {
                let r = slice_chars(&url, 0, n);
                assert(r@ =~= t);
                from_chars(&r)
            },
            Some(p) => {
                let last = slice_chars(&url, p + 1, n);
                let second = match find_last_slash(&url, p) {
                    None => slice_chars(&url, 0, p),
                    Some(q) => slice_chars(&url, q + 1, p),
                };
                proof {
                    assert(t.take(p as int) =~= url@.take(p as int));
                    assert(last@ =~= t.skip(p + 1));
                    match last_slash(url@.take(p as int)) {
                        None => assert(second@ =~= t.take(p as int)),
                        Some(q) => assert(second@ =~= t.take(p as int).skip(q + 1)),
                    }
                }
                let mut path = from_chars(&second);
                push_str(&mut path, "/");
                let last_s = from_chars(&last);
                push_str(&mut path, last_s.as_str());
                path
            },
        }
    }
}

/// The plugin list and whether the GUI manages plugins at all.
pub struct Settings {
    pub enabled: bool,
    pub plugs: Vec<PlugInfo>,
}

impl Settings {
    pub fn new(plugs: Vec<PlugInfo>) -> (s: Self)
        ensures
            s.plugs == plugs,
            !s.enabled,
    {
        Settings { plugs, enabled: false }
    }

    pub fn empty() -> (s: Self)
        ensures
            s.plugs@.len() == 0,
            !s.enabled,
    {
        Settings { plugs: Vec::new(), enabled: false }
    }
}

/// The plugin store.
pub struct Store {
    pub settings: Settings,
}

/// A plugin as plain values: name, URL, removed.
pub open spec fn plug_view(p: PlugInfo) -> (Seq<char>, Seq<char>, bool) {
    (p.name@, p.url@, p.removed)
}

/// `plug` has the path or the name of a plugin of `plugs`.
pub open spec fn clashes(plugs: Seq<PlugInfo>, plug: PlugInfo) -> bool {
    exists|i: int| 0 <= i < plugs.len() && (plug_path((#[trigger] plugs[i]).url@) == plug_path(plug.url@)
        || plugs[i].name@ == plug.name@)
}

/// The plugins of `plugs` that are not removed, in order.
pub open spec fn kept(plugs: Seq<PlugInfo>) -> Seq<PlugInfo>
    decreases plugs.len(),
{
    if plugs.len() == 0 {
        Seq::empty()
    } else if plugs.last().removed {
        kept(plugs.drop_last())
    } else {
        kept(plugs.drop_last()).push(plugs.last())
    }
}

/// The vim-plug line that installs `p`.
pub open spec fn plug_line(p: PlugInfo) -> Seq<char> {
    "Plug '"@ + plug_path(p.url@) + "', { 'as': '"@ + p.name@ + "' }\n"@
}

/// The lines for the plugins of `plugs` that are not removed.
pub open spec fn plug_lines(plugs: Seq<PlugInfo>) -> Seq<char>
    decreases plugs.len(),
{
    if plugs.len() == 0 {
        Seq::empty()
    } else if plugs.last().removed {
        plug_lines(plugs.drop_last())
    } else {
        plug_lines(plugs.drop_last()) + plug_line(plugs.last())
    }
}

impl Default for Store {
    fn default() -> (s: Store)
        ensures
            s.settings.plugs@.len() == 0,
            !s.settings.enabled,
    {
        Store { settings: Settings::empty() }
    }
}

impl Store {
    pub fn is_enabled(&self) -> (r: bool)
        ensures
            r == self.settings.enabled,
    {
        self.settings.enabled
    }

    /// A store of the plugins vim-plug reports, or an empty one when they
    /// could not be read; either way not enabled.
    pub fn load_from_plug(plugs: Result<Vec<crate::vim_plug::VimPlugInfo>, String>) -> (s: Self)
        ensures
            !s.settings.enabled,
            match plugs {
                Err(_) => s.settings.plugs@.len() == 0,
                Ok(v) => {
                    &&& s.settings.plugs@.len() == v@.len()
                    &&& forall|i: int| 0 <= i < v@.len() ==> #[trigger] plug_view(s.settings.plugs@[i]) == (
                        v@[i].name@,
                        v@[i].uri@,
                        false,
                    )
                },
            },
    {
        match plugs {
            Err(_) => Store { settings: Settings::empty() },
            Ok(v) => {
                let mut list: Vec<PlugInfo> = Vec::new();
                let mut i: usize = 0;
                while i < v.len()
                    invariant
                        i <= v@.len(),
                        list@.len() == i,
                        forall|j: int| 0 <= j < i ==> #[trigger] plug_view(list@[j]) == (v@[j].name@, v@[j].uri@, false),
                    decreases v@.len() - i,
                {
                    list.push(PlugInfo::new(v[i].name.clone(), v[i].uri.clone()));
                    i = i + 1;
                }
                Store { settings: Settings::new(list) }
            },
        }
    }

    pub fn get_plugs(&self) -> (r: &[PlugInfo])
        ensures
            r@ == self.settings.plugs@,
    {
        self.settings.plugs.as_slice()
    }

    pub fn set_enabled(&mut self, enabled: bool)
        ensures
            final(self).settings.enabled == enabled,
            final(self).settings.plugs == old(self).settings.plugs,
    {
        self.settings.enabled = enabled;
    }

    /// Drops the plugins marked removed.
    pub fn clear_removed(&mut self)
        ensures
            final(self).settings.plugs@ == kept(old(self).settings.plugs@),
            final(self).settings.enabled == old(self).settings.enabled,
    {
        let mut old_plugs: Vec<PlugInfo> = Vec::new();
        std::mem::swap(&mut old_plugs, &mut self.settings.plugs);
        let ghost all = old_plugs@;
        let mut kept_plugs: Vec<PlugInfo> = Vec::new();
        let mut rest: Vec<PlugInfo> = Vec::new();
        // take plugins off the back, then restore the order
        while old_plugs.len() > 0
            invariant
                all == old_plugs@ + rest@.reverse(),
                kept(all) == kept(old_plugs@) + kept(rest@.reverse()),
            decreases old_plugs@.len(),
        {
            let ghost before = old_plugs@;
            let p = old_plugs.pop().unwrap();
            proof {
                assert(before == old_plugs@.push(p));
                let r2 = rest@.push(p);
                assert(r2.reverse() =~= seq![p] + rest@.reverse());
                lemma_kept_concat(seq![p], rest@.reverse());
                assert(seq![p].drop_last() =~= Seq::<PlugInfo>::empty());
                assert(kept(Seq::<PlugInfo>::empty()) =~= Seq::<PlugInfo>::empty());
                assert(kept(old_plugs@.push(p)) == kept(old_plugs@) + kept(seq![p])) by {
                    assert(old_plugs@.push(p).drop_last() =~= old_plugs@);
                    assert(kept(seq![p]) =~= (if p.removed { Seq::<PlugInfo>::empty() } else { seq![p] }));
                    assert(kept(old_plugs@) + Seq::<PlugInfo>::empty() =~= kept(old_plugs@));
                }
                assert(all =~= old_plugs@ + r2.reverse());
            }
            rest.push(p);
        }
        proof {
            assert(old_plugs@ =~= Seq::<PlugInfo>::empty());
            assert(kept(old_plugs@) =~= Seq::<PlugInfo>::empty());
            assert(all =~= rest@.reverse());
        }
        while rest.len() > 0
            invariant
                kept(all) == kept_plugs@ + kept(rest@.reverse()),
            decreases rest@.len(),
        {
            let ghost before = rest@;
            let p = rest.pop().unwrap();
            proof {
                assert(before.reverse() =~= seq![p] + rest@.reverse());
                lemma_kept_concat(seq![p], rest@.reverse());
                assert(seq![p].drop_last() =~= Seq::<PlugInfo>::empty());
                assert(kept(Seq::<PlugInfo>::empty()) =~= Seq::<PlugInfo>::empty());
            }
            if !p.removed {
                proof {
                    assert(kept(seq![p]) =~= seq![p]);
                    assert(kept_plugs@ + (seq![p] + kept(rest@.reverse())) =~= kept_plugs@.push(p) + kept(rest@.reverse()));
                }
                kept_plugs.push(p);
            } else {
                proof {
                    assert(kept(seq![p]) =~= Seq::<PlugInfo>::empty());
                    assert(Seq::<PlugInfo>::empty() + kept(rest@.reverse()) =~= kept(rest@.reverse()));
                }
            }
        }
        proof {
            assert(rest@.reverse() =~= Seq::<PlugInfo>::empty());
            assert(kept_plugs@ + Seq::<PlugInfo>::empty() =~= kept_plugs@);
        }
        self.settings.plugs = kept_plugs;
    }

    pub fn remove_plug(&mut self, idx: usize)
        requires
            idx < old(self).settings.plugs@.len(),
        ensures
            final(self).settings.enabled == old(self).settings.enabled,
            final(self).settings.plugs@.len() == old(self).settings.plugs@.len(),
            forall|i: int| 0 <= i < old(self).settings.plugs@.len() ==> #[trigger] plug_view(final(self).settings.plugs@[i]) == (
                if i == idx { (old(self).settings.plugs@[i].name@, old(self).settings.plugs@[i].url@, true) }
                else { plug_view(old(self).settings.plugs@[i]) }),
    {
        self.settings.plugs[idx].removed = true;
    }

    pub fn restore_plug(&mut self, idx: usize)
        requires
            idx < old(self).settings.plugs@.len(),
        ensures
            final(self).settings.enabled == old(self).settings.enabled,
            final(self).settings.plugs@.len() == old(self).settings.plugs@.len(),
            forall|i: int| 0 <= i < old(self).settings.plugs@.len() ==> #[trigger] plug_view(final(self).settings.plugs@[i]) == (
                if i == idx { (old(self).settings.plugs@[i].name@, old(self).settings.plugs@[i].url@, false) }
                else { plug_view(old(self).settings.plugs@[i]) }),
    {
        self.settings.plugs[idx].removed = false;
    }

    /// Adds `plug` unless a listed plugin has its path or its name; tells whether it was added.
    pub fn add_plug(&mut self, plug: PlugInfo) -> (added: bool)
        ensures
            added == !clashes(old(self).settings.plugs@, plug),
            final(self).settings.enabled == old(self).settings.enabled,
            added ==> final(self).settings.plugs@ == old(self).settings.plugs@.push(plug),
            !added ==> final(self).settings.plugs@ == old(self).settings.plugs@,
    {
        let path = plug.get_plug_path();
        let mut i: usize = 0;
        while i < self.settings.plugs.len()
            invariant
                i <= self.settings.plugs@.len(),
                self.settings.plugs@ == old(self).settings.plugs@,
                self.settings.enabled == old(self).settings.enabled,
                path@ == plug_path(plug.url@),
                forall|j: int| 0 <= j < i ==> !(plug_path((#[trigger] self.settings.plugs@[j]).url@) == plug_path(plug.url@)
                    || self.settings.plugs@[j].name@ == plug.name@),
            decreases self.settings.plugs@.len() - i,
        {
            let p_path = self.settings.plugs[i].get_plug_path();
            if str_eq(p_path.as_str(), path.as_str()) || str_eq(self.settings.plugs[i].name.as_str(), plug.name.as_str()) {
                return false;
            }
            i = i + 1;
        }
        self.settings.plugs.push(plug);
        true
    }

    pub fn plugs_count(&self) -> (n: usize)
        ensures
            n == self.settings.plugs@.len(),
    {
        self.settings.plugs.len()
    }

    /// Moves the plugin at `idx` by `offset` places.
    pub fn move_item(&mut self, idx: usize, offset: i32)
        requires
            idx < old(self).settings.plugs@.len(),
            idx <= i32::MAX,
            0 <= idx + offset < old(self).settings.plugs@.len(),
            idx + offset <= i32::MAX,
        ensures
            final(self).settings.enabled == old(self).settings.enabled,
            final(self).settings.plugs@ == old(self).settings.plugs@.remove(idx as int).insert(
                idx + offset,
                old(self).settings.plugs@[idx as int],
            ),
    {
        let plug = self.settings.plugs.remove(idx);
        self.settings.plugs.insert((idx as i32 + offset) as usize, plug);
    }
}

/// Once split, the plugins kept from a list are those kept from each part.
pub proof fn lemma_kept_concat(a: Seq<PlugInfo>, b: Seq<PlugInfo>)
    ensures
        kept(a + b) == kept(a) + kept(b),
    decreases b.len(),
{
    if b.len() == 0 {
        assert(a + b =~= a);
        assert(kept(a) + Seq::<PlugInfo>::empty() =~= kept(a));
    } else {
        lemma_kept_concat(a, b.drop_last());
        assert((a + b).drop_last() =~= a + b.drop_last());
        assert((a + b).last() == b.last());
        if !b.last().removed {
            assert(kept(a) + kept(b.drop_last()).push(b.last()) =~= (kept(a) + kept(b.drop_last())).push(b.last()));
        }
    }
}

/// Two plugins of `plugs` never share a path or a name.
pub open spec fn no_clashes(plugs: Seq<PlugInfo>) -> bool {
    forall|i: int, j: int|
        0 <= i < j < plugs.len() ==> !(plug_path((#[trigger] plugs[i]).url@) == plug_path(
            (#[trigger] plugs[j]).url@,
        ) || plugs[i].name@ == plugs[j].name@)
}

/// Adding a plugin through `add_plug` keeps the list free of two plugins with one path or
/// one name.
pub proof fn law_add_keeps_no_clashes(plugs: Seq<PlugInfo>, plug: PlugInfo)
    requires
        no_clashes(plugs),
        !clashes(plugs, plug),
    ensures
        no_clashes(plugs.push(plug)),
{
    let s = plugs.push(plug);
    assert forall|i: int, j: int| 0 <= i < j < s.len() implies !(plug_path((#[trigger] s[i]).url@)
        == plug_path((#[trigger] s[j]).url@) || s[i].name@ == s[j].name@) by {
        if j == plugs.len() {
            assert(s[i] == plugs[i]);
            if plug_path(plugs[i].url@) == plug_path(plug.url@) || plugs[i].name@ == plug.name@ {
                assert(clashes(plugs, plug));
            }
        } else {
            assert(s[i] == plugs[i] && s[j] == plugs[j]);
        }
    }
}

/// Restoring a plugin right after removing it gives back the list as it was, where the
/// plugin was not marked removed before.
pub proof fn law_remove_then_restore(a: Seq<PlugInfo>, b: Seq<PlugInfo>, c: Seq<PlugInfo>, idx: int)
    requires
        0 <= idx < a.len(),
        !a[idx].removed,
        b.len() == a.len(),
        forall|i: int| 0 <= i < a.len() ==> #[trigger] plug_view(b[i]) == (
            if i == idx { (a[i].name@, a[i].url@, true) } else { plug_view(a[i]) }),
        c.len() == b.len(),
        forall|i: int| 0 <= i < b.len() ==> #[trigger] plug_view(c[i]) == (
            if i == idx { (b[i].name@, b[i].url@, false) } else { plug_view(b[i]) }),
    ensures
        forall|i: int| 0 <= i < a.len() ==> #[trigger] plug_view(c[i]) == plug_view(a[i]),
{
    assert forall|i: int| 0 <= i < a.len() implies #[trigger] plug_view(c[i]) == plug_view(a[i]) by {
        assert(plug_view(b[i]) == (if i == idx { (a[i].name@, a[i].url@, true) } else { plug_view(a[i]) }));
    }
}

/// Dropping the removed plugins leaves no plugin to drop.
pub proof fn law_clear_removed_idempotent(plugs: Seq<PlugInfo>)
    ensures
        kept(kept(plugs)) == kept(plugs),
    decreases plugs.len(),
{
    if plugs.len() > 0 {
        law_clear_removed_idempotent(plugs.drop_last());
        if !plugs.last().removed {
            let k = kept(plugs.drop_last()).push(plugs.last());
            assert(k.drop_last() =~= kept(plugs.drop_last()));
        }
    }
}

/// Dropping the removed plugins does not change the configuration generated from the list.
pub proof fn law_clear_removed_keeps_config(plugs: Seq<PlugInfo>)
    ensures
        plug_lines(kept(plugs)) == plug_lines(plugs),
    decreases plugs.len(),
{
    if plugs.len() > 0 {
        law_clear_removed_keeps_config(plugs.drop_last());
        if !plugs.last().removed {
            let k = kept(plugs.drop_last()).push(plugs.last());
            assert(k.drop_last() =~= kept(plugs.drop_last()));
        }
    }
}

/// The vim-plug configuration the store generates.
#[derive(Clone)]
pub struct PlugManagerConfigSource {
    pub source: String,
}

impl PlugManagerConfigSource {
    /// `call plug#begin()`, a `Plug` line per plugin not removed, `call plug#end()`.
    pub fn new(store: &Store) -> (c: Self)
        ensures
            c.source@ == "call plug#begin()\n"@ + plug_lines(store.settings.plugs@) + "call plug#end()\n"@,
    {
        let mut builder = string_from("call plug#begin()\n");
        let ghost head = builder@;
        let plugs = &store.settings.plugs;
        let mut i: usize = 0;
        while i < plugs.len()
            invariant
                i <= plugs@.len(),
                builder@ == head + plug_lines(plugs@.take(i as int)),
            decreases plugs@.len() - i,
        {
            proof {
                let t = plugs@.take(i + 1);
                assert(t.drop_last() =~= plugs@.take(i as int));
                assert(t.last() == plugs@[i as int]);
            }
            if !plugs[i].removed {
                let path = plugs[i].get_plug_path();
                push_str(&mut builder, "Plug '");
                push_str(&mut builder, path.as_str());
                push_str(&mut builder, "', { 'as': '");
                push_str(&mut builder, plugs[i].name.as_str());
                push_str(&mut builder, "' }\n");
                proof {
                    assert(builder@ =~= head + plug_lines(plugs@.take(i + 1)));
                }
            }
            i = i + 1;
        }
        proof {
            assert(plugs@.take(i as int) =~= plugs@);
        }
        push_str(&mut builder, "call plug#end()\n");
        PlugManagerConfigSource { source: builder }
    }
}

} // verus!
