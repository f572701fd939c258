//! Subscriptions to neovim autocmd events: registering them, the autocmd
//! commands that make neovim report them, and reading its reports.
use vstd::prelude::*;

use crate::text::{push_str, str_eq, string_from, u64_to_string, decimal};
use crate::value::Value;

verus! {

/// An event name with the pattern it must match; the pattern is mostly `"*"`.
#[derive(Debug)]
pub struct SubscriptionKey {
    pub event_name: String,
    pub pattern: String,
}

impl SubscriptionKey {
    /// A key for `event_name` with every pattern (`"*"`).
    pub fn from(event_name: &str) -> (k: Self)
        ensures
            k.event_name@ == event_name@,
            k.pattern@ == "*"@,
    {
        SubscriptionKey { event_name: string_from(event_name), pattern: string_from("*") }
    }

    pub fn with_pattern(event_name: &str, pattern: &str) -> (k: Self)
        ensures
            k.event_name@ == event_name@,
            k.pattern@ == pattern@,
    {
        SubscriptionKey { event_name: string_from(event_name), pattern: string_from(pattern) }
    }

    pub open spec fn key_view(&self) -> (Seq<char>, Seq<char>) {
        (self.event_name@, self.pattern@)
    }

    pub fn same(&self, other: &SubscriptionKey) -> (r: bool)
        ensures
            r == (self.key_view() == other.key_view()),
    {
        str_eq(self.event_name.as_str(), other.event_name.as_str()) && str_eq(
            self.pattern.as_str(),
            other.pattern.as_str(),
        )
    }

    pub fn duplicate(&self) -> (k: Self)
        ensures
            k.key_view() == self.key_view(),
    {
        SubscriptionKey { event_name: self.event_name.clone(), pattern: self.pattern.clone() }
    }
}

/// A callback and the expressions whose values are passed to it.
pub struct Subscription<F> {
    pub cb: F,
    pub args: Vec<String>,
}

/// Identifies one subscription: its key and its index among that key's subscriptions.
#[derive(Debug)]
pub struct SubscriptionHandle {
    pub key: SubscriptionKey,
    pub index: usize,
}

/// The argument expressions of a subscription, as character sequences.
pub open spec fn args_view<F>(s: Subscription<F>) -> Seq<Seq<char>> {
    s.args@.map_values(|a: String| a@)
}

/// All subscriptions, grouped by key; each key occurs once.
pub struct Subscriptions<F> {
    pub entries: Vec<(SubscriptionKey, Vec<Subscription<F>>)>,
}

/// The `autocmd` command that has neovim report the `index`-th subscription
/// of `event`/`pattern`, with the values of `args`.
pub open spec fn autocmd_text(event: Seq<char>, pattern: Seq<char>, index: nat, args: Seq<Seq<char>>) -> Seq<char> {
    "autocmd "@ + event + " "@ + pattern + " call rpcnotify(1, 'subscription', '"@ + event + "', '"@
        + pattern + "', "@ + crate::text::decimal(index) + " "@ + args_suffix(args) + ")"@
}

/// `", a1, a2, ..."` for the argument expressions.
pub open spec fn args_suffix(args: Seq<Seq<char>>) -> Seq<char>
    decreases args.len(),
{
    if args.len() == 0 {
        Seq::empty()
    } else {
        args_suffix(args.drop_last()) + ", "@ + args.last()
    }
}

impl<F> Subscriptions<F> {
    /// No key occurs twice.
    pub open spec fn well_formed(&self) -> bool {
        forall|i: int, j: int|
            0 <= i < j < self.entries@.len() ==> (#[trigger] self.entries@[i]).0.key_view()
                != (#[trigger] self.entries@[j]).0.key_view()
    }

    /// Index of the entry for `key`.
    pub open spec fn entry_of(&self, key: (Seq<char>, Seq<char>)) -> Option<int> {
        if exists|i: int| 0 <= i < self.entries@.len() && (#[trigger] self.entries@[i]).0.key_view() == key {
            Some(choose|i: int| 0 <= i < self.entries@.len() && (#[trigger] self.entries@[i]).0.key_view() == key)
        } else {
            None
        }
    }

    pub fn new() -> (s: Self)
        ensures
            s.well_formed(),
            s.entries@.len() == 0,
    {
        Subscriptions { entries: Vec::new() }
    }

    fn find_entry(&self, key: &SubscriptionKey) -> (r: Option<usize>)
        requires
            self.well_formed(),
        ensures
            r is Some <==> self.entry_of(key.key_view()) is Some,
            r matches Some(i) ==> self.entry_of(key.key_view()) == Some(i as int) && i < self.entries@.len(),
    {
        let mut i: usize = 0;
        while i < self.entries.len()
            invariant
                self.well_formed(),
                i <= self.entries@.len(),
                forall|j: int| 0 <= j < i ==> (#[trigger] self.entries@[j]).0.key_view() != key.key_view(),
            decreases self.entries@.len() - i,
        {
            if self.entries[i].0.same(key) {
                proof {
                    let k = choose|k: int| 0 <= k < self.entries@.len() && (#[trigger] self.entries@[k]).0.key_view() == key.key_view();
                    if k != i {
                        if k < i {
                        } else {
                            assert(self.entries@[i as int].0.key_view() != self.entries@[k].0.key_view());
                        }
                    }
                }
                return Some(i);
            }
            i = i + 1;
        }
        None
    }

    /// Adds a subscription to `key`, after the ones it already has, and gives
    /// its handle.
    pub fn subscribe(&mut self, key: SubscriptionKey, args: &[&str], cb: F) -> (h: SubscriptionHandle)
        requires
            old(self).well_formed(),
        ensures
            final(self).well_formed(),
            h.key.key_view() == key.key_view(),
            final(self).entry_of(key.key_view()) is Some,
            ({
                let e = final(self).entry_of(key.key_view())->0;
                let subs = final(self).entries@[e].1@;
                &&& h.index + 1 == subs.len()
                &&& args_view(subs[h.index as int]) == args@.map_values(|a: &str| a@)
                &&& subs[h.index as int].cb == cb
                &&& match old(self).entry_of(key.key_view()) {
                    Some(oe) => {
                        &&& e == oe
                        &&& subs.take(h.index as int) == old(self).entries@[oe].1@
                        &&& final(self).entries@.len() == old(self).entries@.len()
                        &&& forall|i: int| 0 <= i < old(self).entries@.len() && i != oe ==> #[trigger] final(self).entries@[i]
                            == old(self).entries@[i]
                    },
                    None => {
                        &&& e == old(self).entries@.len()
                        &&& h.index == 0
                        &&& final(self).entries@.take(e) == old(self).entries@
                    },
                }
            }),
    {
        let mut arg_strings: Vec<String> = Vec::new();
        let mut i: usize = 0;
        while i < args.len()
            invariant
                i <= args@.len(),
                arg_strings@.len() == i,
                forall|j: int| 0 <= j < i ==> #[trigger] arg_strings@[j]@ == args@[j]@,
            decreases args@.len() - i,
        {
            arg_strings.push(string_from(args[i]));
            i = i + 1;
        }
        let ghost args_v = args@.map_values(|a: &str| a@);
        proof {
            assert(arg_strings@.map_values(|a: String| a@) =~= args_v);
        }
        let sub = Subscription { cb, args: arg_strings };
        match self.find_entry(&key) {
            Some(e) => {
                let ghost old_entries = self.entries@;
                let index = self.entries[e].1.len();
                self.entries[e].1.push(sub);
                proof {
                    assert(self.entries@[e as int].0 == old_entries[e as int].0);
                    assert forall|i: int, j: int| 0 <= i < j < self.entries@.len() implies (#[trigger] self.entries@[i]).0.key_view()
                        != (#[trigger] self.entries@[j]).0.key_view() by {
                        assert(self.entries@[i].0 == old_entries[i].0);
                        assert(self.entries@[j].0 == old_entries[j].0);
                    }
                    assert(self.entries@[e as int].0.key_view() == key.key_view());
                    let k = choose|k: int| 0 <= k < self.entries@.len() && (#[trigger] self.entries@[k]).0.key_view() == key.key_view();
                    if k != e {
                        if k < e {
                            assert(self.entries@[k].0.key_view() != self.entries@[e as int].0.key_view());
                        } else {
                            assert(self.entries@[e as int].0.key_view() != self.entries@[k].0.key_view());
                        }
                    }
                    assert(self.entries@[e as int].1@.take(index as int) =~= old_entries[e as int].1@);
                }
                SubscriptionHandle { key, index }
            },
            None => {
                let ghost old_entries = self.entries@;
                let handle_key = key.duplicate();
                let mut subs: Vec<Subscription<F>> = Vec::new();
                subs.push(sub);
                self.entries.push((key, subs));
                proof {
                    let e = old_entries.len() as int;
                    assert(self.entries@[e].0.key_view() == handle_key.key_view());
                    assert forall|i: int, j: int| 0 <= i < j < self.entries@.len() implies (#[trigger] self.entries@[i]).0.key_view()
                        != (#[trigger] self.entries@[j]).0.key_view() by {
                        if j == e {
                            assert(self.entries@[i] == old_entries[i]);
                        }
                    }
                    let k = choose|k: int| 0 <= k < self.entries@.len() && (#[trigger] self.entries@[k]).0.key_view() == handle_key.key_view();
                    if k != e {
                        assert(self.entries@[k] == old_entries[k]);
                    }
                    assert(self.entries@.take(e) =~= old_entries);
                }
                SubscriptionHandle { key: handle_key, index: 0 }
            },
        }
    }

    /// The subscription `index` of `key`, if there is one.
    pub fn find(&self, key: &SubscriptionKey, index: usize) -> (r: Option<&Subscription<F>>)
        requires
            self.well_formed(),
        ensures
            r is Some <==> (self.entry_of(key.key_view()) matches Some(e) && index < self.entries@[e].1@.len()),
            r matches Some(s) ==> *s == self.entries@[self.entry_of(key.key_view())->0].1@[index as int],
    {
        match self.find_entry(key) {
            Some(e) => {
                if index < self.entries[e].1.len() {
                    Some(&self.entries[e].1[index])
                } else {
                    None
                }
            },
            None => None,
        }
    }

    /// The autocmd commands that register every subscription with neovim, in
    /// the order of the keys and, per key, of subscribing.
    pub fn set_autocmds(&self) -> (cmds: Vec<String>)
        ensures
            cmds@.map_values(|c: String| c@) == all_autocmds(self.entries@),
    {
        let mut cmds: Vec<String> = Vec::new();
        let mut e: usize = 0;
        while e < self.entries.len()
            invariant
                e <= self.entries@.len(),
                cmds@.map_values(|c: String| c@) == all_autocmds(self.entries@.take(e as int)),
            decreases self.entries@.len() - e,
        {
            let key = &self.entries[e].0;
            let subs = &self.entries[e].1;
            let ghost before = cmds@.map_values(|c: String| c@);
            let mut i: usize = 0;
            while i < subs.len()
                invariant
                    e < self.entries@.len(),
                    *key == self.entries@[e as int].0,
                    *subs == self.entries@[e as int].1,
                    i <= subs@.len(),
                    before == all_autocmds(self.entries@.take(e as int)),
                    cmds@.map_values(|c: String| c@) == before + entry_autocmds(*key, subs@, i as int),
                decreases subs@.len() - i,
            {
                let cmd = autocmd(key, i as u64, &subs[i]);
                let ghost old_cmds = cmds@;
                cmds.push(cmd);
                proof {
                    assert(cmds@ == old_cmds.push(cmd));
                    let lhs = cmds@.map_values(|c: String| c@);
                    let rhs = before + entry_autocmds(*key, subs@, i + 1);
                    assert(old_cmds.map_values(|c: String| c@) == before + entry_autocmds(*key, subs@, i as int));
                    assert(old_cmds.map_values(|c: String| c@).len() == old_cmds.len());
                    assert(entry_autocmds(*key, subs@, i as int).len() == i);
                    assert(entry_autocmds(*key, subs@, i + 1).len() == i + 1);
                    assert(lhs.len() == cmds@.len());
                    assert(lhs.len() == rhs.len());
                    assert forall|k: int| 0 <= k < lhs.len() implies lhs[k] == rhs[k] by {
                        if k < old_cmds.len() {
                            assert(lhs[k] == old_cmds.map_values(|c: String| c@)[k]);
                        } else {
                            assert(lhs[k] == cmd@);
                        }
                    }
                    assert(lhs =~= rhs);
                }
                i = i + 1;
            }
            proof {
                let t = self.entries@.take(e + 1);
                assert(t.drop_last() =~= self.entries@.take(e as int));
            }
            e = e + 1;
        }
        proof {
            assert(self.entries@.take(e as int) =~= self.entries@);
        }
        cmds
    }
}

/// An argument of a subscription report as the callback gets it: a string
/// as is, a non-negative integer in decimal; anything else is unreadable.
pub open spec fn arg_text(v: Value) -> Option<Seq<char>> {
    match v.spec_as_str() {
        Some(s) => Some(s),
        None => match v.spec_as_u64() {
            Some(n) => Some(decimal(n as nat)),
            None => None,
        },
    }
}

/// All of `args` read by `arg_text`, if each can be.
pub open spec fn args_text(args: Seq<Value>) -> Option<Seq<Seq<char>>>
    decreases args.len(),
{
    if args.len() == 0 {
        Some(Seq::empty())
    } else {
        match (args_text(args.drop_last()), arg_text(args.last())) {
            (Some(a), Some(t)) => Some(a.push(t)),
            _ => None,
        }
    }
}

/// What a subscription report `[event, pattern, index, args...]` says, or the
/// error message for the first part that cannot be read.
pub open spec fn spec_read_report(params: Seq<Value>) -> Result<(Seq<char>, Seq<char>, u64, Seq<Seq<char>>), Seq<char>> {
    if params.len() < 1 || params[0].spec_as_str() is None {
        Err("Error reading event name"@)
    } else if params.len() < 2 || params[1].spec_as_str() is None {
        Err("Error reading pattern"@)
    } else if params.len() < 3 || params[2].spec_as_u64() is None {
        Err("Error reading index"@)
    } else {
        match args_text(params.skip(3)) {
            Some(args) => Ok((params[0].spec_as_str()->0, params[1].spec_as_str()->0, params[2].spec_as_u64()->0, args)),
            None => Err("Error reading args"@),
        }
    }
}

fn arg_string(v: &Value) -> (r: Option<String>)
    ensures
        r is Some <==> arg_text(*v) is Some,
        r matches Some(s) ==> s@ == arg_text(*v)->0,
{
    match v.as_str() {
        Some(s) => Some(string_from(s)),
        None => match v.as_u64() {
            Some(n) => Some(u64_to_string(n)),
            None => None,
        },
    }
}

impl<F> Subscriptions<F> {
    /// Reads a subscription report from neovim and gives the callback it
    /// triggers with the arguments to pass, or `None` when no subscription
    /// has that key and index.
    pub fn notify(&self, params: &Vec<Value>) -> (r: Result<Option<(&F, Vec<String>)>, String>)
        requires
            self.well_formed(),
        ensures
            r is Err <==> spec_read_report(params@) is Err,
            r matches Err(e) ==> e@ == spec_read_report(params@)->Err_0,
            r matches Ok(found) ==> ({
                let (ev, pat, idx, args) = spec_read_report(params@)->Ok_0;
                match self.entry_of((ev, pat)) {
                    Some(e) => if (idx as usize) < self.entries@[e].1@.len() {
                        found matches Some((cb, a)) && *cb == self.entries@[e].1@[idx as usize as int].cb
                            && a@.map_values(|s: String| s@) == args
                    } else {
                        found is None
                    },
                    None => found is None,
                }
            }),
    {
        if params.len() < 1 {
            return Err(string_from("Error reading event name"));
        }
        let ev_name = match params[0].as_str() {
            Some(s) => s,
            None => return Err(string_from("Error reading event name")),
        };
        if params.len() < 2 {
            return Err(string_from("Error reading pattern"));
        }
        let pattern = match params[1].as_str() {
            Some(s) => s,
            None => return Err(string_from("Error reading pattern")),
        };
        if params.len() < 3 {
            return Err(string_from("Error reading index"));
        }
        let index = match params[2].as_u64() {
            Some(i) => i as usize,
            None => return Err(string_from("Error reading index")),
        };
        let mut args: Vec<String> = Vec::new();
        let mut i: usize = 3;
        while i < params.len()
            invariant
                3 <= i <= params@.len(),
                params@[0].spec_as_str() is Some,
                params@[1].spec_as_str() is Some,
                params@[2].spec_as_u64() is Some,
                args_text(params@.skip(3).take(i - 3)) == Some(args@.map_values(|s: String| s@)),
            decreases params@.len() - i,
        {
            proof {
                let t = params@.skip(3).take(i - 2);
                assert(t.drop_last() =~= params@.skip(3).take(i - 3));
                assert(t.last() == params@[i as int]);
            }
            match arg_string(&params[i]) {
                Some(s) => {
                    let ghost old_args = args@;
                    args.push(s);
                    proof {
                        assert(args@.map_values(|s: String| s@) =~= old_args.map_values(|s: String| s@).push(s@));
                    }
                },
                None => {
                    proof {
                        let t = params@.skip(3).take(i - 2);
                        assert(arg_text(t.last()) is None);
                        assert(args_text(t) is None);
                        lemma_args_text_none(params@.skip(3), i - 2);
                    }
                    return Err(string_from("Error reading args"));
                },
            }
            i = i + 1;
        }
        proof {
            assert(params@.skip(3).take(i - 3) =~= params@.skip(3));
        }
        let key = SubscriptionKey::with_pattern(ev_name, pattern);
        match self.find(&key, index) {
            Some(sub) => Ok(Some((&sub.cb, args))),
            None => Ok(None),
        }
    }
}

/// The evaluated arguments of a subscription as the callback gets them, if
/// each was evaluated (`Some`) and can be read by `arg_text`.
pub open spec fn evaluated_texts(vals: Seq<Option<Value>>) -> Option<Seq<Seq<char>>>
    decreases vals.len(),
{
    if vals.len() == 0 {
        Some(Seq::empty())
    } else {
        match (evaluated_texts(vals.drop_last()), vals.last()) {
            (Some(a), Some(v)) => match arg_text(v) {
                Some(t) => Some(a.push(t)),
                None => None,
            },
            _ => None,
        }
    }
}

proof fn lemma_evaluated_none(vals: Seq<Option<Value>>, n: int)
    requires
        0 <= n <= vals.len(),
        evaluated_texts(vals.take(n)) is None,
    ensures
        evaluated_texts(vals) is None,
    decreases vals.len() - n,
{
    if n < vals.len() {
        assert(vals.take(n + 1).drop_last() =~= vals.take(n));
        lemma_evaluated_none(vals, n + 1);
    } else {
        assert(vals.take(n) =~= vals);
    }
}

impl<F> Subscriptions<F> {
    /// Runs the subscription `handle` now: `evaluated` holds what neovim gave
    /// for each of its argument expressions (`None` where evaluating failed).
    /// Gives the callback with the arguments as text, or `None` where one of
    /// them could not be had.
    pub fn run_now(&self, handle: &SubscriptionHandle, evaluated: &Vec<Option<Value>>) -> (r: Option<(&F, Vec<String>)>)
        requires
            self.well_formed(),
            self.entry_of(handle.key.key_view()) matches Some(e) && handle.index < self.entries@[e].1@.len(),
        ensures
            r is Some <==> evaluated_texts(evaluated@) is Some,
            r matches Some((cb, a)) ==> *cb == self.entries@[self.entry_of(handle.key.key_view())->0].1@[handle.index as int].cb
                && a@.map_values(|s: String| s@) == evaluated_texts(evaluated@)->0,
    {
        let sub = match self.find(&handle.key, handle.index) {
            Some(s) => s,
            None => {
                return None;
            },
        };
        let mut args: Vec<String> = Vec::new();
        let mut i: usize = 0;
        proof {
            assert(evaluated@.take(0) =~= Seq::<Option<Value>>::empty());
            assert(args@.map_values(|s: String| s@) =~= Seq::<Seq<char>>::empty());
        }
        while i < evaluated.len()
            invariant
                i <= evaluated@.len(),
                evaluated_texts(evaluated@.take(i as int)) == Some(args@.map_values(|s: String| s@)),
            decreases evaluated@.len() - i,
        {
            proof {
                let t = evaluated@.take(i + 1);
                assert(t.drop_last() =~= evaluated@.take(i as int));
                assert(t.last() == evaluated@[i as int]);
            }
            let text = match &evaluated[i] {
                Some(v) => arg_string(v),
                None => None,
            };
            match text {
                Some(t) => {
                    let ghost old_args = args@;
                    args.push(t);
                    proof {
                        assert(args@.map_values(|s: String| s@) =~= old_args.map_values(|s: String| s@).push(t@));
                    }
                },
                None => {
                    proof {
                        lemma_evaluated_none(evaluated@, i + 1);
                    }
                    return None;
                },
            }
            i = i + 1;
        }
        proof {
            assert(evaluated@.take(i as int) =~= evaluated@);
        }
        Some((&sub.cb, args))
    }
}

/// What running a subscription now does next, given what its argument
/// expressions evaluated to so far.
pub enum RunStep<'a, F> {
    /// Evaluate the argument expression at this index next.
    Eval(usize, &'a str),
    /// An evaluation failed: stop, and run no callback.
    Stop,
    /// Every expression evaluated: run this callback with these arguments.
    Run(&'a F, Vec<String>),
}

impl<F> Subscriptions<F> {
    /// The next step of running the subscription `handle` now, where
    /// `evaluated` holds what neovim gave for its first argument expressions,
    /// in order (`None` where evaluating failed). Evaluation stops at the first
    /// result that is neither a string nor an unsigned integer; once all
    /// expressions evaluated, the callback runs with their values as text.
    pub fn run_step(&self, handle: &SubscriptionHandle, evaluated: &Vec<Option<Value>>) -> (r: RunStep<'_, F>)
        requires
            self.well_formed(),
            self.entry_of(handle.key.key_view()) matches Some(e) && handle.index < self.entries@[e].1@.len(),
            evaluated@.len() <= self.entries@[self.entry_of(handle.key.key_view())->0].1@[handle.index as int].args@.len(),
        ensures
            ({
                let sub = self.entries@[self.entry_of(handle.key.key_view())->0].1@[handle.index as int];
                match r {
                    RunStep::Stop => evaluated_texts(evaluated@) is None,
                    RunStep::Eval(i, expr) => evaluated_texts(evaluated@) is Some && i == evaluated@.len()
                        && i < sub.args@.len() && expr@ == sub.args@[i as int]@,
                    RunStep::Run(cb, a) => evaluated_texts(evaluated@) is Some && evaluated@.len()
                        == sub.args@.len() && *cb == sub.cb && a@.map_values(|t: String| t@)
                        == evaluated_texts(evaluated@)->0,
                }
            }),
    {
        let sub = match self.find(&handle.key, handle.index) {
            Some(s) => s,
            None => {
                return RunStep::Stop;
            },
        };
        match self.run_now(handle, evaluated) {
            None => RunStep::Stop,
            Some((cb, args)) => {
                let n = evaluated.len();
                if n < sub.args.len() {
                    RunStep::Eval(n, sub.args[n].as_str())
                } else {
                    RunStep::Run(cb, args)
                }
            },
        }
    }
}

/// A report naming a subscription's key and index reaches that
/// subscription's callback, with the report's arguments: the read-back of
/// `subscribe` by `notify`.
pub proof fn law_report_reaches_callback<F>(subs: Subscriptions<F>, key: SubscriptionKey, index: u64, cb: F, params: Seq<Value>)
    requires
        subs.well_formed(),
        subs.entry_of(key.key_view()) matches Some(e) && index < subs.entries@[e].1@.len() && subs.entries@[e].1@[index as int].cb == cb,
        spec_read_report(params) matches Ok((ev, pat, idx, _)) && (ev, pat) == key.key_view() && idx == index,
    ensures
        ({
            let (ev, pat, idx, args) = spec_read_report(params)->Ok_0;
            &&& subs.entry_of((ev, pat)) is Some
            &&& (idx as usize) < subs.entries@[subs.entry_of((ev, pat))->0].1@.len()
            &&& subs.entries@[subs.entry_of((ev, pat))->0].1@[idx as usize as int].cb == cb
        }),
{
    let e = subs.entry_of(key.key_view())->0;
    let v = subs.entries@[e].1;
    assert(v.len() == v@.len());
    assert(index < v.len());
    assert(index as usize == index);
}

/// Values that are each a string or an unsigned integer are read, in order,
/// as their text.
proof fn lemma_args_text_all(vals: Seq<Value>)
    requires
        forall|j: int| 0 <= j < vals.len() ==> (#[trigger] arg_text(vals[j])) is Some,
    ensures
        args_text(vals) == Some(vals.map_values(|v: Value| arg_text(v)->0)),
    decreases vals.len(),
{
    if vals.len() > 0 {
        let d = vals.drop_last();
        assert forall|j: int| 0 <= j < d.len() implies (#[trigger] arg_text(d[j])) is Some by {
            assert(d[j] == vals[j]);
        }
        lemma_args_text_all(d);
        assert(arg_text(vals[vals.len() - 1]) is Some);
        assert(vals.map_values(|v: Value| arg_text(v)->0) =~= d.map_values(|v: Value| arg_text(v)->0).push(
            arg_text(vals.last())->0,
        ));
    }
}

/// What `subscribe` adds, `notify` reaches: after `h = subscribe(key, args,
/// cb)`, the report `[key's event, key's pattern, h's index, v_1 .. v_m]`,
/// where each `v_j` is a string or an unsigned integer, reads without error
/// and names exactly that subscription, whose callback `cb` then gets the
/// values as text (strings as they are, integers in decimal). The `requires`
/// are what `subscribe` ensures of its handle and of the subscriptions after it.
pub proof fn law_subscribe_then_notify<F>(
    subs: Subscriptions<F>,
    key: SubscriptionKey,
    h: SubscriptionHandle,
    cb: F,
    vals: Seq<Value>,
)
    requires
        subs.well_formed(),
        h.key.key_view() == key.key_view(),
        subs.entry_of(key.key_view()) matches Some(e) && h.index + 1 == subs.entries@[e].1@.len()
            && subs.entries@[e].1@[h.index as int].cb == cb,
        forall|j: int| 0 <= j < vals.len() ==> (#[trigger] arg_text(vals[j])) is Some,
    ensures
        ({
            let params = seq![Value::Str(key.event_name), Value::Str(key.pattern), Value::PosInt(h.index as u64)]
                + vals;
            let e = subs.entry_of(key.key_view())->0;
            &&& spec_read_report(params) == Ok::<_, Seq<char>>(
                (key.event_name@, key.pattern@, h.index as u64, vals.map_values(|v: Value| arg_text(v)->0)),
            )
            &&& subs.entry_of((key.event_name@, key.pattern@)) == Some(e)
            &&& ((h.index as u64) as usize) < subs.entries@[e].1@.len()
            &&& subs.entries@[e].1@[(h.index as u64) as usize as int].cb == cb
        }),
{
    let params = seq![Value::Str(key.event_name), Value::Str(key.pattern), Value::PosInt(h.index as u64)] + vals;
    assert(params.skip(3) =~= vals);
    lemma_args_text_all(vals);
    let e = subs.entry_of(key.key_view())->0;
    let v = subs.entries@[e].1;
    assert(v.len() == v@.len());
    assert((h.index as u64) as usize == h.index);
}

/// Once a prefix of the arguments cannot be read, neither can the whole.
proof fn lemma_args_text_none(args: Seq<Value>, n: int)
    requires
        0 <= n <= args.len(),
        args_text(args.take(n)) is None,
    ensures
        args_text(args) is None,
    decreases args.len() - n,
{
    if n < args.len() {
        let t = args.take(n + 1);
        assert(t.drop_last() =~= args.take(n));
        lemma_args_text_none(args, n + 1);
    } else {
        assert(args.take(n) =~= args);
    }
}

/// The commands for the first `n` subscriptions of one key.
pub open spec fn entry_autocmds<F>(key: SubscriptionKey, subs: Seq<Subscription<F>>, n: int) -> Seq<Seq<char>> {
    Seq::new(n as nat, |i: int| autocmd_text(key.event_name@, key.pattern@, i as nat, args_view(subs[i])))
}

/// The commands for all subscriptions, key by key.
pub open spec fn all_autocmds<F>(entries: Seq<(SubscriptionKey, Vec<Subscription<F>>)>) -> Seq<Seq<char>>
    decreases entries.len(),
{
    if entries.len() == 0 {
        Seq::empty()
    } else {
        all_autocmds(entries.drop_last()) + entry_autocmds(
            entries.last().0,
            entries.last().1@,
            entries.last().1@.len() as int,
        )
    }
}

fn autocmd<F>(key: &SubscriptionKey, index: u64, sub: &Subscription<F>) -> (s: String)
    ensures
        s@ == autocmd_text(key.event_name@, key.pattern@, index as nat, args_view(*sub)),
{
    let mut s = string_from("autocmd ");
    push_str(&mut s, key.event_name.as_str());
    push_str(&mut s, " ");
    push_str(&mut s, key.pattern.as_str());
    push_str(&mut s, " call rpcnotify(1, 'subscription', '");
    push_str(&mut s, key.event_name.as_str());
    push_str(&mut s, "', '");
    push_str(&mut s, key.pattern.as_str());
    push_str(&mut s, "', ");
    let idx = u64_to_string(index);
    push_str(&mut s, idx.as_str());
    push_str(&mut s, " ");
    let mut j: usize = 0;
    let ghost prefix = s@;
    while j < sub.args.len()
        invariant
            j <= sub.args@.len(),
            s@ == prefix + args_suffix(args_view(*sub).take(j as int)),
        decreases sub.args@.len() - j,
    {
        proof {
            let t = args_view(*sub).take(j + 1);
            assert(t.drop_last() =~= args_view(*sub).take(j as int));
            assert(t.last() == sub.args@[j as int]@);
        }
        push_str(&mut s, ", ");
        push_str(&mut s, sub.args[j].as_str());
        proof {
            assert(s@ =~= prefix + args_suffix(args_view(*sub).take(j + 1)));
        }
        j = j + 1;
    }
    proof {
        assert(args_view(*sub).take(j as int) =~= args_view(*sub));
    }
    push_str(&mut s, ")");
    proof {
        assert(s@ =~= autocmd_text(key.event_name@, key.pattern@, index as nat, args_view(*sub)));
    }
    s
}

} // verus!
