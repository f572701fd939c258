//! The tab bar: whether it shows, the label of each tab, and the page that
//! is current.
use vstd::prelude::*;

use crate::text::string_from;
use crate::value::{same_value, values_equal, Value};

verus! {

/// What the tab bar shows: a label per tab and the current page.
pub struct TabsPlan {
    pub labels: Vec<String>,
    pub current: Option<usize>,
}

/// The label of a tab: its name, else `??`.
pub open spec fn tab_label(name: Option<String>) -> Seq<char> {
    match name {
        Some(n) => n@,
        None => "??"@,
    }
}

/// The page made current: the last tab whose handle is the selected one.
pub open spec fn selected_page(selected: Value, tabs: Seq<(Value, Option<String>)>) -> Option<int>
    decreases tabs.len(),
{
    if tabs.len() == 0 {
        None
    } else if same_value(selected, tabs.last().0) {
        Some(tabs.len() - 1)
    } else {
        selected_page(selected, tabs.drop_last())
    }
}

proof fn lemma_selected_page_bound(selected: Value, tabs: Seq<(Value, Option<String>)>)
    ensures
        selected_page(selected, tabs) matches Some(k) ==> 0 <= k < tabs.len(),
    decreases tabs.len(),
{
    if tabs.len() > 0 {
        lemma_selected_page_bound(selected, tabs.drop_last());
    }
}

/// The tab bar for the tabs neovim reports and the selected one: hidden
/// (`None`) with one tab or none; else a label per tab and, as current page,
/// the last tab whose handle is `selected`.
pub fn update_tabs(selected: &Value, tabs: &Vec<(Value, Option<String>)>) -> (r: Option<TabsPlan>)
    ensures
        r is None <==> tabs@.len() <= 1,
        r matches Some(p) ==> p.labels@.map_values(|l: String| l@) == tabs@.map_values(
            |t: (Value, Option<String>)| tab_label(t.1),
        ) && p.current == (match selected_page(*selected, tabs@) {
            Some(i) => Some(i as usize),
            None => None,
        }),
{
    if tabs.len() <= 1 {
        return None;
    }
    proof {
        reveal_strlit("??");
    }
    let mut labels: Vec<String> = Vec::new();
    let mut current: Option<usize> = None;
    let mut i: usize = 0;
    proof {
        assert(tabs@.take(0) =~= Seq::<(Value, Option<String>)>::empty());
    }
    while i < tabs.len()
        invariant
            i <= tabs@.len(),
            labels@.len() == i,
            forall|j: int| 0 <= j < i ==> (#[trigger] labels@[j])@ == tab_label(tabs@[j].1),
            current == (match selected_page(*selected, tabs@.take(i as int)) {
                Some(k) => Some(k as usize),
                None => None,
            }),
        decreases tabs@.len() - i,
    {
        proof {
            assert(tabs@.take(i + 1).drop_last() =~= tabs@.take(i as int));
            assert(tabs@.take(i + 1).last() == tabs@[i as int]);
            lemma_selected_page_bound(*selected, tabs@.take(i as int));
        }
        let label = match &tabs[i].1 {
            Some(name) => string_from(name.as_str()),
            None => string_from("??"),
        };
        labels.push(label);
        if values_equal(selected, &tabs[i].0) {
            current = Some(i);
        }
        i = i + 1;
    }
    proof {
        assert(tabs@.take(i as int) =~= tabs@);
        assert(labels@.map_values(|l: String| l@) =~= tabs@.map_values(|t: (Value, Option<String>)| tab_label(t.1)));
    }
    Some(TabsPlan { labels, current })
}

} // verus!
