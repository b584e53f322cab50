//! Status-bar state of the editor front end.
//!
//! The surrounding editor shell owns the event loop; the update rule
//! for the status bar lives here.

use vstd::prelude::*;

verus! {

/// One status-bar entry.
#[derive(Debug)]
pub struct StatusBarItem {
    pub id: String,
    pub text: String,
    pub tooltip: Option<String>,
    pub command: Option<String>,
}

/// Spec-level value of a [`StatusBarItem`].
pub struct StatusBarItemView {
    pub id: Seq<char>,
    pub text: Seq<char>,
    pub tooltip: Option<Seq<char>>,
    pub command: Option<Seq<char>>,
}

impl View for StatusBarItem {
    type V = StatusBarItemView;

    open spec fn view(&self) -> StatusBarItemView {
        StatusBarItemView {
            id: self.id@,
            text: self.text@,
            tooltip: match self.tooltip {
                Some(t) => Some(t@),
                None => None,
            },
            command: match self.command {
                Some(c) => Some(c@),
                None => None,
            },
        }
    }
}

/// Index of the first item with the id, or `-1`.
pub open spec fn item_idx(items: Seq<StatusBarItemView>, id: Seq<char>) -> int
    decreases items.len(),
{
    if items.len() == 0 {
        -1
    } else if items[0].id == id {
        0
    } else {
        let r = item_idx(items.drop_first(), id);
        if r < 0 {
            -1
        } else {
            1 + r
        }
    }
}

proof fn lemma_item_idx(items: Seq<StatusBarItemView>, id: Seq<char>)
    ensures
        -1 <= item_idx(items, id) < items.len(),
        item_idx(items, id) >= 0 ==> items[item_idx(items, id)].id == id && forall|j: int|
            0 <= j < item_idx(items, id) ==> (#[trigger] items[j]).id != id,
        item_idx(items, id) < 0 ==> forall|j: int|
            0 <= j < items.len() ==> (#[trigger] items[j]).id != id,
    decreases items.len(),
{
    if items.len() > 0 && items[0].id != id {
        lemma_item_idx(items.drop_first(), id);
        let d = items.drop_first();
        let r = item_idx(d, id);
        if r >= 0 {
            assert(items[r + 1] == d[r]);
            assert forall|j: int| 0 <= j < item_idx(items, id) implies (#[trigger] items[j]).id
                != id by {
                if j > 0 {
                    assert(d[j - 1] == items[j]);
                }
            }
        } else {
            assert forall|j: int| 0 <= j < items.len() implies (#[trigger] items[j]).id != id by {
                if j > 0 {
                    assert(d[j - 1] == items[j]);
                }
            }
        }
    }
}

proof fn lemma_item_idx_unique(items: Seq<StatusBarItemView>, id: Seq<char>, i: int)
    requires
        0 <= i <= items.len(),
        forall|j: int| 0 <= j < i ==> (#[trigger] items[j]).id != id,
        i < items.len() ==> items[i].id == id,
    ensures
        i < items.len() ==> i == item_idx(items, id),
        i == items.len() ==> item_idx(items, id) < 0,
{
    lemma_item_idx(items, id);
    let f = item_idx(items, id);
    if i < items.len() {
        if f < 0 {
            assert(items[i].id != id);
        } else if f < i {
            assert(items[f].id != id);
        } else if f > i {
            assert(items[i].id != id);
        }
    } else {
        if f >= 0 {
            assert(items[f].id != id);
        }
    }
}

/// How an update changes the status bar: the first item with the id
/// gets the new text and tooltip (keeping its command); an unknown id
/// appends a new item wired to the metrics-details command.
pub open spec fn updated_items(
    items: Seq<StatusBarItemView>,
    id: Seq<char>,
    text: Seq<char>,
    tooltip: Option<Seq<char>>,
) -> Seq<StatusBarItemView> {
    let i = item_idx(items, id);
    if i >= 0 {
        items.update(i, StatusBarItemView { text, tooltip, ..items[i] })
    } else {
        items.push(
            StatusBarItemView {
                id,
                text,
                tooltip,
                command: Some("windsurf.showMetricsDetails"@),
            },
        )
    }
}

/// Updates the status bar under the given id.
#[verifier::loop_isolation(false)]
pub fn update_status_bar(
    items: &mut Vec<StatusBarItem>,
    id: &String,
    text: String,
    tooltip: Option<String>,
)
    ensures
        final(items)@.map_values(|x: StatusBarItem| x@) == updated_items(
            old(items)@.map_values(|x: StatusBarItem| x@),
            id@,
            text@,
            match tooltip {
                Some(t) => Some(t@),
                None => None,
            },
        ),
{
    let ghost v = items@.map_values(|x: StatusBarItem| x@);
    let ghost tv: Option<Seq<char>> = match tooltip {
        Some(ref t) => Some(t@),
        None => None,
    };
    let mut i: usize = 0;
    while i < items.len()
        invariant
            i <= items@.len(),
            items@ == old(items)@,
            forall|j: int| 0 <= j < i ==> (#[trigger] v[j]).id != id@,
        decreases items@.len() - i,
    {
        proof {
            assert(v[i as int] == items@[i as int]@);
        }
        if items[i].id.eq(id) {
            proof {
                lemma_item_idx_unique(v, id@, i as int);
            }
            let command = match &items[i].command {
                Some(c) => Some(c.clone()),
                None => None,
            };
            let entry = StatusBarItem { id: items[i].id.clone(), text, tooltip, command };
            proof {
                assert(entry@ == StatusBarItemView { text: text@, tooltip: tv, ..v[i as int] });
            }
            items.set(i, entry);
            proof {
                assert(items@.map_values(|x: StatusBarItem| x@) =~= updated_items(
                    v,
                    id@,
                    text@,
                    tv,
                ));
            }
            return;
        }
        i = i + 1;
    }
    proof {
        lemma_item_idx_unique(v, id@, v.len() as int);
    }
    let entry = StatusBarItem {
        id: id.clone(),
        text,
        tooltip,
        command: Some("windsurf.showMetricsDetails".to_owned()),
    };
    items.push(entry);
    proof {
        assert(items@.map_values(|x: StatusBarItem| x@) =~= updated_items(v, id@, text@, tv));
    }
}

} // verus!
