//! The history of completed downloads, at most one record per job id.
use vstd::prelude::*;
use crate::queue::{DownloadItem, Status};

verus! {

/// A completed download.
#[derive(Debug, Clone, PartialEq, Eq)]
pub struct HistoryItem {
    pub id: String,
    pub steam_id: String,
    pub name: String,
    pub install_path: String,
    pub timestamp: u64,
}

/// The history records, oldest first.
pub struct HistoryState {
    items: Vec<HistoryItem>,
}

impl View for HistoryState {
    type V = Seq<HistoryItem>;

    closed spec fn view(&self) -> Seq<HistoryItem> {
        self.items@
    }
}

/// Holds of a record whose id is not `id`.
pub open spec fn id_differs(id: Seq<char>) -> spec_fn(HistoryItem) -> bool {
    |h: HistoryItem| h.id@ != id
}

/// The records whose id is not `id`, in order.
pub open spec fn without_id(s: Seq<HistoryItem>, id: Seq<char>) -> Seq<HistoryItem> {
    s.filter(id_differs(id))
}

/// No two records share an id.
pub open spec fn ids_unique(s: Seq<HistoryItem>) -> bool {
    forall|i: int, j: int| 0 <= i < j < s.len() ==> (#[trigger] s[i]).id@ != (#[trigger] s[j]).id@
}

/// The record of a completed job, stamped at `timestamp`.
pub open spec fn record_of(it: DownloadItem, timestamp: u64) -> Option<HistoryItem> {
    match it.install_path {
        Some(p) => if it.status is Completed {
            Some(HistoryItem { id: it.id, steam_id: it.steam_id, name: it.name, install_path: p, timestamp })
        } else {
            None
        },
        None => None,
    }
}

impl HistoryItem {
    /// A copy of the record.
    pub fn duplicate(&self) -> (r: HistoryItem)
        ensures
            r == *self,
    {
        HistoryItem {
            id: self.id.clone(),
            steam_id: self.steam_id.clone(),
            name: self.name.clone(),
            install_path: self.install_path.clone(),
            timestamp: self.timestamp,
        }
    }
}

/// The history record for a finished job: present only when it completed with a path.
pub fn history_record(it: &DownloadItem, timestamp: u64) -> (r: Option<HistoryItem>)
    ensures
        r == record_of(*it, timestamp),
{
    match (&it.status, &it.install_path) {
        (Status::Completed, Some(p)) => Some(
            HistoryItem {
                id: it.id.clone(),
                steam_id: it.steam_id.clone(),
                name: it.name.clone(),
                install_path: p.clone(),
                timestamp,
            },
        ),
        _ => None,
    }
}

proof fn lemma_without_id_step(s: Seq<HistoryItem>, id: Seq<char>, i: int)
    requires
        0 <= i < s.len(),
    ensures
        without_id(s.subrange(0, i + 1), id) == if s[i].id@ != id {
            without_id(s.subrange(0, i), id).push(s[i])
        } else {
            without_id(s.subrange(0, i), id)
        },
{
    let pre = s.subrange(0, i + 1);
    assert(pre.drop_last() =~= s.subrange(0, i));
    reveal(Seq::filter);
}

proof fn lemma_without_id_unique(s: Seq<HistoryItem>, id: Seq<char>)
    requires
        ids_unique(s),
    ensures
        ids_unique(without_id(s, id)),
        forall|k: int| 0 <= k < without_id(s, id).len() ==> (#[trigger] without_id(s, id)[k]).id@ != id,
    decreases s.len(),
{
    reveal(Seq::filter);
    if s.len() > 0 {
        let pre = s.drop_last();
        assert(ids_unique(pre));
        lemma_without_id_unique(pre, id);
        let f = without_id(pre, id);
        assert forall|k: int| 0 <= k < f.len() implies (#[trigger] f[k]).id@ != s.last().id@ by {
            assert(f.contains(f[k]));
            pre.lemma_filter_contains_rev(id_differs(id), f[k]);
            let j = choose|j: int| 0 <= j < pre.len() && pre[j] == f[k];
            assert(s[j] == pre[j]);
            assert(s[s.len() - 1] == s.last());
        }
    }
}

impl HistoryState {
    /// The records are unique by id.
    pub open spec fn wf(&self) -> bool {
        ids_unique(self@)
    }

    /// An empty history.
    pub fn new() -> (r: HistoryState)
        ensures
            r@ == Seq::<HistoryItem>::empty(),
            r.wf(),
    {
        HistoryState { items: Vec::new() }
    }

    /// A history loaded from storage: each record stays, unless a later one has its id.
    pub fn from_items(items: Vec<HistoryItem>) -> (r: HistoryState)
        ensures
            r.wf(),
            items@.len() == 0 ==> r@.len() == 0,
            ids_unique(items@) ==> r@ == items@,
    {
        let mut h = HistoryState::new();
        let n = items.len();
        let mut i: usize = 0;
        while i < n
            invariant
                n == items@.len(),
                i <= n,
                h.wf(),
                i == 0 ==> h@.len() == 0,
                ids_unique(items@) ==> h@ == items@.subrange(0, i as int),
            decreases n - i,
        {
            let ghost before = h@;
            proof {
                if ids_unique(items@) {
                    assert forall|k: int| 0 <= k < before.len() implies (#[trigger] before[k]).id@
                        != items@[i as int].id@ by {
                        assert(before[k] == items@[k]);
                    }
                    assert(without_id(before, items@[i as int].id@) == before) by {
                        lemma_without_id_all(before, items@[i as int].id@);
                    }
                }
            }
            add_history_item(&mut h, items[i].duplicate());
            i = i + 1;
            proof {
                if ids_unique(items@) {
                    assert(h@ =~= items@.subrange(0, i as int));
                }
            }
        }
        proof {
            if ids_unique(items@) {
                assert(items@.subrange(0, n as int) =~= items@);
            }
        }
        h
    }
}

proof fn lemma_without_id_all(s: Seq<HistoryItem>, id: Seq<char>)
    requires
        forall|k: int| 0 <= k < s.len() ==> (#[trigger] s[k]).id@ != id,
    ensures
        without_id(s, id) == s,
    decreases s.len(),
{
    reveal(Seq::filter);
    if s.len() > 0 {
        lemma_without_id_all(s.drop_last(), id);
        assert(s.drop_last().push(s.last()) =~= s);
    }
}

/// Adds a record, replacing any record with the same id; the new record comes last.
pub fn add_history_item(state: &mut HistoryState, item: HistoryItem)
    requires
        old(state).wf(),
    ensures
        final(state).wf(),
        final(state)@ == without_id(old(state)@, item.id@).push(item),
{
    let ghost all = state@;
    let ghost id = item.id@;
    let mut rest: Vec<HistoryItem> = Vec::new();
    std::mem::swap(&mut rest, &mut state.items);
    let n = rest.len();
    let mut i: usize = 0;
    while i < n
        invariant
            n == all.len(),
            i <= n,
            rest@ == all.subrange(i as int, n as int),
            state.items@ == without_id(all.subrange(0, i as int), id),
            id == item.id@,
        decreases n - i,
    {
        let e = rest.remove(0);
        proof {
            assert(e == all[i as int]);
            assert(all.subrange(i + 1, n as int) =~= all.subrange(i as int, n as int).remove(0));
            lemma_without_id_step(all, id, i as int);
        }
        if e.id != item.id {
            state.items.push(e);
        }
        i = i + 1;
    }
    proof {
        assert(all.subrange(0, n as int) =~= all);
        lemma_without_id_unique(all, id);
    }
    state.items.push(item);
    proof {
        let f = without_id(all, id);
        assert forall|a: int, b: int| 0 <= a < b < state@.len() implies (#[trigger] state@[a]).id@
            != (#[trigger] state@[b]).id@ by {
            if b == f.len() {
                assert(state@[a] == f[a]);
            } else {
                assert(state@[a] == f[a]);
                assert(state@[b] == f[b]);
            }
        }
    }
}

/// A copy of every record, oldest first.
pub fn get_all_history(state: &HistoryState) -> (r: Vec<HistoryItem>)
    ensures
        r@ == state@,
{
    let mut out: Vec<HistoryItem> = Vec::new();
    let mut i: usize = 0;
    while i < state.items.len()
        invariant
            i <= state.items@.len(),
            out@ == state.items@.subrange(0, i as int),
        decreases state.items@.len() - i,
    {
        out.push(state.items[i].duplicate());
        i = i + 1;
        assert(out@ =~= state.items@.subrange(0, i as int));
    }
    assert(state.items@.subrange(0, i as int) =~= state.items@);
    out
}

/// Removes all records.
pub fn clear_all_history(state: &mut HistoryState)
    ensures
        final(state)@ == Seq::<HistoryItem>::empty(),
        final(state).wf(),
{
    state.items = Vec::new();
}

/// Removes the record with id `id` and returns it; `None`, changing nothing, when there is
/// none.
pub fn remove_item(state: &mut HistoryState, id: &str) -> (r: Option<HistoryItem>)
    requires
        old(state).wf(),
    ensures
        final(state).wf(),
        match r {
            Some(h) => {
                &&& h.id@ == id@
                &&& old(state)@.contains(h)
                &&& final(state)@ == old(state)@.remove(old(state)@.index_of(h))
            },
            None => {
                &&& forall|k: int| 0 <= k < old(state)@.len() ==> (#[trigger] old(state)@[k]).id@ != id@
                &&& final(state)@ == old(state)@
            },
        },
{
    let key = id.to_owned();
    let mut i: usize = 0;
    while i < state.items.len()
        invariant
            i <= state.items@.len(),
            key@ == id@,
            state@ == old(state)@,
            ids_unique(state.items@),
            forall|k: int| 0 <= k < i ==> (#[trigger] state.items@[k]).id@ != id@,
        decreases state.items@.len() - i,
    {
        if state.items[i].id == key {
            let ghost before = state@;
            let h = state.items.remove(i);
            proof {
                assert(before[i as int] == h);
                assert(before.contains(h));
                let j = before.index_of(h);
                assert(before[j] == h);
                assert(j == i as int) by {
                    if j < i {
                        assert(before[j].id@ != id@);
                    } else if j > i {
                        assert(before[j].id@ != before[i as int].id@);
                    }
                }
                assert forall|a: int, b: int| 0 <= a < b < state@.len() implies (#[trigger] state@[a]).id@
                    != (#[trigger] state@[b]).id@ by {
                    let a0 = if a < i { a } else { a + 1 };
                    let b0 = if b < i { b } else { b + 1 };
                    assert(state@[a] == before[a0]);
                    assert(state@[b] == before[b0]);
                }
            }
            return Some(h);
        }
        i = i + 1;
    }
    None
}

} // verus!
