//! The job store: an ordered collection of download jobs with a status state machine.
use vstd::prelude::*;
use crate::sources::{new_job_id, unix_now_secs};
use vstd::string::StringExecFns;

verus! {

/// Where a job stands. `progress` counts hundredths of a percent (`4250` is 42.5%).
#[derive(Debug, Clone, PartialEq, Eq)]
pub enum Status {
    Pending,
    Downloading { progress: u32 },
    Completed,
    Failed(String),
}

/// One requested acquisition.
#[derive(Debug, Clone, PartialEq, Eq)]
pub struct DownloadItem {
    pub id: String,
    pub steam_id: String,
    pub name: String,
    pub status: Status,
    pub install_path: Option<String>,
    pub created_at: u64,
}

/// How a running job ended: installed at a path, or failed for a reason.
#[derive(Debug, Clone, PartialEq, Eq)]
pub enum Outcome {
    Completed(String),
    Failed(String),
}

/// Why `finalize` changed nothing.
#[derive(Debug, PartialEq, Eq, Structural)]
pub enum FinalizeError {
    /// No job has the id.
    UnknownJob,
    /// The job with the id is not downloading.
    NotDownloading,
}

/// A job ends, once, in `Completed` or `Failed`.
pub open spec fn is_terminal(s: Status) -> bool {
    s is Completed || s is Failed
}

/// The status machine: `Pending -> Downloading -> (Completed | Failed)`, progress may change
/// while downloading, and a terminal status never changes.
pub open spec fn may_follow(a: Status, b: Status) -> bool {
    match a {
        Status::Pending => b is Pending || b is Downloading,
        Status::Downloading { .. } => !(b is Pending),
        _ => b == a,
    }
}

/// The fields fixed at enqueue time agree.
pub open spec fn same_job(a: DownloadItem, b: DownloadItem) -> bool {
    a.id == b.id && a.steam_id == b.steam_id && a.name == b.name && a.created_at == b.created_at
}

/// An install path is present exactly on a completed job.
pub open spec fn item_wf(it: DownloadItem) -> bool {
    it.install_path is Some <==> it.status is Completed
}

/// Where a status can end up after any number of steps of the status machine.
pub open spec fn may_reach(a: Status, b: Status) -> bool {
    match a {
        Status::Pending => true,
        Status::Downloading { .. } => !(b is Pending),
        _ => b == a,
    }
}

/// One operation of the store: `after` keeps every job of `before` at its place, with its
/// fixed fields, each status moved at most one step along the status machine, and a terminal
/// job untouched.
pub open spec fn steps(before: Seq<DownloadItem>, after: Seq<DownloadItem>) -> bool {
    &&& before.len() <= after.len()
    &&& forall|i: int|
        0 <= i < before.len() ==> {
            &&& same_job(#[trigger] before[i], after[i])
            &&& may_follow(before[i].status, after[i].status)
            &&& is_terminal(before[i].status) ==> after[i] == before[i]
        }
}

/// Any run of operations: every job of `before` keeps its place and fixed fields, its status
/// is reachable along the status machine, and a terminal job is untouched.
pub open spec fn evolves(before: Seq<DownloadItem>, after: Seq<DownloadItem>) -> bool {
    &&& before.len() <= after.len()
    &&& forall|i: int|
        0 <= i < before.len() ==> {
            &&& same_job(#[trigger] before[i], after[i])
            &&& may_reach(before[i].status, after[i].status)
            &&& is_terminal(before[i].status) ==> after[i] == before[i]
        }
}

/// A freshly enqueued job.
pub open spec fn pending_job(id: String, steam_id: String, name: String, created_at: u64) -> DownloadItem {
    DownloadItem { id, steam_id, name, status: Status::Pending, install_path: None, created_at }
}

/// The first index at or after `k` of a pending job.
pub open spec fn pending_from(s: Seq<DownloadItem>, k: int) -> Option<int>
    decreases s.len() - k,
{
    if k < 0 || k >= s.len() {
        None
    } else if s[k].status is Pending {
        Some(k)
    } else {
        pending_from(s, k + 1)
    }
}

/// The first pending job, in insertion order.
pub open spec fn first_pending(s: Seq<DownloadItem>) -> Option<int> {
    pending_from(s, 0)
}

/// The first index at or after `k` of a job with id `id`.
pub open spec fn id_from(s: Seq<DownloadItem>, id: Seq<char>, k: int) -> Option<int>
    decreases s.len() - k,
{
    if k < 0 || k >= s.len() {
        None
    } else if s[k].id@ == id {
        Some(k)
    } else {
        id_from(s, id, k + 1)
    }
}

/// The first job with id `id`, in insertion order.
pub open spec fn index_of_id(s: Seq<DownloadItem>, id: Seq<char>) -> Option<int> {
    id_from(s, id, 0)
}

/// `it` with its status set to `st`.
pub open spec fn with_status(it: DownloadItem, st: Status) -> DownloadItem {
    DownloadItem { status: st, ..it }
}

/// `it` finished with outcome `o`.
pub open spec fn finished(it: DownloadItem, o: Outcome) -> DownloadItem {
    match o {
        Outcome::Completed(p) => DownloadItem {
            status: Status::Completed,
            install_path: Some(p),
            ..it
        },
        Outcome::Failed(e) => DownloadItem { status: Status::Failed(e), ..it },
    }
}

/// The index `pending_from` gives holds a pending job, and none before it from `k` on does.
pub proof fn lemma_first_pending_is_pending(s: Seq<DownloadItem>, k: int)
    requires
        0 <= k,
    ensures
        pending_from(s, k) matches Some(i) ==> {
            &&& k <= i < s.len()
            &&& s[i].status is Pending
            &&& forall|j: int| k <= j < i ==> !(#[trigger] s[j].status is Pending)
        },
        pending_from(s, k) is None ==> forall|j: int| k <= j < s.len() ==> !(#[trigger] s[j].status is Pending),
    decreases s.len() - k,
{
    if k < s.len() && !(s[k].status is Pending) {
        lemma_first_pending_is_pending(s, k + 1);
    }
}

/// The index `id_from` gives holds a job with the id, and none before it from `k` on does.
pub proof fn lemma_index_of_id(s: Seq<DownloadItem>, id: Seq<char>, k: int)
    requires
        0 <= k,
    ensures
        id_from(s, id, k) matches Some(i) ==> {
            &&& k <= i < s.len()
            &&& s[i].id@ == id
            &&& forall|j: int| k <= j < i ==> (#[trigger] s[j]).id@ != id
        },
        id_from(s, id, k) is None ==> forall|j: int| k <= j < s.len() ==> (#[trigger] s[j]).id@ != id,
    decreases s.len() - k,
{
    if k < s.len() && s[k].id@ != id {
        lemma_index_of_id(s, id, k + 1);
    }
}

/// The first job with id `id`, if it is downloading.
pub open spec fn downloading_index(s: Seq<DownloadItem>, id: Seq<char>) -> Option<int> {
    match index_of_id(s, id) {
        Some(i) => if s[i].status is Downloading {
            Some(i)
        } else {
            None
        },
        None => None,
    }
}

/// The store after enqueueing `jobs` one after another.
pub open spec fn enqueue_all(s: Seq<DownloadItem>, jobs: Seq<DownloadItem>) -> Seq<DownloadItem>
    decreases jobs.len(),
{
    if jobs.len() == 0 {
        s
    } else {
        enqueue_all(s, jobs.drop_last()).push(jobs.last())
    }
}

/// Enqueueing jobs one after another lists them after the earlier jobs, in call order.
pub proof fn lemma_enqueue_keeps_order(s: Seq<DownloadItem>, jobs: Seq<DownloadItem>)
    ensures
        enqueue_all(s, jobs) == s + jobs,
    decreases jobs.len(),
{
    if jobs.len() > 0 {
        lemma_enqueue_keeps_order(s, jobs.drop_last());
        assert(s + jobs =~= (s + jobs.drop_last()).push(jobs.last()));
    }
}

/// A single operation is a run of one operation.
pub proof fn lemma_step_evolves(a: Seq<DownloadItem>, b: Seq<DownloadItem>)
    requires
        steps(a, b),
    ensures
        evolves(a, b),
{
    assert forall|i: int| 0 <= i < a.len() implies {
        &&& same_job(#[trigger] a[i], b[i])
        &&& may_reach(a[i].status, b[i].status)
        &&& is_terminal(a[i].status) ==> b[i] == a[i]
    } by {
        assert(same_job(a[i], b[i]));
    }
}

/// Runs of operations compose: statuses still only move along the status machine.
pub proof fn lemma_evolves_trans(a: Seq<DownloadItem>, b: Seq<DownloadItem>, c: Seq<DownloadItem>)
    requires
        evolves(a, b),
        evolves(b, c),
    ensures
        evolves(a, c),
{
    assert forall|i: int| 0 <= i < a.len() implies {
        &&& same_job(#[trigger] a[i], c[i])
        &&& may_reach(a[i].status, c[i].status)
        &&& is_terminal(a[i].status) ==> c[i] == a[i]
    } by {
        assert(same_job(a[i], b[i]));
        assert(same_job(b[i], c[i]));
    }
}

/// A claimed job is never claimed again: in every state that the store reaches from the
/// claim on, the first pending job is another one.
pub proof fn lemma_claimed_once(
    before: Seq<DownloadItem>,
    claimed: Seq<DownloadItem>,
    later: Seq<DownloadItem>,
    i: int,
)
    requires
        first_pending(before) == Some(i),
        claimed == before.update(i, with_status(before[i], Status::Downloading { progress: 0 })),
        evolves(claimed, later),
    ensures
        first_pending(later) != Some(i),
{
    lemma_first_pending_is_pending(before, 0);
    lemma_first_pending_is_pending(later, 0);
    assert(claimed[i].status is Downloading);
    assert(same_job(claimed[i], later[i]));
}

impl Status {
    /// A copy of the status.
    pub fn duplicate(&self) -> (r: Status)
        ensures
            r == *self,
    {
        match self {
            Status::Pending => Status::Pending,
            Status::Downloading { progress } => Status::Downloading { progress: *progress },
            Status::Completed => Status::Completed,
            Status::Failed(e) => Status::Failed(e.clone()),
        }
    }
}

impl DownloadItem {
    /// A copy of the job.
    pub fn duplicate(&self) -> (r: DownloadItem)
        ensures
            r == *self,
    {
        let install_path = match &self.install_path {
            Some(p) => Some(p.clone()),
            None => None,
        };
        DownloadItem {
            id: self.id.clone(),
            steam_id: self.steam_id.clone(),
            name: self.name.clone(),
            status: self.status.duplicate(),
            install_path,
            created_at: self.created_at,
        }
    }
}

/// The job store. Jobs stay in insertion order for the life of the queue.
pub struct QueueState {
    items: Vec<DownloadItem>,
}

impl View for QueueState {
    type V = Seq<DownloadItem>;

    closed spec fn view(&self) -> Seq<DownloadItem> {
        self.items@
    }
}

impl QueueState {
    /// Every job's install path agrees with its status.
    pub open spec fn wf(&self) -> bool {
        forall|i: int| 0 <= i < self@.len() ==> item_wf(#[trigger] self@[i])
    }

    /// An empty store.
    pub fn new() -> (r: QueueState)
        ensures
            r@ == Seq::<DownloadItem>::empty(),
            r.wf(),
    {
        QueueState { items: Vec::new() }
    }

    /// Appends a pending job with the given id and creation time at the tail.
    pub fn add_item_with(&mut self, id: String, steam_id: String, name: String, created_at: u64)
        requires
            old(self).wf(),
        ensures
            final(self).wf(),
            final(self)@ == old(self)@.push(pending_job(id, steam_id, name, created_at)),
            steps(old(self)@, final(self)@),
    {
        let ghost before = self@;
        self.items.push(
            DownloadItem {
                id,
                steam_id,
                name,
                status: Status::Pending,
                install_path: None,
                created_at,
            },
        );
        proof {
            assert forall|j: int| 0 <= j < self@.len() implies item_wf(#[trigger] self@[j]) by {
                if j < before.len() {
                    assert(self@[j] == before[j]);
                }
            }
        }
    }

    /// Appends a pending job at the tail with a fresh random id, stamped with the current
    /// time, and returns the id; fails, changing nothing, when the clock reads before the
    /// Unix epoch.
    pub fn add_item(&mut self, steam_id: String, name: String) -> (r: Result<String, String>)
        requires
            old(self).wf(),
        ensures
            final(self).wf(),
            steps(old(self)@, final(self)@),
            r matches Ok(id) ==> {
                &&& final(self)@.len() == old(self)@.len() + 1
                &&& final(self)@ == old(self)@.push(
                    pending_job(final(self)@.last().id, steam_id, name, final(self)@.last().created_at),
                )
                &&& final(self)@.last().id@ == id@
                &&& id@.len() == 36
            },
            r is Err ==> final(self)@ == old(self)@,
    {
        let created_at = match unix_now_secs() {
            Some(t) => t,
            None => {
                return Err(String::from_str("System clock is before the Unix epoch"));
            },
        };
        let id = new_job_id();
        let r = id.clone();
        self.add_item_with(id, steam_id, name, created_at);
        Ok(r)
    }

    /// A copy of every job, in insertion order.
    pub fn get_queue(&self) -> (r: Vec<DownloadItem>)
        ensures
            r@ == self@,
    {
        let mut out: Vec<DownloadItem> = Vec::new();
        let mut i: usize = 0;
        while i < self.items.len()
            invariant
                i <= self.items@.len(),
                out@ == self.items@.subrange(0, i as int),
            decreases self.items@.len() - i,
        {
            out.push(self.items[i].duplicate());
            i = i + 1;
            assert(out@ =~= self.items@.subrange(0, i as int));
        }
        assert(self.items@.subrange(0, i as int) =~= self.items@);
        out
    }

    fn index_of_pending(&self) -> (r: Option<usize>)
        ensures
            r matches Some(i) ==> first_pending(self@) == Some(i as int),
            r is None ==> first_pending(self@) is None,
    {
        let mut i: usize = 0;
        while i < self.items.len()
            invariant
                i <= self.items@.len(),
                pending_from(self.items@, 0) == pending_from(self.items@, i as int),
            decreases self.items@.len() - i,
        {
            if let Status::Pending = self.items[i].status {
                return Some(i);
            }
            i = i + 1;
        }
        None
    }

    fn index_of(&self, id: &String) -> (r: Option<usize>)
        ensures
            r matches Some(i) ==> index_of_id(self@, id@) == Some(i as int),
            r is None ==> index_of_id(self@, id@) is None,
    {
        let mut i: usize = 0;
        while i < self.items.len()
            invariant
                i <= self.items@.len(),
                id_from(self.items@, id@, 0) == id_from(self.items@, id@, i as int),
            decreases self.items@.len() - i,
        {
            if self.items[i].id == *id {
                return Some(i);
            }
            i = i + 1;
        }
        None
    }

    /// Takes the first pending job, marks it downloading at progress zero and returns a copy
    /// of it as marked; returns `None`, changing nothing, when no job is pending.
    pub fn claim_next_pending(&mut self) -> (r: Option<DownloadItem>)
        requires
            old(self).wf(),
        ensures
            final(self).wf(),
            steps(old(self)@, final(self)@),
            match first_pending(old(self)@) {
                Some(i) => {
                    &&& final(self)@ == old(self)@.update(
                        i,
                        with_status(old(self)@[i], Status::Downloading { progress: 0 }),
                    )
                    &&& r == Some(final(self)@[i])
                },
                None => r is None && final(self)@ == old(self)@,
            },
    {
        proof {
            lemma_first_pending_is_pending(self@, 0);
        }
        match self.index_of_pending() {
            Some(i) => {
                let ghost before = self@;
                let mut it = self.items[i].duplicate();
                it.status = Status::Downloading { progress: 0 };
                self.items.set(i, it);
                proof {
                    assert forall|j: int| 0 <= j < self@.len() implies item_wf(#[trigger] self@[j]) by {
                        if j != i {
                            assert(self@[j] == before[j]);
                        }
                    }
                    assert forall|j: int| 0 <= j < before.len() implies {
                        &&& same_job(#[trigger] before[j], self@[j])
                        &&& may_follow(before[j].status, self@[j].status)
                        &&& is_terminal(before[j].status) ==> self@[j] == before[j]
                    } by {}
                }
                Some(self.items[i].duplicate())
            },
            None => None,
        }
    }

    /// Sets the progress of the job with id `id` while it is downloading; changes nothing
    /// when no such job is downloading, in particular once it is completed or failed.
    pub fn update_progress(&mut self, id: &str, progress: u32)
        requires
            old(self).wf(),
        ensures
            final(self).wf(),
            steps(old(self)@, final(self)@),
            match downloading_index(old(self)@, id@) {
                Some(i) => final(self)@ == old(self)@.update(
                    i,
                    with_status(old(self)@[i], Status::Downloading { progress }),
                ),
                None => final(self)@ == old(self)@,
            },
            index_of_id(old(self)@, id@) matches Some(i) && is_terminal(old(self)@[i].status)
                ==> final(self)@ == old(self)@,
    {
        let key = id.to_owned();
        proof {
            lemma_index_of_id(self@, id@, 0);
        }
        if let Some(i) = self.index_of(&key) {
            if let Status::Downloading { .. } = self.items[i].status {
                let ghost before = self@;
                let mut it = self.items[i].duplicate();
                it.status = Status::Downloading { progress };
                self.items.set(i, it);
                proof {
                    assert forall|j: int| 0 <= j < self@.len() implies item_wf(#[trigger] self@[j]) by {
                        if j != i {
                            assert(self@[j] == before[j]);
                        }
                    }
                    assert forall|j: int| 0 <= j < before.len() implies {
                        &&& same_job(#[trigger] before[j], self@[j])
                        &&& may_follow(before[j].status, self@[j].status)
                        &&& is_terminal(before[j].status) ==> self@[j] == before[j]
                    } by {}
                }
            }
        }
    }

    /// Ends the downloading job with id `id`: completed with its install path, or failed with
    /// a reason, and returns a copy of it as ended. Changes nothing and says why when no job
    /// has the id or the first job with it is not downloading.
    pub fn finalize(&mut self, id: &str, outcome: Outcome) -> (r: Result<DownloadItem, FinalizeError>)
        requires
            old(self).wf(),
        ensures
            final(self).wf(),
            steps(old(self)@, final(self)@),
            match index_of_id(old(self)@, id@) {
                None => r == Err::<DownloadItem, FinalizeError>(FinalizeError::UnknownJob)
                    && final(self)@ == old(self)@,
                Some(i) => if old(self)@[i].status is Downloading {
                    &&& final(self)@ == old(self)@.update(i, finished(old(self)@[i], outcome))
                    &&& r == Ok::<DownloadItem, FinalizeError>(final(self)@[i])
                } else {
                    &&& r == Err::<DownloadItem, FinalizeError>(FinalizeError::NotDownloading)
                    &&& final(self)@ == old(self)@
                },
            },
    {
        let key = id.to_owned();
        proof {
            lemma_index_of_id(self@, id@, 0);
        }
        let i = match self.index_of(&key) {
            Some(i) => i,
            None => {
                return Err(FinalizeError::UnknownJob);
            },
        };
        if let Status::Downloading { .. } = self.items[i].status {
            let ghost before = self@;
            let mut it = self.items[i].duplicate();
            match outcome {
                Outcome::Completed(path) => {
                    it.status = Status::Completed;
                    it.install_path = Some(path);
                },
                Outcome::Failed(reason) => {
                    it.status = Status::Failed(reason);
                },
            }
            self.items.set(i, it);
            proof {
                assert forall|j: int| 0 <= j < self@.len() implies item_wf(#[trigger] self@[j]) by {
                    if j != i {
                        assert(self@[j] == before[j]);
                    }
                }
                assert forall|j: int| 0 <= j < before.len() implies {
                    &&& same_job(#[trigger] before[j], self@[j])
                    &&& may_follow(before[j].status, self@[j].status)
                    &&& is_terminal(before[j].status) ==> self@[j] == before[j]
                } by {}
            }
            Ok(self.items[i].duplicate())
        } else {
            Err(FinalizeError::NotDownloading)
        }
    }
}

} // verus!
