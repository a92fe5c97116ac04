//! The process registry: the engine processes that are running, each under its process id.
use vstd::prelude::*;

verus! {

/// Tracks running processes as `(pid, handle)` pairs in spawn order. The handle type is the
/// host's (a child process); the registry only keeps membership.
pub struct ProcessManager<H> {
    entries: Vec<(u32, H)>,
}

impl<H> View for ProcessManager<H> {
    type V = Seq<(u32, H)>;

    closed spec fn view(&self) -> Seq<(u32, H)> {
        self.entries@
    }
}

/// The entries whose pid is not `pid`, in order.
pub open spec fn without_pid<H>(s: Seq<(u32, H)>, pid: u32) -> Seq<(u32, H)> {
    s.filter(|e: (u32, H)| e.0 != pid)
}

impl<H> ProcessManager<H> {
    /// An empty registry.
    pub fn new() -> (r: ProcessManager<H>)
        ensures
            r@ == Seq::<(u32, H)>::empty(),
    {
        ProcessManager { entries: Vec::new() }
    }

    /// Records a process that was just spawned.
    pub fn register(&mut self, pid: u32, handle: H)
        ensures
            final(self)@ == old(self)@.push((pid, handle)),
    {
        self.entries.push((pid, handle));
    }

    /// Drops every entry of a process known to have exited; removing an unknown pid changes
    /// nothing, so a second call is harmless.
    pub fn remove_process(&mut self, pid: u32)
        ensures
            final(self)@ == without_pid(old(self)@, pid),
    {
        let mut rest: Vec<(u32, H)> = Vec::new();
        std::mem::swap(&mut rest, &mut self.entries);
        let ghost all = rest@;
        let n = rest.len();
        let mut i: usize = 0;
        while i < n
            invariant
                n == all.len(),
                i <= n,
                rest@ == all.subrange(i as int, n as int),
                self.entries@ == without_pid(all.subrange(0, i as int), pid),
            decreases n - i,
        {
            let e = rest.remove(0);
            let ghost prev = self.entries@;
            proof {
                assert(e == all[i as int]);
                assert(all.subrange(i + 1, n as int) =~= all.subrange(i as int, n as int).remove(0));
            }
            if e.0 != pid {
                self.entries.push(e);
            }
            proof {
                let pre = all.subrange(0, i + 1);
                assert(pre.drop_last() =~= all.subrange(0, i as int));
                assert(pre.last() == all[i as int]);
                reveal(Seq::filter);
                assert(without_pid(pre, pid) == if all[i as int].0 != pid {
                    prev.push(all[i as int])
                } else {
                    prev
                });
            }
            i = i + 1;
        }
        assert(all.subrange(0, n as int) =~= all);
    }

    /// Empties the registry and hands back every tracked handle, in spawn order, for the
    /// caller to terminate. On an empty registry it returns nothing and changes nothing.
    pub fn take_all(&mut self) -> (r: Vec<H>)
        ensures
            r@ == old(self)@.map_values(|e: (u32, H)| e.1),
            final(self)@ == Seq::<(u32, H)>::empty(),
    {
        let mut rest: Vec<(u32, H)> = Vec::new();
        std::mem::swap(&mut rest, &mut self.entries);
        let ghost all = rest@;
        let n = rest.len();
        let mut out: Vec<H> = Vec::new();
        let mut i: usize = 0;
        while i < n
            invariant
                n == all.len(),
                i <= n,
                rest@ == all.subrange(i as int, n as int),
                out@ == all.subrange(0, i as int).map_values(|e: (u32, H)| e.1),
                self.entries@ == Seq::<(u32, H)>::empty(),
            decreases n - i,
        {
            let e = rest.remove(0);
            proof {
                assert(all.subrange(i + 1, n as int) =~= all.subrange(i as int, n as int).remove(0));
            }
            out.push(e.1);
            i = i + 1;
            assert(out@ =~= all.subrange(0, i as int).map_values(|e: (u32, H)| e.1));
        }
        assert(all.subrange(0, n as int) =~= all);
        out
    }

    /// The pids of the tracked processes, in spawn order.
    pub fn pids(&self) -> (r: Vec<u32>)
        ensures
            r@ == self@.map_values(|e: (u32, H)| e.0),
    {
        let mut out: Vec<u32> = Vec::new();
        let mut i: usize = 0;
        while i < self.entries.len()
            invariant
                i <= self.entries@.len(),
                out@ == self.entries@.subrange(0, i as int).map_values(|e: (u32, H)| e.0),
            decreases self.entries@.len() - i,
        {
            out.push(self.entries[i].0);
            i = i + 1;
            assert(out@ =~= self.entries@.subrange(0, i as int).map_values(|e: (u32, H)| e.0));
        }
        assert(self.entries@.subrange(0, i as int) =~= self.entries@);
        out
    }

    /// How many processes are tracked.
    pub fn len(&self) -> (r: usize)
        ensures
            r == self@.len(),
    {
        self.entries.len()
    }
}

} // verus!
