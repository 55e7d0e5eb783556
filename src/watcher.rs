use vstd::prelude::*;

use crate::event::Process;
use crate::names::{dedup_names, distinct, names_view, unique_names};

verus! {

/// What a process report says: name, pid, running.
pub open spec fn process_view(p: Process) -> (Seq<char>, i32, bool) {
    (p.name@, p.pid, p.is_running)
}

/// The reports of a sequence of processes.
pub open spec fn processes_view(v: Seq<Process>) -> Seq<(Seq<char>, i32, bool)> {
    v.map_values(|p: Process| process_view(p))
}

/// Index of the first visible process at or after `i` named `name`, or the
/// length if there is none.
pub open spec fn first_named(visible: Seq<Process>, name: Seq<char>, i: int) -> int
    decreases visible.len() - i,
{
    if i >= visible.len() {
        visible.len() as int
    } else if visible[i].name@ == name {
        i
    } else {
        first_named(visible, name, i + 1)
    }
}

/// The pid under which `name` is visible in a sample, if it is.
pub open spec fn sighting(visible: Seq<Process>, name: Seq<char>) -> Option<i32> {
    let k = first_named(visible, name, 0);
    if 0 <= k < visible.len() {
        Some(visible[k].pid)
    } else {
        None
    }
}

/// The report for one watched name between two samples: one on each edge,
/// none while its visibility stays the same.
pub open spec fn edge(name: Seq<char>, before: Option<i32>, now: Option<i32>) -> Seq<
    (Seq<char>, i32, bool),
> {
    match (before, now) {
        (None, Some(pid)) => seq![(name, pid, true)],
        (Some(pid), None) => seq![(name, pid, false)],
        _ => Seq::empty(),
    }
}

/// The reports for the first `n` watched names, in watch-list order.
pub open spec fn edges(
    watched: Seq<Seq<char>>,
    before: Seq<Option<i32>>,
    visible: Seq<Process>,
    n: nat,
) -> Seq<(Seq<char>, i32, bool)>
    decreases n,
{
    if n == 0 {
        Seq::empty()
    } else {
        edges(watched, before, visible, (n - 1) as nat) + edge(
            watched[n - 1],
            before[n - 1],
            sighting(visible, watched[n - 1]),
        )
    }
}

/// Tracks which watched process names were visible at the last sample.
pub struct ProcessWatcher {
    watched: Vec<String>,
    alive: Vec<Option<i32>>,
}

impl ProcessWatcher {
    /// The watched names.
    pub closed spec fn watched_names(&self) -> Seq<Seq<char>> {
        names_view(self.watched@)
    }

    /// For each watched name, the pid it was visible under at the last sample.
    pub closed spec fn last_seen(&self) -> Seq<Option<i32>> {
        self.alive@
    }

    pub closed spec fn wf(&self) -> bool {
        &&& self.alive@.len() == self.watched@.len()
        &&& distinct(names_view(self.watched@))
    }

    /// Watches the set of names `watched` (a name given twice is watched
    /// once); nothing has been seen yet.
    pub fn new(watched: Vec<String>) -> (r: Self)
        ensures
            r.wf(),
            r.watched_names() == dedup_names(names_view(watched@)),
            distinct(r.watched_names()),
            r.last_seen() == Seq::new(r.watched_names().len(), |i: int| None::<i32>),
    {
        let watched = unique_names(&watched);
        let mut alive: Vec<Option<i32>> = Vec::new();
        let mut i: usize = 0;
        while i < watched.len()
            invariant
                i <= watched@.len(),
                alive@ == Seq::new(i as nat, |k: int| None::<i32>),
            decreases watched@.len() - i,
        {
            alive.push(None);
            i += 1;
            assert(alive@ =~= Seq::new(i as nat, |k: int| None::<i32>));
        }
        ProcessWatcher { watched, alive }
    }

    /// Takes one sample of the visible processes and returns a report for
    /// each watched name that appeared (running) or vanished (not running)
    /// since the last sample, in watch-list order.
    pub fn observe(&mut self, visible: &Vec<Process>) -> (r: Vec<Process>)
        requires
            old(self).wf(),
        ensures
            final(self).wf(),
            final(self).watched_names() == old(self).watched_names(),
            final(self).last_seen() == Seq::new(
                old(self).watched_names().len(),
                |i: int| sighting(visible@, old(self).watched_names()[i]),
            ),
            processes_view(r@) == edges(
                old(self).watched_names(),
                old(self).last_seen(),
                visible@,
                old(self).watched_names().len(),
            ),
    {
        let ghost names = self.watched_names();
        let n = self.watched.len();
        let mut now: Vec<Option<i32>> = Vec::new();
        let mut out: Vec<Process> = Vec::new();
        let mut i: usize = 0;
        while i < n
            invariant
                n == self.watched@.len(),
                self.wf(),
                names == self.watched_names(),
                i <= n,
                now@ == Seq::new(i as nat, |k: int| sighting(visible@, names[k])),
                processes_view(out@) == edges(names, self.alive@, visible@, i as nat),
            decreases n - i,
        {
            let name = &self.watched[i];
            assert(name@ == names[i as int]);
            let seen = find_pid(visible, name);
            let before = self.alive[i];
            let ghost out_before = out@;
            match (before, seen) {
                (None, Some(pid)) => {
                    out.push(Process { name: name.clone(), pid, is_running: true });
                },
                (Some(pid), None) => {
                    out.push(Process { name: name.clone(), pid, is_running: false });
                },
                _ => {},
            }
            assert(processes_view(out@) =~= processes_view(out_before) + edge(
                names[i as int],
                self.alive@[i as int],
                sighting(visible@, names[i as int]),
            ));
            now.push(seen);
            i += 1;
            assert(now@ =~= Seq::new(i as nat, |k: int| sighting(visible@, names[k])));
        }
        self.alive = now;
        out
    }
}

/// The pid of the first visible process named `name`.
fn find_pid(visible: &Vec<Process>, name: &String) -> (r: Option<i32>)
    ensures
        r == sighting(visible@, name@),
{
    let mut i: usize = 0;
    while i < visible.len()
        invariant
            i <= visible@.len(),
            first_named(visible@, name@, 0) == first_named(visible@, name@, i as int),
        decreases visible@.len() - i,
    {
        if visible[i].name == *name {
            return Some(visible[i].pid);
        }
        i += 1;
    }
    None
}

} // verus!
