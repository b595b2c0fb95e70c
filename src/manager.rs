use vstd::prelude::*;
use crate::events::{EventKind, FileEvent};
use crate::process::{SyncProcess, TransformStep, passes, target_of, opt_view, transformed};
use crate::tracker::{OriginTracker, PendingWrites, absolute, consume, first_match, lemma_first_match, none_pending};

verus! {

/// The kind of change a watcher reports, before it is classified.
#[derive(Debug, Clone, Copy, PartialEq, Eq, Structural)]
pub enum RawKind {
    Create,
    Modify,
    Remove,
    /// Any other change, such as one of metadata only.
    Other,
}

/// The event kind of a raw change; none for changes that are dropped.
pub open spec fn kind_of(raw: RawKind) -> Option<EventKind> {
    match raw {
        RawKind::Create => Some(EventKind::Create),
        RawKind::Modify => Some(EventKind::Modify),
        RawKind::Remove => Some(EventKind::Delete),
        RawKind::Other => None,
    }
}

/// One write (or, for a deletion, one removal) that a process is to make.
#[derive(Debug, Clone)]
pub struct Action {
    /// Index of the process, in registration order.
    pub process: usize,
    /// The path it writes or removes.
    pub target: String,
}

/// A classified event and the actions it asks for, in registration order.
#[derive(Debug, Clone)]
pub struct Dispatch {
    pub event: FileEvent,
    pub actions: Vec<Action>,
}

pub open spec fn action_views(acts: Seq<Action>) -> Seq<(int, Seq<char>)> {
    acts.map_values(|a: Action| (a.process as int, a.target@))
}

/// The actions that the processes `ps` ask for on event `e`: one for each
/// process, in order, that passes its filter and names a target.
pub open spec fn planned(ps: Seq<SyncProcess>, e: FileEvent) -> Seq<(int, Seq<char>)>
    decreases ps.len(),
{
    if ps.len() == 0 {
        seq![]
    } else {
        let rest = planned(ps.drop_last(), e);
        let p = ps.last();
        if passes(p, e) {
            match target_of(p, e) {
                Some(t) => rest.push((ps.len() - 1, t)),
                None => rest,
            }
        } else {
            rest
        }
    }
}

/// The pending writes that the actions `acts` note, in order.
pub open spec fn notes(
    ps: Seq<SyncProcess>,
    acts: Seq<(int, Seq<char>)>,
    base: Option<Seq<char>>,
) -> PendingWrites {
    acts.map_values(|a: (int, Seq<char>)| (absolute(base, a.1), ps[a.0].name@))
}

/// Watches directories and routes their changes through the registered
/// sync processes.
pub struct Manager {
    watch_paths: Vec<String>,
    processes: Vec<SyncProcess>,
    tracker: OriginTracker,
}

impl Manager {
    pub closed spec fn watched(&self) -> Seq<Seq<char>> {
        self.watch_paths@.map_values(|w: String| w@)
    }

    pub closed spec fn processes(&self) -> Seq<SyncProcess> {
        self.processes@
    }

    pub closed spec fn pending(&self) -> PendingWrites {
        self.tracker@
    }

    pub closed spec fn base(&self) -> Option<Seq<char>> {
        self.tracker.base()
    }

    /// A manager with no paths, no processes and nothing pending.
    pub fn new() -> (r: Manager)
        ensures
            r.watched() == Seq::<Seq<char>>::empty(),
            r.processes() == Seq::<SyncProcess>::empty(),
            r.pending() == Seq::<(Seq<char>, Seq<char>)>::empty(),
            r.base() == None::<Seq<char>>,
    {
        let r = Manager { watch_paths: Vec::new(), processes: Vec::new(), tracker: OriginTracker::new(None) };
        assert(r.watched() =~= Seq::<Seq<char>>::empty());
        r
    }

    /// The same manager, reading relative paths against `dir`.
    pub fn with_base_dir(self, dir: String) -> (r: Manager)
        ensures
            r.watched() == self.watched(),
            r.processes() == self.processes(),
            r.pending() == Seq::<(Seq<char>, Seq<char>)>::empty(),
            r.base() == Some(dir@),
    {
        Manager { watch_paths: self.watch_paths, processes: self.processes, tracker: OriginTracker::new(Some(dir)) }
    }

    /// The same manager, also watching `path`.
    pub fn watch_path(self, path: &str) -> (r: Manager)
        ensures
            r.watched() == self.watched().push(path@),
            r.processes() == self.processes(),
            r.pending() == self.pending(),
            r.base() == self.base(),
    {
        let mut m = self;
        m.watch_paths.push(path.to_string());
        assert(m.watched() =~= self.watched().push(path@));
        m
    }

    /// The same manager, with `process` registered after the others.
    pub fn register_process(self, process: SyncProcess) -> (r: Manager)
        ensures
            r.watched() == self.watched(),
            r.processes() == self.processes().push(process),
            r.pending() == self.pending(),
            r.base() == self.base(),
    {
        let mut m = self;
        m.processes.push(process);
        m
    }

    /// The paths to watch.
    pub fn watch_paths(&self) -> (r: &Vec<String>)
        ensures
            r@.map_values(|w: String| w@) == self.watched(),
    {
        &self.watch_paths
    }

    /// The number of registered processes.
    pub fn process_count(&self) -> (r: usize)
        ensures
            r == self.processes().len(),
    {
        self.processes.len()
    }

    /// The process registered `i`-th.
    pub fn process(&self, i: usize) -> (r: &SyncProcess)
        requires
            i < self.processes().len(),
        ensures
            *r == self.processes()[i as int],
    {
        &self.processes[i]
    }

    /// The number of pending writes.
    pub fn pending_count(&self) -> (r: usize)
        ensures
            r == self.pending().len(),
    {
        self.tracker.len()
    }

    /// What the process of `action` does with `content`, the content of the
    /// changed file of `event`.
    pub fn transform(&self, action: &Action, event: &FileEvent, content: &Vec<u8>) -> (r: TransformStep)
        requires
            action.process < self.processes().len(),
        ensures
            transformed(self.processes()[action.process as int].rule, event.path@, content@, r),
    {
        self.processes[action.process].rule.transform(event.path.as_str(), content)
    }

    /// Why the manager cannot start, if it cannot: it has no path to watch,
    /// or no process.
    pub fn startup_problem(&self) -> (r: Option<String>)
        ensures
            opt_view(r) == if self.watched().len() == 0 {
                Some("No paths to watch!"@)
            } else if self.processes().len() == 0 {
                Some("No sync processes registered!"@)
            } else {
                None
            },
    {
        if self.watch_paths.len() == 0 {
            Some("No paths to watch!".to_string())
        } else if self.processes.len() == 0 {
            Some("No sync processes registered!".to_string())
        } else {
            None
        }
    }

    /// Classifies a raw change of `path` and notes, before any write is
    /// made, every write that the processes will make for it. A change of
    /// another kind is dropped and changes nothing.
    pub fn handle_notification(&mut self, path: &str, raw: RawKind) -> (r: Option<Dispatch>)
        ensures
            final(self).watched() == old(self).watched(),
            final(self).processes() == old(self).processes(),
            final(self).base() == old(self).base(),
            match kind_of(raw) {
                None => r is None && final(self).pending() == old(self).pending(),
                Some(k) => r is Some && {
                    let d = r->0;
                    let (left, origin) = consume(old(self).pending(), absolute(old(self).base(), path@));
                    &&& d.event.path@ == path@
                    &&& d.event.event_kind == k
                    &&& d.event.origin@ == origin
                    &&& action_views(d.actions@) == planned(old(self).processes(), d.event)
                    &&& final(self).pending() == left + notes(
                        old(self).processes(),
                        planned(old(self).processes(), d.event),
                        old(self).base(),
                    )
                },
            },
    {
        let kind = match raw {
            RawKind::Create => EventKind::Create,
            RawKind::Modify => EventKind::Modify,
            RawKind::Remove => EventKind::Delete,
            RawKind::Other => {
                return None;
            },
        };
        let origin = self.tracker.classify_and_consume(path);
        let event = FileEvent::new_with_origin(path.to_string(), kind, origin);
        let ghost ps = self.processes@;
        let ghost base = self.tracker.base();
        let ghost left = self.tracker@;
        let mut actions: Vec<Action> = Vec::new();
        let n = self.processes.len();
        let mut i: usize = 0;
        assert(ps.subrange(0, 0) =~= Seq::<SyncProcess>::empty());
        assert(notes(ps, planned(ps.subrange(0, 0), event), base) =~= Seq::<(Seq<char>, Seq<char>)>::empty());
        assert(action_views(actions@) =~= Seq::<(int, Seq<char>)>::empty());
        assert(left + notes(ps, planned(ps.subrange(0, 0), event), base) =~= left);
        while i < n
            invariant
                n == ps.len(),
                i <= n,
                ps == self.processes@,
                base == self.tracker.base(),
                self.watch_paths == old(self).watch_paths,
                self.processes == old(self).processes,
                action_views(actions@) == planned(ps.subrange(0, i as int), event),
                self.tracker@ == left + notes(ps, planned(ps.subrange(0, i as int), event), base),
            decreases n - i,
        {
            let ghost before = planned(ps.subrange(0, i as int), event);
            let ghost sub = ps.subrange(0, i + 1);
            assert(sub.drop_last() =~= ps.subrange(0, i as int));
            assert(sub.last() == ps[i as int]);
            let p = &self.processes[i];
            if p.filter(&event) {
                match p.target(&event) {
                    Some(t) => {
                        let ghost av = action_views(actions@);
                        let ghost tv = self.tracker@;
                        self.tracker.record_pending_write(t.as_str(), self.processes[i].name.as_str());
                        actions.push(Action { process: i, target: t });
                        assert(action_views(actions@) =~= av.push((i as int, t@)));
                        assert(notes(ps, before.push((i as int, t@)), base) =~= notes(ps, before, base).push(
                            (absolute(base, t@), ps[i as int].name@),
                        ));
                        assert(self.tracker@ =~= left + notes(ps, planned(sub, event), base));
                    },
                    None => {},
                }
            }
            i += 1;
        }
        assert(ps.subrange(0, n as int) =~= ps);
        Some(Dispatch { event, actions })
    }
}

/// Every action planned for an event belongs to a process that passes its
/// filter and names that target; every such process has one.
pub proof fn lemma_planned(ps: Seq<SyncProcess>, e: FileEvent)
    ensures
        forall|k: int|
            0 <= k < planned(ps, e).len() ==> {
                let a = #[trigger] planned(ps, e)[k];
                &&& 0 <= a.0 < ps.len()
                &&& passes(ps[a.0], e)
                &&& target_of(ps[a.0], e) == Some(a.1)
            },
        forall|j: int|
            0 <= j < ps.len() && passes(ps[j], e) && #[trigger] target_of(ps[j], e) is Some ==> exists|
                k: int,
            |
                0 <= k < planned(ps, e).len() && (#[trigger] planned(ps, e)[k]).0 == j,
    decreases ps.len(),
{
    if ps.len() > 0 {
        let q = ps.drop_last();
        lemma_planned(q, e);
        let pl = planned(ps, e);
        let pq = planned(q, e);
        assert forall|j: int|
            0 <= j < ps.len() && passes(ps[j], e) && #[trigger] target_of(ps[j], e) is Some implies exists|
                k: int,
            |
                0 <= k < pl.len() && (#[trigger] pl[k]).0 == j by {
            if j < ps.len() - 1 {
                assert(q[j] == ps[j]);
                assert(target_of(q[j], e) is Some);
                let k = choose|k: int| 0 <= k < pq.len() && (#[trigger] pq[k]).0 == j;
                assert(pl[k] == pq[k]);
            } else {
                assert(pl[pl.len() - 1].0 == j);
            }
        }
    }
}

/// Error isolation: the actions of an event are fixed before any of them is
/// carried out, and each process that passes its filter and names a target
/// gets its own, whatever becomes of the others.
pub proof fn lemma_every_applicable_process_acts(ps: Seq<SyncProcess>, e: FileEvent, j: int)
    requires
        0 <= j < ps.len(),
        passes(ps[j], e),
        target_of(ps[j], e) is Some,
    ensures
        exists|k: int|
            0 <= k < planned(ps, e).len() && #[trigger] planned(ps, e)[k] == (j, target_of(ps[j], e)->0),
{
    lemma_planned(ps, e);
    assert(target_of(ps[j], e) is Some);
    let k = choose|k: int| 0 <= k < planned(ps, e).len() && (#[trigger] planned(ps, e)[k]).0 == j;
    assert(planned(ps, e)[k] == (j, target_of(ps[j], e)->0));
}

/// No process is given an action on a change that it made itself.
pub proof fn lemma_no_action_on_own_write(ps: Seq<SyncProcess>, e: FileEvent, k: int)
    requires
        0 <= k < planned(ps, e).len(),
    ensures
        e.origin@ != Some(ps[planned(ps, e)[k].0].name@),
{
    lemma_planned(ps, e);
    let a = planned(ps, e)[k];
    assert(passes(ps[a.0], e));
}

/// The note of a write is in place before the write is made, so the
/// notification that the write causes, however soon it comes, is traced to
/// the process that wrote, unless an older note for that path is pending.
pub proof fn lemma_write_is_attributed(left: PendingWrites, ns: PendingWrites, j: int)
    requires
        0 <= j < ns.len(),
        none_pending(left + ns.subrange(0, j), ns[j].0),
    ensures
        consume(left + ns, ns[j].0).1 == Some(ns[j].1),
{
    let all = left + ns;
    let key = ns[j].0;
    let i = left.len() + j;
    assert forall|m: int| 0 <= m < i implies all[m].0 != key by {
        assert(all[m] == (left + ns.subrange(0, j))[m]);
    }
    lemma_first_match(all, key);
    let f = first_match(all, key);
    if f < i {
        assert(all[f].0 == key);
    }
    if f > i {
        assert(all[i].0 == key);
    }
    assert(f == i);
}

} // verus!
