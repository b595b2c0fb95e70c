use vstd::prelude::*;
use crate::events::EventOrigin;
use crate::text::{chars_of, string_of, append_chars};

verus! {

/// Pending writes as (normalised target path, process name), oldest first.
pub type PendingWrites = Seq<(Seq<char>, Seq<char>)>;

/// `p` in absolute form: a path that begins with `/` is kept; another one
/// is read relative to the base directory, when there is one.
pub open spec fn absolute(base: Option<Seq<char>>, p: Seq<char>) -> Seq<char> {
    if p.len() > 0 && p[0] == '/' {
        p
    } else {
        match base {
            None => p,
            Some(b) => if b.len() == 0 {
                p
            } else if b.last() == '/' {
                b + p
            } else {
                b + seq!['/'] + p
            },
        }
    }
}

/// Index of the oldest pending write to `key`, or `p.len()` when there is none.
pub open spec fn first_match(p: PendingWrites, key: Seq<char>) -> int
    decreases p.len(),
{
    if p.len() == 0 {
        0
    } else {
        let k = first_match(p.drop_last(), key);
        if k < p.len() - 1 {
            k
        } else if p.last().0 == key {
            p.len() - 1
        } else {
            p.len() as int
        }
    }
}

/// What a notification for `key` does to the pending writes: the oldest one
/// to `key` is taken out and names the origin; with none, the change is
/// from outside and nothing changes.
pub open spec fn consume(p: PendingWrites, key: Seq<char>) -> (PendingWrites, Option<Seq<char>>) {
    let i = first_match(p, key);
    if 0 <= i < p.len() {
        (p.remove(i), Some(p[i].1))
    } else {
        (p, None)
    }
}

/// No pending write goes to `key`.
pub open spec fn none_pending(p: PendingWrites, key: Seq<char>) -> bool {
    forall|i: int| 0 <= i < p.len() ==> p[i].0 != key
}

pub proof fn lemma_first_match(p: PendingWrites, key: Seq<char>)
    ensures
        0 <= first_match(p, key) <= p.len(),
        forall|j: int| 0 <= j < first_match(p, key) ==> p[j].0 != key,
        first_match(p, key) < p.len() ==> p[first_match(p, key)].0 == key,
    decreases p.len(),
{
    if p.len() > 0 {
        lemma_first_match(p.drop_last(), key);
        let q = p.drop_last();
        assert forall|j: int| 0 <= j < q.len() implies q[j] == p[j] by {}
    }
}

proof fn lemma_first_match_is(p: PendingWrites, key: Seq<char>, i: int)
    requires
        0 <= i <= p.len(),
        forall|j: int| 0 <= j < i ==> p[j].0 != key,
        i == p.len() || p[i].0 == key,
    ensures
        first_match(p, key) == i,
{
    lemma_first_match(p, key);
}

/// A write that a sync process is about to make, noted so that the change it
/// causes is traced back to that process.
#[derive(Debug, Clone)]
pub struct TargetMapping {
    pub target_path: String,
    pub process_name: String,
}

/// The pending writes of the sync processes, consumed one per notification.
pub struct OriginTracker {
    pending: Vec<TargetMapping>,
    base_dir: Option<String>,
}

pub open spec fn mapping_view(m: TargetMapping) -> (Seq<char>, Seq<char>) {
    (m.target_path@, m.process_name@)
}

impl View for OriginTracker {
    type V = PendingWrites;

    closed spec fn view(&self) -> PendingWrites {
        self.pending@.map_values(|m: TargetMapping| mapping_view(m))
    }
}

impl OriginTracker {
    /// The directory against which relative paths are read.
    pub closed spec fn base(&self) -> Option<Seq<char>> {
        match self.base_dir {
            None => None,
            Some(b) => Some(b@),
        }
    }

    /// A tracker with nothing pending.
    pub fn new(base_dir: Option<String>) -> (r: OriginTracker)
        ensures
            r@ == Seq::<(Seq<char>, Seq<char>)>::empty(),
            r.base() == match base_dir {
                None => None,
                Some(b) => Some(b@),
            },
    {
        let r = OriginTracker { pending: Vec::new(), base_dir };
        assert(r@ =~= Seq::<(Seq<char>, Seq<char>)>::empty());
        r
    }

    /// The number of pending writes.
    pub fn len(&self) -> (r: usize)
        ensures
            r == self@.len(),
    {
        self.pending.len()
    }

    /// `path` in the absolute form used for comparisons.
    pub fn normalize(&self, path: &str) -> (r: String)
        ensures
            r@ == absolute(self.base(), path@),
    {
        let p = chars_of(path);
        if p.len() > 0 && p[0] == '/' {
            return string_of(p.as_slice());
        }
        match &self.base_dir {
            None => string_of(p.as_slice()),
            Some(b) => {
                let mut v = chars_of(b.as_str());
                if v.len() == 0 {
                    return string_of(p.as_slice());
                }
                if v[v.len() - 1] != '/' {
                    v.push('/');
                }
                append_chars(&mut v, &p);
                string_of(v.as_slice())
            },
        }
    }

    /// Notes that the process `process_name` is about to write `target_path`.
    pub fn record_pending_write(&mut self, target_path: &str, process_name: &str)
        ensures
            final(self)@ == old(self)@.push((absolute(old(self).base(), target_path@), process_name@)),
            final(self).base() == old(self).base(),
    {
        let key = self.normalize(target_path);
        let m = TargetMapping { target_path: key, process_name: process_name.to_string() };
        let ghost before = self.pending@;
        self.pending.push(m);
        assert(self@ =~= old(self)@.push(mapping_view(m)));
    }

    /// The origin of a notification for `path`: the process whose oldest
    /// pending write goes to that path, which is then taken out, or outside.
    pub fn classify_and_consume(&mut self, path: &str) -> (r: EventOrigin)
        ensures
            (final(self)@, r@) == consume(old(self)@, absolute(old(self).base(), path@)),
            final(self).base() == old(self).base(),
    {
        let key = self.normalize(path);
        let ghost p = self@;
        let ghost b = self.base();
        let mut i: usize = 0;
        while i < self.pending.len()
            invariant
                p == self@,
                p == old(self)@,
                b == self.base(),
                b == old(self).base(),
                key@ == absolute(self.base(), path@),
                i <= self.pending@.len(),
                forall|j: int| 0 <= j < i ==> p[j].0 != key@,
            decreases self.pending@.len() - i,
        {
            if self.pending[i].target_path.eq(&key) {
                proof {
                    lemma_first_match_is(p, key@, i as int);
                }
                let ghost before = self.pending@;
                let m = self.pending.remove(i);
                assert(p[i as int] == mapping_view(before[i as int]));
                assert(self@ =~= p.remove(i as int));
                assert(consume(p, key@) == (p.remove(i as int), Some(m.process_name@)));
                return EventOrigin::Internal { process_name: m.process_name };
            }
            i += 1;
        }
        proof {
            lemma_first_match_is(p, key@, i as int);
        }
        EventOrigin::External
    }
}

/// A notification for a path that was noted just before its write is traced
/// to the process that noted it, and the note is used up: a later
/// notification for that path, with no new note, comes from outside.
pub proof fn lemma_origin_round_trip(p: PendingWrites, key: Seq<char>, name: Seq<char>)
    requires
        none_pending(p, key),
    ensures
        consume(p.push((key, name)), key) == (p, Some(name)),
        consume(p, key) == (p, None::<Seq<char>>),
{
    let q = p.push((key, name));
    lemma_first_match_is(q, key, p.len() as int);
    lemma_first_match_is(p, key, p.len() as int);
    assert(q.remove(p.len() as int) =~= p);
}

/// A notification for another path leaves a note where it is: the note
/// still waits for the notification of its own path.
pub proof fn lemma_other_paths_keep_note(p: PendingWrites, key: Seq<char>, name: Seq<char>, other: Seq<char>)
    requires
        other != key,
    ensures
        consume(p.push((key, name)), other) == (consume(p, other).0.push((key, name)), consume(p, other).1),
{
    let q = p.push((key, name));
    assert(q.drop_last() =~= p);
    lemma_first_match(p, other);
    let k = first_match(p, other);
    if k < p.len() {
        assert(q.remove(k) =~= p.remove(k).push((key, name)));
    }
}

/// Two notes for one path, made in turn, are used up in the same order by
/// the next two notifications for that path.
pub proof fn lemma_fifo_consumption(p: PendingWrites, key: Seq<char>, n1: Seq<char>, n2: Seq<char>)
    requires
        none_pending(p, key),
    ensures
        consume(p.push((key, n1)).push((key, n2)), key).1 == Some(n1),
        consume(consume(p.push((key, n1)).push((key, n2)), key).0, key) == (p, Some(n2)),
{
    let q = p.push((key, n1)).push((key, n2));
    lemma_first_match_is(q, key, p.len() as int);
    assert(q.remove(p.len() as int) =~= p.push((key, n2)));
    lemma_origin_round_trip(p, key, n2);
}

} // verus!
