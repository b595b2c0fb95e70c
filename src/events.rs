use vstd::prelude::*;

verus! {

/// The kind of change a notification reports.
#[derive(Debug, Clone, Copy, PartialEq, Eq, Structural)]
pub enum EventKind {
    Create,
    Modify,
    Delete,
}

/// Who caused a change: someone outside, or a named sync process.
#[derive(Debug, Clone)]
pub enum EventOrigin {
    External,
    Internal { process_name: String },
}

impl View for EventOrigin {
    /// `None` for an outside change, the process name otherwise.
    type V = Option<Seq<char>>;

    open spec fn view(&self) -> Option<Seq<char>> {
        match self {
            EventOrigin::External => None,
            EventOrigin::Internal { process_name } => Some(process_name@),
        }
    }
}

impl EventOrigin {
    /// Whether this change was written by the process called `name`.
    pub fn is_internal_to(&self, name: &String) -> (r: bool)
        ensures
            r == (self@ == Some(name@)),
    {
        match self {
            EventOrigin::External => false,
            EventOrigin::Internal { process_name } => process_name.eq(name),
        }
    }
}

/// The name of a kind in the audit log.
pub open spec fn kind_label(k: EventKind) -> Seq<char> {
    match k {
        EventKind::Create => "CREATE"@,
        EventKind::Modify => "MODIFY"@,
        EventKind::Delete => "DELETE"@,
    }
}

/// An origin in the audit log.
pub open spec fn origin_label(o: Option<Seq<char>>) -> Seq<char> {
    match o {
        None => "[EXT]"@,
        Some(n) => "[INT:"@ + n + "]"@,
    }
}

/// The audit-log line of an event.
pub open spec fn event_line(e: FileEvent) -> Seq<char> {
    "EVENT "@ + kind_label(e.event_kind) + " "@ + origin_label(e.origin@) + " | "@ + e.path@
}

fn concat(a: &str, b: &str) -> (r: String)
    ensures
        r@ == a@ + b@,
{
    let mut s = a.to_string();
    s.append(b);
    s
}

/// One classified change of one file. Its origin is fixed when it is built.
#[derive(Debug, Clone)]
pub struct FileEvent {
    pub path: String,
    pub event_kind: EventKind,
    pub origin: EventOrigin,
}

impl FileEvent {
    /// An event caused from outside.
    pub fn new(path: String, event_kind: EventKind) -> (r: FileEvent)
        ensures
            r.path == path,
            r.event_kind == event_kind,
            r.origin@ == None::<Seq<char>>,
    {
        FileEvent { path, event_kind, origin: EventOrigin::External }
    }

    /// An event caused by the process called `process_name`.
    pub fn from_process(path: String, event_kind: EventKind, process_name: &str) -> (r: FileEvent)
        ensures
            r.path == path,
            r.event_kind == event_kind,
            r.origin@ == Some(process_name@),
    {
        FileEvent {
            path,
            event_kind,
            origin: EventOrigin::Internal { process_name: process_name.to_string() },
        }
    }

    /// The same event with another origin.
    pub fn with_origin(self, origin: EventOrigin) -> (r: FileEvent)
        ensures
            r.path == self.path,
            r.event_kind == self.event_kind,
            r.origin == origin,
    {
        let mut e = self;
        e.origin = origin;
        e
    }

    /// The audit-log line of this event: kind, origin and path.
    pub fn describe(&self) -> (r: String)
        ensures
            r@ == event_line(*self),
    {
        let kind = match self.event_kind {
            EventKind::Create => "CREATE",
            EventKind::Modify => "MODIFY",
            EventKind::Delete => "DELETE",
        };
        let origin = match &self.origin {
            EventOrigin::External => "[EXT]".to_string(),
            EventOrigin::Internal { process_name } => {
                let s = concat("[INT:", process_name.as_str());
                concat(s.as_str(), "]")
            },
        };
        let s = concat("EVENT ", kind);
        let s = concat(s.as_str(), " ");
        let s = concat(s.as_str(), origin.as_str());
        let s = concat(s.as_str(), " | ");
        concat(s.as_str(), self.path.as_str())
    }

    /// An event with every field given.
    pub fn new_with_origin(path: String, event_kind: EventKind, origin: EventOrigin) -> (r: FileEvent)
        ensures
            r.path == path,
            r.event_kind == event_kind,
            r.origin == origin,
    {
        FileEvent { path, event_kind, origin }
    }
}

} // verus!
