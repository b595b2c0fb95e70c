use vstd::prelude::*;
use crate::text::{
    lines, trim, starts_with, views, chars_of, string_of, split_lines, trimmed, has_prefix,
    slice_of, index_of, find_char, append_chars,
};

verus! {

/// The line between open and done items.
pub open spec fn divider() -> Seq<char> {
    "-----------------"@
}

/// What has been read of a todo file: new item texts, open items, done
/// items, whether the new-item section is open and whether the done
/// section has begun.
pub type TodoScan = (Seq<Seq<char>>, Seq<(Seq<char>, bool)>, Seq<(Seq<char>, bool)>, bool, bool);

/// The box `[x]` or `[X]` marks an item as done.
pub open spec fn is_checked(b: Seq<char>) -> bool {
    b == "x"@ || b == "X"@
}

/// The item of a trimmed line `t` that begins with `[`: the text after the
/// first `]`, done when the box holds `x`.
pub open spec fn item_of(t: Seq<char>) -> (Seq<char>, bool) {
    let c = index_of(t, ']');
    (trim(t.subrange(c + 1, t.len() as int)), is_checked(trim(t.subrange(1, c))))
}

/// The scan after one more line.
pub open spec fn todo_step(st: TodoScan, line: Seq<char>) -> TodoScan {
    let t = trim(line);
    if starts_with(t, "Neues Todo:"@) {
        (st.0, st.1, st.2, true, false)
    } else if starts_with(t, "Todos:"@) {
        (st.0, st.1, st.2, false, st.4)
    } else if t.len() == 0 {
        st
    } else if starts_with(t, divider()) {
        (st.0, st.1, st.2, st.3, true)
    } else if st.3 {
        (st.0.push(t), st.1, st.2, st.3, st.4)
    } else if t[0] == '[' && 1 <= index_of(t, ']') < t.len() {
        if st.4 {
            (st.0, st.1, st.2.push(item_of(t)), st.3, st.4)
        } else {
            (st.0, st.1.push(item_of(t)), st.2, st.3, st.4)
        }
    } else {
        st
    }
}

/// The scan of the lines `ls`, in order.
pub open spec fn todo_scan(ls: Seq<Seq<char>>) -> TodoScan
    decreases ls.len(),
{
    if ls.len() == 0 {
        (seq![], seq![], seq![], false, false)
    } else {
        todo_step(todo_scan(ls.drop_last()), ls.last())
    }
}

/// The items of a todo file: new ones (open), then open ones, then done ones.
pub open spec fn todo_items(ls: Seq<Seq<char>>) -> Seq<(Seq<char>, bool)> {
    let st = todo_scan(ls);
    st.0.map_values(|t: Seq<char>| (t, false)) + st.1 + st.2
}

/// The lines `mark text` of the items of `es` whose state is `done`.
pub open spec fn item_lines(es: Seq<(Seq<char>, bool)>, done: bool, mark: Seq<char>) -> Seq<char>
    decreases es.len(),
{
    if es.len() == 0 {
        seq![]
    } else if es.last().1 == done {
        item_lines(es.drop_last(), done, mark) + mark + es.last().0 + "\n"@
    } else {
        item_lines(es.drop_last(), done, mark)
    }
}

pub open spec fn any_done(es: Seq<(Seq<char>, bool)>) -> bool {
    exists|i: int| 0 <= i < es.len() && es[i].1
}

/// The text of the items `es`: an empty new-item section, the open items,
/// and, when there are any, a divider and the done items.
pub open spec fn todo_text(es: Seq<(Seq<char>, bool)>) -> Seq<char> {
    "Neues Todo:\n\nTodos:\n"@ + item_lines(es, false, "[] "@) + (if any_done(es) {
        divider() + "\n"@
    } else {
        Seq::<char>::empty()
    }) + item_lines(es, true, "[x] "@)
}

/// One item of a todo list.
#[derive(Debug, Clone, PartialEq)]
pub struct TodoEntry {
    pub text: String,
    pub completed: bool,
}

impl View for TodoEntry {
    type V = (Seq<char>, bool);

    open spec fn view(&self) -> (Seq<char>, bool) {
        (self.text@, self.completed)
    }
}

impl TodoEntry {
    /// An open item.
    pub fn new(text: String) -> (r: TodoEntry)
        ensures
            r.text == text,
            !r.completed,
    {
        TodoEntry { text, completed: false }
    }

    /// An item in the given state.
    pub fn with_status(text: String, completed: bool) -> (r: TodoEntry)
        ensures
            r.text == text,
            r.completed == completed,
    {
        TodoEntry { text, completed }
    }
}

/// A todo list.
#[derive(Debug, Clone, PartialEq)]
pub struct TodoLog {
    pub entries: Vec<TodoEntry>,
}

pub open spec fn entry_views(es: Seq<TodoEntry>) -> Seq<(Seq<char>, bool)> {
    es.map_values(|e: TodoEntry| e@)
}

impl View for TodoLog {
    type V = Seq<(Seq<char>, bool)>;

    open spec fn view(&self) -> Seq<(Seq<char>, bool)> {
        entry_views(self.entries@)
    }
}

/// Appends the lines `mark text` of the entries in state `done`.
fn push_item_lines(out: &mut Vec<char>, es: &Vec<TodoEntry>, done: bool, mark: &Vec<char>)
    ensures
        final(out)@ == old(out)@ + item_lines(entry_views(es@), done, mark@),
{
    let ghost ev = entry_views(es@);
    let ghost o = out@;
    let nl = chars_of("\n");
    let mut i: usize = 0;
    assert(ev.subrange(0, 0) =~= Seq::<(Seq<char>, bool)>::empty());
    assert(out@ =~= o + item_lines(ev.subrange(0, 0), done, mark@));
    while i < es.len()
        invariant
            ev == entry_views(es@),
            i <= ev.len(),
            nl@ == "\n"@,
            out@ == o + item_lines(ev.subrange(0, i as int), done, mark@),
        decreases ev.len() - i,
    {
        let ghost sub = ev.subrange(0, i + 1);
        assert(sub.drop_last() =~= ev.subrange(0, i as int));
        if es[i].completed == done {
            append_chars(out, mark);
            append_chars(out, &chars_of(es[i].text.as_str()));
            append_chars(out, &nl);
        }
        i += 1;
        assert(out@ =~= o + item_lines(ev.subrange(0, i as int), done, mark@));
    }
    assert(ev.subrange(0, i as int) =~= ev);
}

impl TodoLog {
    /// An empty list.
    pub fn new() -> (r: TodoLog)
        ensures
            r@ == Seq::<(Seq<char>, bool)>::empty(),
    {
        let r = TodoLog { entries: Vec::new() };
        assert(r@ =~= Seq::<(Seq<char>, bool)>::empty());
        r
    }

    /// Adds an item at the end.
    pub fn add_entry(&mut self, entry: TodoEntry)
        ensures
            final(self)@ == old(self)@.push(entry@),
    {
        self.entries.push(entry);
        assert(self@ =~= old(self)@.push(entry@));
    }

    /// Reads a list from its text.
    pub fn parse(content: &str) -> (r: TodoLog)
        ensures
            r@ == todo_items(lines(content@)),
    {
        let v = chars_of(content);
        let ls = split_lines(&v);
        let ghost l = views(ls@);
        let new_mark = chars_of("Neues Todo:");
        let list_mark = chars_of("Todos:");
        let div = chars_of("-----------------");
        let x_lower = chars_of("x");
        let x_upper = chars_of("X");
        let mut fresh: Vec<Vec<char>> = Vec::new();
        let mut active: Vec<TodoEntry> = Vec::new();
        let mut done: Vec<TodoEntry> = Vec::new();
        let mut in_new = false;
        let mut in_done = false;
        let n = ls.len();
        let mut i: usize = 0;
        assert(l.subrange(0, 0) =~= Seq::<Seq<char>>::empty());
        assert(views(fresh@) =~= Seq::<Seq<char>>::empty());
        assert(entry_views(active@) =~= Seq::<(Seq<char>, bool)>::empty());
        assert(entry_views(done@) =~= Seq::<(Seq<char>, bool)>::empty());
        while i < n
            invariant
                n == ls@.len() == l.len(),
                l == views(ls@),
                l == lines(content@),
                new_mark@ == "Neues Todo:"@,
                list_mark@ == "Todos:"@,
                div@ == divider(),
                x_lower@ == "x"@,
                x_upper@ == "X"@,
                i <= n,
                (views(fresh@), entry_views(active@), entry_views(done@), in_new, in_done)
                    == todo_scan(l.subrange(0, i as int)),
            decreases n - i,
        {
            let ghost sub = l.subrange(0, i + 1);
            assert(sub.drop_last() =~= l.subrange(0, i as int));
            let ghost fv = views(fresh@);
            let ghost av = entry_views(active@);
            let ghost dv = entry_views(done@);
            let t = trimmed(&ls[i]);
            if has_prefix(&t, &new_mark) {
                in_new = true;
                in_done = false;
            } else if has_prefix(&t, &list_mark) {
                in_new = false;
            } else if t.len() == 0 {
            } else if has_prefix(&t, &div) {
                in_done = true;
            } else if in_new {
                fresh.push(t);
                assert(views(fresh@) =~= fv.push(trim(l[i as int])));
            } else if t[0] == '[' {
                let c = find_char(&t, ']');
                if 1 <= c && c < t.len() {
                    let text = trimmed(&slice_of(&t, c + 1, t.len()));
                    let boxed = trimmed(&slice_of(&t, 1, c));
                    let checked = (boxed.len() == x_lower.len() && has_prefix(&boxed, &x_lower)) || (
                    boxed.len() == x_upper.len() && has_prefix(&boxed, &x_upper));
                    assert(checked == is_checked(boxed@)) by {
                        if boxed@.len() == x_lower@.len() && starts_with(boxed@, x_lower@) {
                            assert(boxed@ =~= boxed@.subrange(0, x_lower@.len() as int));
                        }
                        if boxed@.len() == x_upper@.len() && starts_with(boxed@, x_upper@) {
                            assert(boxed@ =~= boxed@.subrange(0, x_upper@.len() as int));
                        }
                        if boxed@ == "x"@ {
                            assert(boxed@.subrange(0, boxed@.len() as int) =~= boxed@);
                        }
                        if boxed@ == "X"@ {
                            assert(boxed@.subrange(0, boxed@.len() as int) =~= boxed@);
                        }
                    }
                    let entry = TodoEntry::with_status(string_of(text.as_slice()), checked);
                    if in_done {
                        done.push(entry);
                        assert(entry_views(done@) =~= dv.push(item_of(t@)));
                    } else {
                        active.push(entry);
                        assert(entry_views(active@) =~= av.push(item_of(t@)));
                    }
                }
            }
            i += 1;
        }
        assert(l.subrange(0, n as int) =~= l);
        let mut log = TodoLog::new();
        let mut k: usize = 0;
        while k < fresh.len()
            invariant
                k <= fresh@.len(),
                log@ == views(fresh@).subrange(0, k as int).map_values(|t: Seq<char>| (t, false)),
            decreases fresh@.len() - k,
        {
            let ghost lv = log@;
            log.add_entry(TodoEntry::new(string_of(fresh[k].as_slice())));
            k += 1;
            assert(log@ =~= views(fresh@).subrange(0, k as int).map_values(|t: Seq<char>| (t, false)));
        }
        assert(views(fresh@).subrange(0, k as int) =~= views(fresh@));
        let ghost head = log@;
        let mut k: usize = 0;
        while k < active.len()
            invariant
                k <= active@.len(),
                log@ == head + entry_views(active@).subrange(0, k as int),
            decreases active@.len() - k,
        {
            log.add_entry(TodoEntry::with_status(active[k].text.clone(), active[k].completed));
            k += 1;
            assert(log@ =~= head + entry_views(active@).subrange(0, k as int));
        }
        assert(entry_views(active@).subrange(0, k as int) =~= entry_views(active@));
        let ghost mid = log@;
        let mut k: usize = 0;
        while k < done.len()
            invariant
                k <= done@.len(),
                log@ == mid + entry_views(done@).subrange(0, k as int),
            decreases done@.len() - k,
        {
            log.add_entry(TodoEntry::with_status(done[k].text.clone(), done[k].completed));
            k += 1;
            assert(log@ =~= mid + entry_views(done@).subrange(0, k as int));
        }
        assert(entry_views(done@).subrange(0, k as int) =~= entry_views(done@));
        log
    }

    /// The text of this list.
    pub fn render(&self) -> (r: String)
        ensures
            r@ == todo_text(self@),
    {
        let mut out = chars_of("Neues Todo:\n\nTodos:\n");
        push_item_lines(&mut out, &self.entries, false, &chars_of("[] "));
        let mut any = false;
        let mut i: usize = 0;
        while i < self.entries.len()
            invariant
                i <= self@.len(),
                !any ==> forall|j: int| 0 <= j < i ==> !self@[j].1,
                any ==> any_done(self@),
            decreases self@.len() - i,
        {
            if self.entries[i].completed {
                any = true;
                assert(self@[i as int].1);
            }
            i += 1;
        }
        assert(any == any_done(self@));
        if any {
            append_chars(&mut out, &chars_of("-----------------\n"));
            assert(divider() + "\n"@ == "-----------------\n"@) by {
                reveal_strlit("-----------------\n");
                reveal_strlit("-----------------");
                reveal_strlit("\n");
                assert(divider() + "\n"@ =~= "-----------------\n"@);
            }
        }
        push_item_lines(&mut out, &self.entries, true, &chars_of("[x] "));
        string_of(out.as_slice())
    }
}

} // verus!
