use vstd::prelude::*;
use crate::text::{
    lines, trim, starts_with, join_lines, block_end, lemma_block_end, views, chars_of, string_of,
    split_lines, trimmed, has_prefix, join_range, find_block_end, append_chars,
};

verus! {

/// The line that closes a command.
pub open spec fn command_separator() -> Seq<char> {
    "------"@
}

/// The line that closes a command's output.
pub open spec fn result_separator() -> Seq<char> {
    "-----"@
}

/// The entries read from the lines `ls`, from line `i` on. An entry is a
/// command (its lines up to the next `------` line) and its output (the
/// lines after that up to the next `-----` line); both are trimmed, and an
/// entry always has an output, maybe empty.
pub open spec fn commands_from(ls: Seq<Seq<char>>, i: int) -> Seq<(Seq<char>, Option<Seq<char>>)>
    decreases ls.len() - i,
{
    if i < 0 || i >= ls.len() {
        seq![]
    } else {
        let t = trim(ls[i]);
        if t.len() == 0 || starts_with(t, result_separator()) {
            commands_from(ls, i + 1)
        } else {
            let j = block_end(ls, i + 1, command_separator());
            proof {
                lemma_block_end(ls, i + 1, command_separator());
            }
            let command = trim(join_lines(ls.subrange(i, j)));
            if command.len() == 0 {
                commands_from(ls, j)
            } else {
                let k = if j < ls.len() {
                    j + 1
                } else {
                    j
                };
                let b = block_end(ls, k, result_separator());
                proof {
                    lemma_block_end(ls, k, result_separator());
                }
                let next = if b < ls.len() {
                    b + 1
                } else {
                    b
                };
                seq![(command, Some(trim(join_lines(ls.subrange(k, b)))))] + commands_from(ls, next)
            }
        }
    }
}

/// The output of an entry as text: empty when there is none.
pub open spec fn output_text(r: Option<Seq<char>>) -> Seq<char> {
    match r {
        Some(t) => t,
        None => Seq::<char>::empty(),
    }
}

/// The text of the entries `es`.
pub open spec fn command_text(es: Seq<(Seq<char>, Option<Seq<char>>)>) -> Seq<char>
    decreases es.len(),
{
    if es.len() == 0 {
        seq![]
    } else {
        command_text(es.drop_last()) + es.last().0 + "\n------\n"@ + output_text(es.last().1)
            + "\n-----\n"@
    }
}

/// An entry still to be run: it has no output, or an empty one.
pub open spec fn needs_run(e: (Seq<char>, Option<Seq<char>>)) -> bool {
    e.1 is None || e.1 == Some(Seq::<char>::empty())
}

/// Indices of the entries of `es` still to be run, in order.
pub open spec fn pending_indices(es: Seq<(Seq<char>, Option<Seq<char>>)>) -> Seq<int>
    decreases es.len(),
{
    if es.len() == 0 {
        seq![]
    } else if needs_run(es.last()) {
        pending_indices(es.drop_last()).push(es.len() - 1)
    } else {
        pending_indices(es.drop_last())
    }
}

/// A shell command and, once it has run, its output.
#[derive(Debug, Clone, PartialEq)]
pub struct CommandEntry {
    pub command: String,
    pub result: Option<String>,
}

impl View for CommandEntry {
    type V = (Seq<char>, Option<Seq<char>>);

    open spec fn view(&self) -> (Seq<char>, Option<Seq<char>>) {
        (
            self.command@,
            match self.result {
                Some(r) => Some(r@),
                None => None,
            },
        )
    }
}

impl CommandEntry {
    /// A command that has not run.
    pub fn new(command: String) -> (r: CommandEntry)
        ensures
            r.command == command,
            r.result is None,
    {
        CommandEntry { command, result: None }
    }

    /// A command with its output.
    pub fn with_result(command: String, result: String) -> (r: CommandEntry)
        ensures
            r.command == command,
            r.result == Some(result),
    {
        CommandEntry { command, result: Some(result) }
    }
}

/// A log of commands and their outputs.
#[derive(Debug, Clone, PartialEq)]
pub struct CommandLog {
    pub entries: Vec<CommandEntry>,
}

impl View for CommandLog {
    type V = Seq<(Seq<char>, Option<Seq<char>>)>;

    open spec fn view(&self) -> Seq<(Seq<char>, Option<Seq<char>>)> {
        self.entries@.map_values(|e: CommandEntry| e@)
    }
}

impl CommandLog {
    /// An empty log.
    pub fn new() -> (r: CommandLog)
        ensures
            r@ == Seq::<(Seq<char>, Option<Seq<char>>)>::empty(),
    {
        let r = CommandLog { entries: Vec::new() };
        assert(r@ =~= Seq::<(Seq<char>, Option<Seq<char>>)>::empty());
        r
    }

    /// Adds an entry at the end.
    pub fn add_entry(&mut self, entry: CommandEntry)
        ensures
            final(self)@ == old(self)@.push(entry@),
    {
        self.entries.push(entry);
        assert(self@ =~= old(self)@.push(entry@));
    }

    /// Reads a log from its text.
    pub fn parse(content: &str) -> (r: CommandLog)
        ensures
            r@ == commands_from(lines(content@), 0),
    {
        let v = chars_of(content);
        let ls = split_lines(&v);
        let ghost l = views(ls@);
        let csep = chars_of("------");
        let rsep = chars_of("-----");
        let mut log = CommandLog::new();
        let n = ls.len();
        let mut i: usize = 0;
        assert(log@ + commands_from(l, 0) =~= commands_from(l, 0));
        while i < n
            invariant
                n == ls@.len() == l.len(),
                l == views(ls@),
                l == lines(content@),
                csep@ == command_separator(),
                rsep@ == result_separator(),
                i <= n,
                log@ + commands_from(l, i as int) == commands_from(l, 0),
            decreases n - i,
        {
            let start = i;
            let ghost before = log@;
            let t = trimmed(&ls[i]);
            if t.len() == 0 || has_prefix(&t, &rsep) {
                i += 1;
            } else {
                let j = find_block_end(&ls, i + 1, &csep);
                proof {
                    lemma_block_end(l, i + 1, command_separator());
                }
                let command = trimmed(&join_range(&ls, i, j));
                if command.len() == 0 {
                    i = j;
                } else {
                    let k = if j < n {
                        j + 1
                    } else {
                        j
                    };
                    let b = find_block_end(&ls, k, &rsep);
                    proof {
                        lemma_block_end(l, k as int, result_separator());
                    }
                    let result = trimmed(&join_range(&ls, k, b));
                    log.add_entry(
                        CommandEntry::with_result(
                            string_of(command.as_slice()),
                            string_of(result.as_slice()),
                        ),
                    );
                    i = if b < n {
                        b + 1
                    } else {
                        b
                    };
                }
            }
            assert(log@ + commands_from(l, i as int) =~= before + commands_from(l, start as int));
        }
        log
    }

    /// The text of this log.
    pub fn render(&self) -> (r: String)
        ensures
            r@ == command_text(self@),
    {
        let mut out: Vec<char> = Vec::new();
        let a = chars_of("\n------\n");
        let b = chars_of("\n-----\n");
        let mut i: usize = 0;
        assert(self@.subrange(0, 0) =~= Seq::<(Seq<char>, Option<Seq<char>>)>::empty());
        while i < self.entries.len()
            invariant
                i <= self@.len(),
                a@ == "\n------\n"@,
                b@ == "\n-----\n"@,
                out@ == command_text(self@.subrange(0, i as int)),
            decreases self@.len() - i,
        {
            let e = &self.entries[i];
            append_chars(&mut out, &chars_of(e.command.as_str()));
            append_chars(&mut out, &a);
            match &e.result {
                Some(r) => append_chars(&mut out, &chars_of(r.as_str())),
                None => {},
            }
            append_chars(&mut out, &b);
            i += 1;
            assert(self@.subrange(0, i as int).drop_last() =~= self@.subrange(0, i - 1));
            assert(out@ =~= command_text(self@.subrange(0, i as int)));
        }
        assert(self@.subrange(0, i as int) =~= self@);
        string_of(out.as_slice())
    }

    /// Indices of the entries still to be run, in order.
    pub fn pending_commands(&self) -> (r: Vec<usize>)
        ensures
            r@.map_values(|x: usize| x as int) == pending_indices(self@),
    {
        let mut r: Vec<usize> = Vec::new();
        let mut i: usize = 0;
        assert(self@.subrange(0, 0) =~= Seq::<(Seq<char>, Option<Seq<char>>)>::empty());
        assert(r@.map_values(|x: usize| x as int) =~= Seq::<int>::empty());
        while i < self.entries.len()
            invariant
                i <= self@.len(),
                r@.map_values(|x: usize| x as int) == pending_indices(self@.subrange(0, i as int)),
            decreases self@.len() - i,
        {
            let ghost rv = r@.map_values(|x: usize| x as int);
            let run = match &self.entries[i].result {
                None => true,
                Some(out) => {
                    let e = out.as_str().is_empty();
                    assert(e ==> out@ =~= Seq::<char>::empty());
                    e
                },
            };
            assert(run == needs_run(self@[i as int]));
            if run {
                r.push(i);
                assert(r@.map_values(|x: usize| x as int) =~= rv.push(i as int));
            }
            i += 1;
            assert(self@.subrange(0, i as int).drop_last() =~= self@.subrange(0, i - 1));
            assert(self@.subrange(0, i as int).last() == self@[i - 1]);
        }
        assert(self@.subrange(0, i as int) =~= self@);
        r
    }

    /// Sets the output of entry `i`.
    pub fn set_result(&mut self, i: usize, output: String)
        requires
            i < old(self)@.len(),
        ensures
            final(self)@ == old(self)@.update(i as int, (old(self)@[i as int].0, Some(output@))),
    {
        let command = self.entries[i].command.clone();
        self.entries.set(i, CommandEntry::with_result(command, output));
        assert(self@ =~= old(self)@.update(i as int, (old(self)@[i as int].0, Some(output@))));
    }
}

} // verus!
