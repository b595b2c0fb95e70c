use vstd::prelude::*;
use crate::process::text_bytes;
use vstd::utf8::encode_utf8;
use crate::stamp::{decimal, timestamp, decimal_of, timestamp_of, unix_now};
use crate::text::{
    lines, trim, starts_with, occurs_at, block_end, lemma_block_end, views, chars_of, string_of,
    split_lines, trimmed, has_prefix, occurs_at_exec, slice_of, find_block_end, append_chars,
};

verus! {

/// A line that begins with this opens an entry of the index.
pub open spec fn file_marker() -> Seq<char> {
    "## File:"@
}

/// What has been read of one entry: path, time of update, summary, and
/// whether the summary has begun.
pub type EntryScan = (Seq<char>, Seq<char>, Seq<char>, bool);

/// `cur` after the label `label` that it begins with, trimmed.
pub open spec fn after_label(cur: Seq<char>, label: Seq<char>) -> Seq<char> {
    trim(cur.subrange(label.len() as int, cur.len() as int))
}

/// The scan of an entry after one more line.
pub open spec fn entry_step(st: EntryScan, line: Seq<char>) -> EntryScan {
    let cur = trim(line);
    if starts_with(cur, "**Path:**"@) {
        (after_label(cur, "**Path:**"@), st.1, st.2, st.3)
    } else if starts_with(cur, "**Last Updated:**"@) {
        (st.0, after_label(cur, "**Last Updated:**"@), st.2, st.3)
    } else if starts_with(cur, "**Summary:**"@) {
        (st.0, st.1, st.2, true)
    } else if st.3 && cur.len() > 0 && !starts_with(cur, "**"@) {
        (st.0, st.1, if st.2.len() > 0 {
            st.2 + seq!['\n'] + cur
        } else {
            cur
        }, st.3)
    } else {
        st
    }
}

/// The scan of the lines `ls` of one entry, from `init`.
pub open spec fn entry_scan(ls: Seq<Seq<char>>, init: EntryScan) -> EntryScan
    decreases ls.len(),
{
    if ls.len() == 0 {
        init
    } else {
        entry_step(entry_scan(ls.drop_last(), init), ls.last())
    }
}

/// The entries (path, summary, time of update) read from the lines `ls`,
/// from line `i` on. An entry runs from its `## File:` line to the next line
/// that begins with `---`; one without a path or a summary is left out.
pub open spec fn index_from(ls: Seq<Seq<char>>, i: int) -> Seq<(Seq<char>, Seq<char>, Seq<char>)>
    decreases ls.len() - i,
{
    if i < 0 || i >= ls.len() {
        seq![]
    } else {
        let t = trim(ls[i]);
        if starts_with(t, file_marker()) {
            let e = block_end(ls, i + 1, "---"@);
            proof {
                lemma_block_end(ls, i + 1, "---"@);
            }
            let st = entry_scan(
                ls.subrange(i + 1, e),
                (after_label(t, file_marker()), Seq::<char>::empty(), Seq::<char>::empty(), false),
            );
            (if st.0.len() > 0 && st.2.len() > 0 {
                seq![(st.0, st.2, st.1)]
            } else {
                seq![]
            }) + index_from(ls, e)
        } else {
            index_from(ls, i + 1)
        }
    }
}

/// `s` with every occurrence of `pat` taken out, from left to right.
pub open spec fn remove_all(s: Seq<char>, pat: Seq<char>) -> Seq<char>
    decreases s.len(),
{
    if s.len() == 0 {
        s
    } else if pat.len() > 0 && starts_with(s, pat) {
        remove_all(s.subrange(pat.len() as int, s.len() as int), pat)
    } else {
        seq![s[0]] + remove_all(s.drop_first(), pat)
    }
}

/// A line without its markdown emphasis, code and link brackets.
pub open spec fn plain(t: Seq<char>) -> Seq<char> {
    remove_all(remove_all(remove_all(remove_all(remove_all(t, "**"@), "_"@), "`"@), "["@), "]"@)
}

/// The longest summary, in characters, before it is cut.
pub const SUMMARY_LIMIT: usize = 300;

/// The summary after one more line: lines that are empty, headings or rules
/// are skipped; the others are joined with spaces, and once the limit is
/// reached the text is cut there, `...` is added and the rest is ignored.
pub open spec fn summary_step(st: (Seq<char>, bool), line: Seq<char>) -> (Seq<char>, bool) {
    let t = trim(line);
    if st.1 || t.len() == 0 || starts_with(t, "#"@) || starts_with(t, "---"@) {
        st
    } else {
        let c = plain(t);
        let s = if st.0.len() == 0 {
            c
        } else if st.0.len() < SUMMARY_LIMIT {
            st.0 + seq![' '] + c
        } else {
            st.0
        };
        if s.len() >= SUMMARY_LIMIT {
            (s.subrange(0, SUMMARY_LIMIT as int) + "..."@, true)
        } else {
            (s, false)
        }
    }
}

pub open spec fn summary_scan(ls: Seq<Seq<char>>) -> (Seq<char>, bool)
    decreases ls.len(),
{
    if ls.len() == 0 {
        (seq![], false)
    } else {
        summary_step(summary_scan(ls.drop_last()), ls.last())
    }
}

/// The summary of a markdown text, or `[No content]` when it has none.
pub open spec fn summary_of(content: Seq<char>) -> Seq<char> {
    let s = summary_scan(lines(content)).0;
    if s.len() == 0 {
        "[No content]"@
    } else {
        s
    }
}

/// `v` with every occurrence of `pat` taken out.
fn without_all(v: &Vec<char>, pat: &Vec<char>) -> (r: Vec<char>)
    requires
        pat@.len() > 0,
    ensures
        r@ == remove_all(v@, pat@),
{
    let n = v.len();
    let mut out: Vec<char> = Vec::new();
    let mut i: usize = 0;
    assert(v@.subrange(0, n as int) =~= v@);
    while i < n
        invariant
            n == v@.len(),
            i <= n,
            pat@.len() > 0,
            out@ + remove_all(v@.subrange(i as int, n as int), pat@) == remove_all(v@, pat@),
        decreases n - i,
    {
        let ghost s = v@.subrange(i as int, n as int);
        let ghost o = out@;
        if occurs_at_exec(v, pat, i) {
            assert(s.subrange(0, pat@.len() as int) =~= v@.subrange(i as int, i + pat@.len()));
            assert(s.subrange(pat@.len() as int, s.len() as int) =~= v@.subrange(i + pat@.len(), n as int));
            i += pat.len();
        } else {
            assert(!starts_with(s, pat@)) by {
                if starts_with(s, pat@) {
                    assert(s.subrange(0, pat@.len() as int) =~= v@.subrange(i as int, i + pat@.len()));
                }
            }
            assert(s.drop_first() =~= v@.subrange(i + 1, n as int));
            out.push(v[i]);
            i += 1;
            assert(out@ + remove_all(v@.subrange(i as int, n as int), pat@) =~= o + remove_all(s, pat@));
        }
    }
    assert(v@.subrange(n as int, n as int) =~= Seq::<char>::empty());
    assert(out@ + remove_all(v@.subrange(n as int, n as int), pat@) =~= out@);
    out
}

/// A line as `plain` gives it.
fn plain_line(t: &Vec<char>) -> (r: Vec<char>)
    ensures
        r@ == plain(t@),
{
    proof {
        reveal_strlit("**");
        reveal_strlit("_");
        reveal_strlit("`");
        reveal_strlit("[");
        reveal_strlit("]");
    }
    let a = without_all(t, &chars_of("**"));
    let b = without_all(&a, &chars_of("_"));
    let c = without_all(&b, &chars_of("`"));
    let d = without_all(&c, &chars_of("["));
    without_all(&d, &chars_of("]"))
}

/// The text of one entry.
pub open spec fn entry_block(e: (Seq<char>, Seq<char>, Seq<char>)) -> Seq<char> {
    "## File: "@ + e.0 + "\n**Path:** "@ + e.0 + "\n**Last Updated:** "@ + e.2 + "\n**Summary:**\n"@
        + e.1 + "\n\n---\n\n"@
}

pub open spec fn entry_blocks(es: Seq<(Seq<char>, Seq<char>, Seq<char>)>) -> Seq<char>
    decreases es.len(),
{
    if es.len() == 0 {
        seq![]
    } else {
        entry_blocks(es.drop_last()) + entry_block(es.last())
    }
}

/// The text of an index with entries `es`, written at time `stamp`.
pub open spec fn index_text(es: Seq<(Seq<char>, Seq<char>, Seq<char>)>, stamp: Seq<char>) -> Seq<char> {
    "# Documentation Index\n\n"@ + entry_blocks(es) + "Last Updated: "@ + stamp + "\n"@
        + "Total Files: "@ + decimal(es.len()) + "\n"@
}

/// `a` comes no later than `b` in character order.
pub open spec fn path_le(a: Seq<char>, b: Seq<char>) -> bool
    decreases a.len(),
{
    if a.len() == 0 {
        true
    } else if b.len() == 0 {
        false
    } else if a[0] != b[0] {
        (a[0] as int) < (b[0] as int)
    } else {
        path_le(a.drop_first(), b.drop_first())
    }
}

proof fn lemma_path_le_total(a: Seq<char>, b: Seq<char>)
    ensures
        path_le(a, b) || path_le(b, a),
    decreases a.len(),
{
    if a.len() > 0 && b.len() > 0 {
        if a[0] == b[0] {
            lemma_path_le_total(a.drop_first(), b.drop_first());
        }
    }
}

proof fn lemma_path_le_trans(a: Seq<char>, b: Seq<char>, c: Seq<char>)
    requires
        path_le(a, b),
        path_le(b, c),
    ensures
        path_le(a, c),
    decreases a.len(),
{
    if a.len() > 0 && b.len() > 0 && c.len() > 0 {
        if a[0] == b[0] && b[0] == c[0] {
            lemma_path_le_trans(a.drop_first(), b.drop_first(), c.drop_first());
        }
    }
}

/// The entries `es` are in order of their paths.
pub open spec fn sorted_by_path(es: Seq<(Seq<char>, Seq<char>, Seq<char>)>) -> bool {
    forall|i: int, j: int| 0 <= i < j < es.len() ==> path_le(es[i].0, es[j].0)
}

/// `p` relative to the directory `dir` when it lies below it, else `p`.
pub open spec fn relative_to(dir: Seq<char>, p: Seq<char>) -> Seq<char> {
    let d = if dir.len() > 0 && dir.last() == '/' {
        dir
    } else {
        dir + seq!['/']
    };
    if dir.len() > 0 && starts_with(p, d) {
        p.subrange(d.len() as int, p.len() as int)
    } else {
        p
    }
}

/// The entry for the markdown file at `f.0` with text `f.1` in directory
/// `dir`, updated at `stamp`.
pub open spec fn file_entry(dir: Seq<char>, f: (Seq<char>, Seq<char>), stamp: Seq<char>) -> (
    Seq<char>,
    Seq<char>,
    Seq<char>,
) {
    (relative_to(dir, f.0), summary_of(f.1), stamp)
}

/// Whether `a` comes no later than `b`, as `path_le` says.
fn path_leq(a: &Vec<char>, b: &Vec<char>) -> (r: bool)
    ensures
        r == path_le(a@, b@),
{
    let mut i: usize = 0;
    assert(a@.subrange(0, a@.len() as int) =~= a@);
    assert(b@.subrange(0, b@.len() as int) =~= b@);
    while i < a.len()
        invariant
            i <= a@.len(),
            i <= b@.len(),
            forall|k: int| 0 <= k < i ==> k < b@.len() && a@[k] == b@[k],
            path_le(a@, b@) == path_le(a@.subrange(i as int, a@.len() as int), b@.subrange(i as int, b@.len() as int)),
        decreases a@.len() - i,
    {
        if i >= b.len() {
            assert(b@.subrange(i as int, b@.len() as int).len() == 0);
            return false;
        }
        if a[i] != b[i] {
            return a[i] < b[i];
        }
        assert(a@.subrange(i as int, a@.len() as int).drop_first() =~= a@.subrange(i + 1, a@.len() as int));
        assert(b@.subrange(i as int, b@.len() as int).drop_first() =~= b@.subrange(i + 1, b@.len() as int));
        i += 1;
    }
    true
}

/// Inserts `x` into `out`, kept in order of paths, after the entries whose
/// path comes no later.
fn insert_by_path(out: &mut Vec<DokuEntry>, x: DokuEntry)
    requires
        sorted_by_path(old(out)@.map_values(|e: DokuEntry| e@)),
    ensures
        sorted_by_path(final(out)@.map_values(|e: DokuEntry| e@)),
        final(out)@.map_values(|e: DokuEntry| e@).to_multiset() == old(out)@.map_values(
            |e: DokuEntry| e@,
        ).to_multiset().insert(x@),
{
    let ghost ov = old(out)@.map_values(|e: DokuEntry| e@);
    let xp = chars_of(x.path.as_str());
    let mut p: usize = 0;
    while p < out.len() && path_leq(&chars_of(out[p].path.as_str()), &xp)
        invariant
            p <= out@.len(),
            out@ == old(out)@,
            ov == old(out)@.map_values(|e: DokuEntry| e@),
            xp@ == x.path@,
            forall|i: int| 0 <= i < p ==> path_le(ov[i].0, x.path@),
        decreases out@.len() - p,
    {
        assert(ov[p as int].0 == out@[p as int].path@);
        p += 1;
    }
    proof {
        if p < ov.len() {
            lemma_path_le_total(ov[p as int].0, x.path@);
        }
    }
    out.insert(p, x);
    let ghost nv = out@.map_values(|e: DokuEntry| e@);
    assert(nv =~= ov.insert(p as int, x@));
    assert forall|i: int, j: int| 0 <= i < j < nv.len() implies path_le(nv[i].0, nv[j].0) by {
        if j < p {
        } else if j == p {
        } else if i < p {
            if p < j - 1 {
                lemma_path_le_trans(x.path@, ov[p as int].0, ov[j - 1].0);
            }
            lemma_path_le_trans(ov[i].0, x.path@, ov[j - 1].0);
        } else if i == p {
            if p < j - 1 {
                lemma_path_le_trans(x.path@, ov[p as int].0, ov[j - 1].0);
            }
        } else {
        }
    }
    proof {
        broadcast use vstd::seq_lib::group_to_multiset_ensures;
        assert(nv.remove(p as int) =~= ov);
        assert(nv.to_multiset().remove(x@) =~= ov.to_multiset());
        assert(nv.to_multiset().count(x@) > 0) by {
            assert(nv.contains(x@)) by {
                assert(nv[p as int] == x@);
            }
        }
        assert(nv.to_multiset() =~= ov.to_multiset().insert(x@));
    }
}

/// One entry of a documentation index.
#[derive(Debug, Clone, PartialEq)]
pub struct DokuEntry {
    pub path: String,
    pub summary: String,
    pub last_updated: String,
}

impl View for DokuEntry {
    type V = (Seq<char>, Seq<char>, Seq<char>);

    open spec fn view(&self) -> (Seq<char>, Seq<char>, Seq<char>) {
        (self.path@, self.summary@, self.last_updated@)
    }
}

impl DokuEntry {
    pub fn new(path: String, summary: String, last_updated: String) -> (r: DokuEntry)
        ensures
            r.path == path,
            r.summary == summary,
            r.last_updated == last_updated,
    {
        DokuEntry { path, summary, last_updated }
    }
}

/// An index of documentation files.
#[derive(Debug, Clone, PartialEq)]
pub struct DokuIndex {
    pub entries: Vec<DokuEntry>,
}

impl View for DokuIndex {
    type V = Seq<(Seq<char>, Seq<char>, Seq<char>)>;

    open spec fn view(&self) -> Seq<(Seq<char>, Seq<char>, Seq<char>)> {
        self.entries@.map_values(|e: DokuEntry| e@)
    }
}

impl DokuIndex {
    /// An empty index.
    pub fn new() -> (r: DokuIndex)
        ensures
            r@ == Seq::<(Seq<char>, Seq<char>, Seq<char>)>::empty(),
    {
        let r = DokuIndex { entries: Vec::new() };
        assert(r@ =~= Seq::<(Seq<char>, Seq<char>, Seq<char>)>::empty());
        r
    }

    /// Adds an entry at the end.
    pub fn add_entry(&mut self, entry: DokuEntry)
        ensures
            final(self)@ == old(self)@.push(entry@),
    {
        self.entries.push(entry);
        assert(self@ =~= old(self)@.push(entry@));
    }

    /// Reads an index from its text.
    pub fn parse(content: &str) -> (r: DokuIndex)
        ensures
            r@ == index_from(lines(content@), 0),
    {
        let v = chars_of(content);
        let ls = split_lines(&v);
        let ghost l = views(ls@);
        let marker = chars_of("## File:");
        let rule = chars_of("---");
        let path_label = chars_of("**Path:**");
        let time_label = chars_of("**Last Updated:**");
        let summary_label = chars_of("**Summary:**");
        let bold = chars_of("**");
        let mut index = DokuIndex::new();
        let n = ls.len();
        let mut i: usize = 0;
        assert(index@ + index_from(l, 0) =~= index_from(l, 0));
        while i < n
            invariant
                n == ls@.len() == l.len(),
                l == views(ls@),
                l == lines(content@),
                marker@ == file_marker(),
                rule@ == "---"@,
                path_label@ == "**Path:**"@,
                time_label@ == "**Last Updated:**"@,
                summary_label@ == "**Summary:**"@,
                bold@ == "**"@,
                i <= n,
                index@ + index_from(l, i as int) == index_from(l, 0),
            decreases n - i,
        {
            let start = i;
            let ghost before = index@;
            let t = trimmed(&ls[i]);
            if has_prefix(&t, &marker) {
                let e = find_block_end(&ls, i + 1, &rule);
                proof {
                    lemma_block_end(l, i + 1, "---"@);
                }
                let mut path = trimmed(&slice_of(&t, marker.len(), t.len()));
                let mut updated: Vec<char> = Vec::new();
                let mut summary: Vec<char> = Vec::new();
                let mut in_summary = false;
                let ghost init: EntryScan = (path@, Seq::<char>::empty(), Seq::<char>::empty(), false);
                let mut k: usize = i + 1;
                assert(l.subrange(i + 1, k as int) =~= Seq::<Seq<char>>::empty());
                assert(updated@ =~= Seq::<char>::empty());
                assert(summary@ =~= Seq::<char>::empty());
                while k < e
                    invariant
                        i + 1 <= k <= e <= n,
                        n == ls@.len() == l.len(),
                        l == views(ls@),
                        path_label@ == "**Path:**"@,
                        time_label@ == "**Last Updated:**"@,
                        summary_label@ == "**Summary:**"@,
                        bold@ == "**"@,
                        (path@, updated@, summary@, in_summary) == entry_scan(l.subrange(i + 1, k as int), init),
                    decreases e - k,
                {
                    let ghost sub = l.subrange(i + 1, k + 1);
                    assert(sub.drop_last() =~= l.subrange(i + 1, k as int));
                    let cur = trimmed(&ls[k]);
                    if has_prefix(&cur, &path_label) {
                        path = trimmed(&slice_of(&cur, path_label.len(), cur.len()));
                    } else if has_prefix(&cur, &time_label) {
                        updated = trimmed(&slice_of(&cur, time_label.len(), cur.len()));
                    } else if has_prefix(&cur, &summary_label) {
                        in_summary = true;
                    } else if in_summary && cur.len() > 0 && !has_prefix(&cur, &bold) {
                        if summary.len() > 0 {
                            summary.push('\n');
                        }
                        append_chars(&mut summary, &cur);
                    }
                    k += 1;
                    assert(summary@ =~= entry_scan(l.subrange(i + 1, k as int), init).2);
                }
                if path.len() > 0 && summary.len() > 0 {
                    index.add_entry(
                        DokuEntry::new(
                            string_of(path.as_slice()),
                            string_of(summary.as_slice()),
                            string_of(updated.as_slice()),
                        ),
                    );
                }
                i = e;
            } else {
                i += 1;
            }
            assert(index@ + index_from(l, i as int) =~= before + index_from(l, start as int));
        }
        index
    }

    /// The summary of a markdown text: its first plain lines, cut after
    /// three hundred characters.
    pub fn create_summary(content: &str) -> (r: String)
        ensures
            r@ == summary_of(content@),
    {
        let v = chars_of(content);
        let ls = split_lines(&v);
        let ghost l = views(ls@);
        let hash = chars_of("#");
        let rule = chars_of("---");
        let dots = chars_of("...");
        let mut summary: Vec<char> = Vec::new();
        let mut done = false;
        let n = ls.len();
        let mut i: usize = 0;
        assert(l.subrange(0, 0) =~= Seq::<Seq<char>>::empty());
        assert(summary@ =~= Seq::<char>::empty());
        while i < n
            invariant
                n == ls@.len() == l.len(),
                l == views(ls@),
                hash@ == "#"@,
                rule@ == "---"@,
                dots@ == "..."@,
                i <= n,
                (summary@, done) == summary_scan(l.subrange(0, i as int)),
            decreases n - i,
        {
            let ghost sub = l.subrange(0, i + 1);
            assert(sub.drop_last() =~= l.subrange(0, i as int));
            if !done {
                let t = trimmed(&ls[i]);
                if !(t.len() == 0 || has_prefix(&t, &hash) || has_prefix(&t, &rule)) {
                    let c = plain_line(&t);
                    if summary.len() == 0 {
                        summary = c;
                    } else if summary.len() < SUMMARY_LIMIT {
                        summary.push(' ');
                        append_chars(&mut summary, &c);
                    }
                    if summary.len() >= SUMMARY_LIMIT {
                        let mut cut = slice_of(&summary, 0, SUMMARY_LIMIT);
                        append_chars(&mut cut, &dots);
                        summary = cut;
                        done = true;
                    }
                }
            }
            i += 1;
        }
        assert(l.subrange(0, n as int) =~= l);
        if summary.len() == 0 {
            "[No content]".to_string()
        } else {
            string_of(summary.as_slice())
        }
    }

    /// The text of this index, stamped with the time `now` (seconds since
    /// the Unix epoch).
    pub fn render_at(&self, now: u64) -> (r: String)
        ensures
            r@ == index_text(self@, timestamp(now as nat)),
    {
        let mut out = chars_of("# Documentation Index\n\n");
        let a = chars_of("## File: ");
        let b = chars_of("\n**Path:** ");
        let c = chars_of("\n**Last Updated:** ");
        let d = chars_of("\n**Summary:**\n");
        let e = chars_of("\n\n---\n\n");
        let ghost head = out@;
        let mut i: usize = 0;
        assert(self@.subrange(0, 0) =~= Seq::<(Seq<char>, Seq<char>, Seq<char>)>::empty());
        assert(out@ =~= head + entry_blocks(self@.subrange(0, 0)));
        while i < self.entries.len()
            invariant
                i <= self@.len(),
                a@ == "## File: "@,
                b@ == "\n**Path:** "@,
                c@ == "\n**Last Updated:** "@,
                d@ == "\n**Summary:**\n"@,
                e@ == "\n\n---\n\n"@,
                head == "# Documentation Index\n\n"@,
                out@ == head + entry_blocks(self@.subrange(0, i as int)),
            decreases self@.len() - i,
        {
            let en = &self.entries[i];
            let p = chars_of(en.path.as_str());
            append_chars(&mut out, &a);
            append_chars(&mut out, &p);
            append_chars(&mut out, &b);
            append_chars(&mut out, &p);
            append_chars(&mut out, &c);
            append_chars(&mut out, &chars_of(en.last_updated.as_str()));
            append_chars(&mut out, &d);
            append_chars(&mut out, &chars_of(en.summary.as_str()));
            append_chars(&mut out, &e);
            i += 1;
            assert(self@.subrange(0, i as int).drop_last() =~= self@.subrange(0, i - 1));
            assert(out@ =~= head + entry_blocks(self@.subrange(0, i as int)));
        }
        assert(self@.subrange(0, i as int) =~= self@);
        append_chars(&mut out, &chars_of("Last Updated: "));
        append_chars(&mut out, &chars_of(timestamp_of(now).as_str()));
        append_chars(&mut out, &chars_of("\n"));
        append_chars(&mut out, &chars_of("Total Files: "));
        append_chars(&mut out, &decimal_of(self.entries.len() as u64));
        append_chars(&mut out, &chars_of("\n"));
        string_of(out.as_slice())
    }

    /// The text of this index, stamped with the current time.
    pub fn render(&self) -> (r: String)
        ensures
            exists|now: u64| r@ == index_text(self@, timestamp(now as nat)),
    {
        let now = unix_now();
        self.render_at(now)
    }

    /// The index of the markdown files `files` (path and text) found in
    /// directory `dir`: one entry per file, with its path relative to `dir`,
    /// its summary and the time `stamp`, in order of paths.
    pub fn from_files(dir: &str, files: &Vec<(String, String)>, stamp: &str) -> (r: DokuIndex)
        ensures
            sorted_by_path(r@),
            r@.to_multiset() == files@.map_values(
                |f: (String, String)| file_entry(dir@, (f.0@, f.1@), stamp@),
            ).to_multiset(),
    {
        let ghost fv = files@.map_values(|f: (String, String)| file_entry(dir@, (f.0@, f.1@), stamp@));
        let d0 = chars_of(dir);
        let mut d = chars_of(dir);
        if !(d.len() > 0 && d[d.len() - 1] == '/') {
            d.push('/');
        }
        let mut index = DokuIndex::new();
        let mut i: usize = 0;
        proof {
            broadcast use vstd::seq_lib::group_to_multiset_ensures;
            assert(fv.subrange(0, 0) =~= Seq::<(Seq<char>, Seq<char>, Seq<char>)>::empty());
            assert(index@.to_multiset() =~= fv.subrange(0, 0).to_multiset());
        }
        while i < files.len()
            invariant
                i <= files@.len(),
                fv == files@.map_values(|f: (String, String)| file_entry(dir@, (f.0@, f.1@), stamp@)),
                d0@ == dir@,
                d@ == (if dir@.len() > 0 && dir@.last() == '/' {
                    dir@
                } else {
                    dir@ + seq!['/']
                }),
                sorted_by_path(index@),
                index@.to_multiset() == fv.subrange(0, i as int).to_multiset(),
            decreases files@.len() - i,
        {
            let p = chars_of(files[i].0.as_str());
            let rel = if d0.len() > 0 && has_prefix(&p, &d) {
                slice_of(&p, d.len(), p.len())
            } else {
                slice_of(&p, 0, p.len())
            };
            assert(p@.subrange(0, p@.len() as int) =~= p@);
            let entry = DokuEntry::new(
                string_of(rel.as_slice()),
                DokuIndex::create_summary(files[i].1.as_str()),
                stamp.to_string(),
            );
            assert(entry@ == fv[i as int]);
            insert_by_path(&mut index.entries, entry);
            i += 1;
            proof {
                broadcast use vstd::seq_lib::group_to_multiset_ensures;
                assert(fv.subrange(0, i as int) =~= fv.subrange(0, i - 1).push(fv[i - 1]));
            }
        }
        assert(fv.subrange(0, i as int) =~= fv);
        index
    }

    /// The bytes of the index file for the markdown files `files` found in
    /// `dir`, written at time `now`: nothing when there are no files.
    pub fn index_file_bytes(dir: &str, files: &Vec<(String, String)>, now: u64) -> (r: Vec<u8>)
        ensures
            files@.len() == 0 ==> r@.len() == 0,
            files@.len() > 0 ==> exists|ix: Seq<(Seq<char>, Seq<char>, Seq<char>)>|
                {
                    &&& sorted_by_path(ix)
                    &&& ix.to_multiset() == files@.map_values(
                        |f: (String, String)| file_entry(dir@, (f.0@, f.1@), timestamp(now as nat)),
                    ).to_multiset()
                    &&& r@ == encode_utf8(index_text(ix, timestamp(now as nat)))
                },
    {
        if files.len() == 0 {
            return Vec::new();
        }
        let stamp = timestamp_of(now);
        let index = DokuIndex::from_files(dir, files, stamp.as_str());
        text_bytes(&index.render_at(now))
    }
}

} // verus!
