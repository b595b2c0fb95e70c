use vstd::prelude::*;

verus! {

/// A Unicode white-space character (the `White_Space` property).
pub open spec fn is_ws(c: char) -> bool {
    ||| c == ' '
    ||| c == '\t'
    ||| c == '\n'
    ||| c == '\x0B'
    ||| c == '\x0C'
    ||| c == '\r'
    ||| c == '\u{85}'
    ||| c == '\u{A0}'
    ||| c == '\u{1680}'
    ||| (0x2000 <= (c as u32) <= 0x200A)
    ||| c == '\u{2028}'
    ||| c == '\u{2029}'
    ||| c == '\u{202F}'
    ||| c == '\u{205F}'
    ||| c == '\u{3000}'
}

/// `s` without its leading white space.
pub open spec fn trim_start(s: Seq<char>) -> Seq<char>
    decreases s.len(),
{
    if s.len() > 0 && is_ws(s[0]) {
        trim_start(s.drop_first())
    } else {
        s
    }
}

/// `s` without its trailing white space.
pub open spec fn trim_end(s: Seq<char>) -> Seq<char>
    decreases s.len(),
{
    if s.len() > 0 && is_ws(s.last()) {
        trim_end(s.drop_last())
    } else {
        s
    }
}

/// `s` without white space at either end.
pub open spec fn trim(s: Seq<char>) -> Seq<char> {
    trim_end(trim_start(s))
}

/// `s` without every trailing copy of `c`.
pub open spec fn strip_trailing(s: Seq<char>, c: char) -> Seq<char>
    decreases s.len(),
{
    if s.len() > 0 && s.last() == c {
        strip_trailing(s.drop_last(), c)
    } else {
        s
    }
}

pub open spec fn starts_with(s: Seq<char>, p: Seq<char>) -> bool {
    p.len() <= s.len() && s.subrange(0, p.len() as int) == p
}

pub open spec fn ends_with(s: Seq<char>, p: Seq<char>) -> bool {
    p.len() <= s.len() && s.subrange(s.len() - p.len(), s.len() as int) == p
}

/// `p` occurs in `s` at position `i`.
pub open spec fn occurs_at(s: Seq<char>, p: Seq<char>, i: int) -> bool {
    0 <= i && i + p.len() <= s.len() && s.subrange(i, i + p.len()) == p
}

pub open spec fn contains(s: Seq<char>, p: Seq<char>) -> bool {
    exists|i: int| occurs_at(s, p, i)
}

/// Index of the first line feed of `s`, or its length when it has none.
pub open spec fn newline_index(s: Seq<char>) -> int
    decreases s.len(),
{
    if s.len() == 0 {
        0
    } else if s[0] == '\n' {
        0
    } else {
        1 + newline_index(s.drop_first())
    }
}

/// `l` without one final carriage return.
pub open spec fn strip_cr(l: Seq<char>) -> Seq<char> {
    if l.len() > 0 && l.last() == '\r' {
        l.drop_last()
    } else {
        l
    }
}

/// The lines of `s`: split at each line feed, a carriage return before the
/// line feed dropped, and no empty line after a final line feed.
pub open spec fn lines(s: Seq<char>) -> Seq<Seq<char>>
    decreases s.len(),
{
    if s.len() == 0 {
        seq![]
    } else {
        let k = newline_index(s);
        if k < 0 || k >= s.len() {
            seq![s]
        } else {
            seq![strip_cr(s.subrange(0, k))] + lines(s.subrange(k + 1, s.len() as int))
        }
    }
}

/// The lines `ls` joined with a line feed between two of them.
pub open spec fn join_lines(ls: Seq<Seq<char>>) -> Seq<char>
    decreases ls.len(),
{
    if ls.len() == 0 {
        seq![]
    } else if ls.len() == 1 {
        ls[0]
    } else {
        join_lines(ls.drop_last()) + seq!['\n'] + ls.last()
    }
}

/// The views of a sequence of character vectors.
pub open spec fn views(ls: Seq<Vec<char>>) -> Seq<Seq<char>> {
    ls.map_values(|l: Vec<char>| l@)
}

/// Relies on `String::push`: the character is appended at the end.
#[verifier::external_body]
pub(crate) fn push_char(s: &mut String, c: char)
    ensures
        final(s)@ == old(s)@.push(c),
{
    s.push(c)
}

/// The characters of `s`, in order.
pub fn chars_of(s: &str) -> (r: Vec<char>)
    ensures
        r@ == s@,
{
    let mut r: Vec<char> = Vec::new();
    for c in it: s.chars()
        invariant
            r@ == it.seq().subrange(0, it.index() as int),
    {
        r.push(c);
    }
    r
}

/// The string made of the characters of `v`.
pub fn string_of(v: &[char]) -> (r: String)
    ensures
        r@ == v@,
{
    let mut r = String::new();
    let mut i: usize = 0;
    while i < v.len()
        invariant
            i <= v@.len(),
            r@ == v@.subrange(0, i as int),
        decreases v@.len() - i,
    {
        push_char(&mut r, v[i]);
        i += 1;
        assert(r@ =~= v@.subrange(0, i as int));
    }
    assert(r@ =~= v@);
    r
}

/// Whether `c` is white space.
pub fn is_space(c: char) -> (r: bool)
    ensures
        r == is_ws(c),
{
    let u = c as u32;
    c == ' ' || c == '\t' || c == '\n' || c == '\x0B' || c == '\x0C' || c == '\r' || c
        == '\u{85}' || c == '\u{A0}' || c == '\u{1680}' || (0x2000 <= u && u <= 0x200A) || c
        == '\u{2028}' || c == '\u{2029}' || c == '\u{202F}' || c == '\u{205F}' || c == '\u{3000}'
}

/// The characters of `v` from `i` up to `j`.
pub fn slice_of(v: &Vec<char>, i: usize, j: usize) -> (r: Vec<char>)
    requires
        i <= j <= v@.len(),
    ensures
        r@ == v@.subrange(i as int, j as int),
{
    let mut r: Vec<char> = Vec::new();
    let mut k: usize = i;
    while k < j
        invariant
            i <= k <= j <= v@.len(),
            r@ == v@.subrange(i as int, k as int),
        decreases j - k,
    {
        r.push(v[k]);
        k += 1;
        assert(r@ =~= v@.subrange(i as int, k as int));
    }
    r
}

/// Appends the characters of `w` to `v`.
pub fn append_chars(v: &mut Vec<char>, w: &Vec<char>)
    ensures
        final(v)@ == old(v)@ + w@,
{
    let ghost v0 = v@;
    let mut k: usize = 0;
    while k < w.len()
        invariant
            k <= w@.len(),
            v@ == v0 + w@.subrange(0, k as int),
        decreases w@.len() - k,
    {
        v.push(w[k]);
        k += 1;
        assert(v@ =~= v0 + w@.subrange(0, k as int));
    }
    assert(w@.subrange(0, w@.len() as int) =~= w@);
}

proof fn lemma_trim_start_step(s: Seq<char>, i: int)
    requires
        0 <= i < s.len(),
        is_ws(s[i]),
    ensures
        trim_start(s.subrange(i, s.len() as int)) == trim_start(s.subrange(i + 1, s.len() as int)),
{
    let t = s.subrange(i, s.len() as int);
    assert(t.drop_first() =~= s.subrange(i + 1, s.len() as int));
}

proof fn lemma_trim_end_step(s: Seq<char>, i: int, j: int)
    requires
        0 <= i < j <= s.len(),
        is_ws(s[j - 1]),
    ensures
        trim_end(s.subrange(i, j)) == trim_end(s.subrange(i, j - 1)),
{
    let t = s.subrange(i, j);
    assert(t.drop_last() =~= s.subrange(i, j - 1));
}

/// `v` without white space at either end.
pub fn trimmed(v: &Vec<char>) -> (r: Vec<char>)
    ensures
        r@ == trim(v@),
{
    let n = v.len();
    let mut i: usize = 0;
    assert(v@.subrange(0, n as int) =~= v@);
    while i < n && is_space(v[i])
        invariant
            i <= n == v@.len(),
            trim_start(v@) == trim_start(v@.subrange(i as int, n as int)),
        decreases n - i,
    {
        proof {
            lemma_trim_start_step(v@, i as int);
        }
        i += 1;
    }
    assert(trim_start(v@) == v@.subrange(i as int, n as int));
    let mut j: usize = n;
    while j > i && is_space(v[j - 1])
        invariant
            i <= j <= n == v@.len(),
            trim(v@) == trim_end(v@.subrange(i as int, j as int)),
        decreases j,
    {
        proof {
            lemma_trim_end_step(v@, i as int, j as int);
        }
        j -= 1;
    }
    slice_of(v, i, j)
}

/// Whether `v` begins with `p`.
pub fn has_prefix(v: &Vec<char>, p: &Vec<char>) -> (r: bool)
    ensures
        r == starts_with(v@, p@),
{
    if p.len() > v.len() {
        return false;
    }
    let mut k: usize = 0;
    while k < p.len()
        invariant
            p@.len() <= v@.len(),
            k <= p@.len(),
            forall|m: int| 0 <= m < k ==> v@[m] == p@[m],
        decreases p@.len() - k,
    {
        if v[k] != p[k] {
            assert(v@.subrange(0, p@.len() as int)[k as int] != p@[k as int]);
            return false;
        }
        k += 1;
    }
    assert(v@.subrange(0, p@.len() as int) =~= p@);
    true
}

/// Whether `p` occurs in `v` at position `i`.
pub fn occurs_at_exec(v: &Vec<char>, p: &Vec<char>, i: usize) -> (r: bool)
    ensures
        r == occurs_at(v@, p@, i as int),
{
    if i > v.len() || p.len() > v.len() - i {
        return false;
    }
    let n = v.len();
    let mut k: usize = 0;
    while k < p.len()
        invariant
            n == v@.len(),
            i + p@.len() <= v@.len(),
            k <= p@.len(),
            forall|m: int| 0 <= m < k ==> v@[i + m] == p@[m],
        decreases p@.len() - k,
    {
        if v[i + k] != p[k] {
            assert(v@.subrange(i as int, i + p@.len())[k as int] != p@[k as int]);
            return false;
        }
        k += 1;
    }
    assert(v@.subrange(i as int, i + p@.len()) =~= p@);
    true
}

/// Whether `v` ends with `p`.
pub fn has_suffix(v: &Vec<char>, p: &Vec<char>) -> (r: bool)
    ensures
        r == ends_with(v@, p@),
{
    if p.len() > v.len() {
        return false;
    }
    occurs_at_exec(v, p, v.len() - p.len())
}

/// Whether `p` occurs anywhere in `v`.
pub fn has_infix(v: &Vec<char>, p: &Vec<char>) -> (r: bool)
    ensures
        r == contains(v@, p@),
{
    if p.len() == 0 {
        assert(v@.subrange(0, 0) =~= p@);
        assert(occurs_at(v@, p@, 0));
        return true;
    }
    if p.len() > v.len() {
        assert forall|m: int| !occurs_at(v@, p@, m) by {}
        return false;
    }
    let n = v.len();
    let last = n - p.len();
    let mut i: usize = 0;
    while i <= last
        invariant
            n == v@.len(),
            last + p@.len() == v@.len(),
            p@.len() >= 1,
            forall|m: int| 0 <= m < i ==> !occurs_at(v@, p@, m),
        decreases last + 1 - i,
    {
        if occurs_at_exec(v, p, i) {
            return true;
        }
        i += 1;
    }
    assert forall|m: int| !occurs_at(v@, p@, m) by {
        if 0 <= m && m < i {
        }
    }
    false
}

/// `v` without every trailing copy of `c`.
pub fn without_trailing(v: &Vec<char>, c: char) -> (r: Vec<char>)
    ensures
        r@ == strip_trailing(v@, c),
{
    let mut j: usize = v.len();
    assert(v@.subrange(0, j as int) =~= v@);
    while j > 0 && v[j - 1] == c
        invariant
            j <= v@.len(),
            strip_trailing(v@, c) == strip_trailing(v@.subrange(0, j as int), c),
        decreases j,
    {
        assert(v@.subrange(0, j as int).drop_last() =~= v@.subrange(0, j - 1));
        j -= 1;
    }
    slice_of(v, 0, j)
}

proof fn lemma_newline_index(s: Seq<char>, k: int)
    requires
        0 <= k <= s.len(),
        forall|j: int| 0 <= j < k ==> s[j] != '\n',
        k == s.len() || s[k] == '\n',
    ensures
        newline_index(s) == k,
    decreases k,
{
    if k > 0 {
        let t = s.drop_first();
        assert forall|j: int| 0 <= j < k - 1 implies t[j] != '\n' by {
            assert(t[j] == s[j + 1]);
        }
        if k - 1 < t.len() {
            assert(t[k - 1] == s[k]);
        }
        lemma_newline_index(t, k - 1);
    }
}

/// `cur` without one final carriage return.
fn without_cr(cur: Vec<char>) -> (r: Vec<char>)
    ensures
        r@ == strip_cr(cur@),
{
    let mut c = cur;
    if c.len() > 0 && c[c.len() - 1] == '\r' {
        c.pop();
    }
    c
}

/// The lines of `v`.
pub fn split_lines(v: &Vec<char>) -> (r: Vec<Vec<char>>)
    ensures
        views(r@) == lines(v@),
{
    let n = v.len();
    let mut out: Vec<Vec<char>> = Vec::new();
    let mut cur: Vec<char> = Vec::new();
    let mut start: usize = 0;
    let mut i: usize = 0;
    assert(v@.subrange(0, n as int) =~= v@);
    while i < n
        invariant
            n == v@.len(),
            start <= i <= n,
            views(out@) + lines(v@.subrange(start as int, n as int)) == lines(v@),
            cur@ == v@.subrange(start as int, i as int),
            forall|j: int| start <= j < i ==> v@[j] != '\n',
        decreases n - i,
    {
        if v[i] == '\n' {
            let ghost s = v@.subrange(start as int, n as int);
            proof {
                lemma_newline_index(s, i - start);
                assert(s.subrange(0, i - start) =~= cur@);
                assert(s.subrange(i - start + 1, s.len() as int) =~= v@.subrange(i + 1, n as int));
            }
            let line = without_cr(cur);
            let ghost before = views(out@);
            out.push(line);
            proof {
                assert(views(out@) =~= before.push(strip_cr(s.subrange(0, i - start))));
                assert(views(out@) + lines(v@.subrange(i + 1, n as int)) =~= before + lines(s));
            }
            cur = Vec::new();
            start = i + 1;
            i += 1;
            assert(cur@ =~= v@.subrange(start as int, i as int));
        } else {
            cur.push(v[i]);
            i += 1;
            assert(cur@ =~= v@.subrange(start as int, i as int));
        }
    }
    let ghost s = v@.subrange(start as int, n as int);
    if cur.len() > 0 {
        proof {
            lemma_newline_index(s, s.len() as int);
        }
        let ghost before = views(out@);
        out.push(cur);
        proof {
            assert(views(out@) =~= before.push(s));
            assert(views(out@) =~= before + lines(s));
        }
    } else {
        assert(views(out@) =~= views(out@) + lines(s));
    }
    out
}

/// The lines `ls[from..to]` joined with line feeds.
pub fn join_range(ls: &Vec<Vec<char>>, from: usize, to: usize) -> (r: Vec<char>)
    requires
        from <= to <= ls@.len(),
    ensures
        r@ == join_lines(views(ls@).subrange(from as int, to as int)),
{
    let mut r: Vec<char> = Vec::new();
    let mut i: usize = from;
    assert(views(ls@).subrange(from as int, from as int) =~= Seq::<Seq<char>>::empty());
    while i < to
        invariant
            from <= i <= to <= ls@.len(),
            r@ == join_lines(views(ls@).subrange(from as int, i as int)),
        decreases to - i,
    {
        let ghost w = views(ls@).subrange(from as int, i + 1);
        assert(w.drop_last() =~= views(ls@).subrange(from as int, i as int));
        assert(w.last() == ls@[i as int]@);
        if i > from {
            r.push('\n');
        } else {
            assert(r@ =~= Seq::<char>::empty());
        }
        append_chars(&mut r, &ls[i]);
        i += 1;
        proof {
            if i - 1 > from {
                assert(r@ =~= join_lines(w.drop_last()) + seq!['\n'] + w.last());
            } else {
                assert(r@ =~= w[0]);
            }
        }
    }
    r
}

/// The first index from `i` on whose trimmed line begins with `m`, or the
/// number of lines when there is none.
pub open spec fn block_end(ls: Seq<Seq<char>>, i: int, m: Seq<char>) -> int
    decreases ls.len() - i,
{
    if i < 0 || i >= ls.len() {
        ls.len() as int
    } else if starts_with(trim(ls[i]), m) {
        i
    } else {
        block_end(ls, i + 1, m)
    }
}

pub proof fn lemma_block_end(ls: Seq<Seq<char>>, i: int, m: Seq<char>)
    requires
        0 <= i <= ls.len(),
    ensures
        i <= block_end(ls, i, m) <= ls.len(),
        forall|j: int| i <= j < block_end(ls, i, m) ==> !starts_with(trim(#[trigger] ls[j]), m),
        block_end(ls, i, m) < ls.len() ==> starts_with(trim(ls[block_end(ls, i, m)]), m),
    decreases ls.len() - i,
{
    if i < ls.len() && !starts_with(trim(ls[i]), m) {
        lemma_block_end(ls, i + 1, m);
    }
}

/// The trimmed form of each line.
pub open spec fn trims(ls: Seq<Seq<char>>) -> Seq<Seq<char>> {
    ls.map_values(|l: Seq<char>| trim(l))
}

/// The first index from `i` on whose trimmed line begins with `m`.
pub fn find_block_end(ls: &Vec<Vec<char>>, i: usize, m: &Vec<char>) -> (r: usize)
    requires
        i <= ls@.len(),
    ensures
        r == block_end(views(ls@), i as int, m@),
{
    let mut j: usize = i;
    while j < ls.len()
        invariant
            i <= j <= ls@.len(),
            block_end(views(ls@), i as int, m@) == block_end(views(ls@), j as int, m@),
        decreases ls@.len() - j,
    {
        let t = trimmed(&ls[j]);
        if has_prefix(&t, m) {
            return j;
        }
        j += 1;
    }
    j
}

/// Index of the first `c` in `s`, or `s.len()` when there is none.
pub open spec fn index_of(s: Seq<char>, c: char) -> int
    decreases s.len(),
{
    if s.len() == 0 {
        0
    } else {
        let k = index_of(s.drop_last(), c);
        if k < s.len() - 1 {
            k
        } else if s.last() == c {
            s.len() - 1
        } else {
            s.len() as int
        }
    }
}

pub proof fn lemma_index_of(s: Seq<char>, c: char)
    ensures
        0 <= index_of(s, c) <= s.len(),
        forall|j: int| 0 <= j < index_of(s, c) ==> s[j] != c,
        index_of(s, c) < s.len() ==> s[index_of(s, c)] == c,
    decreases s.len(),
{
    if s.len() > 0 {
        lemma_index_of(s.drop_last(), c);
        let q = s.drop_last();
        assert forall|j: int| 0 <= j < q.len() implies q[j] == s[j] by {}
    }
}

/// Index of the first `c` in `v`, or its length when there is none.
pub fn find_char(v: &Vec<char>, c: char) -> (r: usize)
    ensures
        r == index_of(v@, c),
{
    proof {
        lemma_index_of(v@, c);
    }
    let mut i: usize = 0;
    while i < v.len()
        invariant
            i <= v@.len(),
            forall|j: int| 0 <= j < i ==> v@[j] != c,
            0 <= index_of(v@, c) <= v@.len(),
            forall|j: int| 0 <= j < index_of(v@, c) ==> v@[j] != c,
            index_of(v@, c) < v@.len() ==> v@[index_of(v@, c)] == c,
        decreases v@.len() - i,
    {
        if v[i] == c {
            return i;
        }
        i += 1;
    }
    i
}

} // verus!
