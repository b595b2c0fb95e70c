use vstd::prelude::*;
use crate::text::{has_prefix, has_infix, slice_of, append_chars, starts_with, contains};

verus! {

/// Index of the last `/` of `p`, or -1 when it has none.
pub open spec fn last_slash(p: Seq<char>) -> int
    decreases p.len(),
{
    if p.len() == 0 {
        -1
    } else if p.last() == '/' {
        p.len() - 1
    } else {
        last_slash(p.drop_last())
    }
}

pub proof fn lemma_last_slash(p: Seq<char>)
    ensures
        -1 <= last_slash(p) < p.len(),
        last_slash(p) >= 0 ==> p[last_slash(p)] == '/',
        forall|j: int| last_slash(p) < j < p.len() ==> p[j] != '/',
    decreases p.len(),
{
    if p.len() > 0 && p.last() != '/' {
        lemma_last_slash(p.drop_last());
        assert forall|j: int| last_slash(p) < j < p.len() implies p[j] != '/' by {
            if j < p.len() - 1 {
                assert(p.drop_last()[j] == p[j]);
            }
        }
    }
}

/// The last component of `p`: what follows its last `/`, unless that is
/// empty, `.` or `..`.
pub open spec fn file_name(p: Seq<char>) -> Option<Seq<char>> {
    let n = p.subrange(last_slash(p) + 1, p.len() as int);
    if n.len() == 0 || n == seq!['.'] || n == seq!['.', '.'] {
        None
    } else {
        Some(n)
    }
}

/// The directory that holds `p`: what precedes its last `/` (the root for a
/// path right under it, the empty path for a bare name); none for the empty
/// path and for the root.
pub open spec fn parent(p: Seq<char>) -> Option<Seq<char>> {
    let i = last_slash(p);
    if p.len() == 0 || p == seq!['/'] {
        None
    } else if i < 0 {
        Some(Seq::<char>::empty())
    } else if i == 0 {
        Some(seq!['/'])
    } else {
        Some(p.subrange(0, i))
    }
}

/// `name` inside the directory `dir`.
pub open spec fn join(dir: Seq<char>, name: Seq<char>) -> Seq<char> {
    if dir.len() == 0 {
        name
    } else if dir.last() == '/' {
        dir + name
    } else {
        dir + seq!['/'] + name
    }
}

/// `p` lies below the directory `root`. An absolute root must begin the
/// path; a relative one may begin it or follow any `/` in it.
pub open spec fn under_root(root: Seq<char>, p: Seq<char>) -> bool {
    let r = root + seq!['/'];
    if root.len() > 0 && root[0] == '/' {
        starts_with(p, r)
    } else {
        starts_with(p, r) || contains(p, seq!['/'] + r)
    }
}

/// The last component of `p` exists and ends with `suffix`.
pub open spec fn name_ends_with(p: Seq<char>, suffix: Seq<char>) -> bool {
    match file_name(p) {
        Some(n) => crate::text::ends_with(n, suffix),
        None => false,
    }
}

/// Index just after the last `/` of `v` (0 when it has none).
fn after_last_slash(v: &Vec<char>) -> (r: usize)
    ensures
        r == last_slash(v@) + 1,
{
    let mut j: usize = v.len();
    assert(v@.subrange(0, j as int) =~= v@);
    while j > 0 && v[j - 1] != '/'
        invariant
            j <= v@.len(),
            last_slash(v@) == last_slash(v@.subrange(0, j as int)),
        decreases j,
    {
        assert(v@.subrange(0, j as int).drop_last() =~= v@.subrange(0, j - 1));
        j -= 1;
    }
    j
}

/// The last component of `v`, as `file_name` gives it.
pub fn file_name_of(v: &Vec<char>) -> (r: Option<Vec<char>>)
    ensures
        match r {
            None => file_name(v@) is None,
            Some(n) => file_name(v@) == Some(n@),
        },
{
    proof {
        lemma_last_slash(v@);
    }
    let i = after_last_slash(v);
    let n = slice_of(v, i, v.len());
    if n.len() == 0 {
        return None;
    }
    if n.len() == 1 && n[0] == '.' {
        assert(n@ =~= seq!['.']);
        return None;
    }
    if n.len() == 2 && n[0] == '.' && n[1] == '.' {
        assert(n@ =~= seq!['.', '.']);
        return None;
    }
    assert(n@ != seq!['.']) by {
        if n@.len() == 1 {
            assert(n@[0] != seq!['.'][0]);
        }
    }
    assert(n@ != seq!['.', '.']) by {
        if n@.len() == 2 {
            assert(n@[0] != '.' || n@[1] != '.');
        }
    }
    Some(n)
}

/// The directory that holds `v`, as `parent` gives it.
pub fn parent_of(v: &Vec<char>) -> (r: Option<Vec<char>>)
    ensures
        match r {
            None => parent(v@) is None,
            Some(d) => parent(v@) == Some(d@),
        },
{
    if v.len() == 0 {
        return None;
    }
    if v.len() == 1 && v[0] == '/' {
        assert(v@ =~= seq!['/']);
        return None;
    }
    assert(v@ != seq!['/']) by {
        if v@.len() == 1 {
            assert(v@[0] != seq!['/'][0]);
        }
    }
    proof {
        lemma_last_slash(v@);
    }
    let i = after_last_slash(v);
    if i == 0 {
        let e: Vec<char> = Vec::new();
        assert(e@ =~= Seq::<char>::empty());
        Some(e)
    } else if i == 1 {
        let mut d: Vec<char> = Vec::new();
        d.push('/');
        assert(d@ =~= seq!['/']);
        Some(d)
    } else {
        Some(slice_of(v, 0, i - 1))
    }
}

/// `name` inside the directory `dir`, as `join` gives it.
pub fn join_path(dir: &Vec<char>, name: &Vec<char>) -> (r: Vec<char>)
    ensures
        r@ == join(dir@, name@),
{
    let mut r = slice_of(dir, 0, dir.len());
    assert(dir@.subrange(0, dir@.len() as int) =~= dir@);
    if dir.len() > 0 && dir[dir.len() - 1] != '/' {
        r.push('/');
    }
    append_chars(&mut r, name);
    r
}

/// Whether `p` lies below `root`, as `under_root` says.
pub fn is_under(root: &Vec<char>, p: &Vec<char>) -> (r: bool)
    ensures
        r == under_root(root@, p@),
{
    let mut r = slice_of(root, 0, root.len());
    assert(root@.subrange(0, root@.len() as int) =~= root@);
    r.push('/');
    assert(r@ =~= root@ + seq!['/']);
    if has_prefix(p, &r) {
        return true;
    }
    if root.len() > 0 && root[0] == '/' {
        return false;
    }
    let mut s: Vec<char> = Vec::new();
    s.push('/');
    append_chars(&mut s, &r);
    assert(s@ =~= seq!['/'] + r@);
    has_infix(p, &s)
}

} // verus!
