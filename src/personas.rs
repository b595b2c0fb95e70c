use vstd::prelude::*;
use crate::chat::separator;
use crate::text::{
    lines, trim, ends_with, strip_trailing, join_lines, block_end, lemma_block_end, views,
    chars_of, string_of, split_lines, trimmed, has_suffix, without_trailing, join_range,
    find_block_end, append_chars,
};

verus! {

/// The persona blocks read from the lines `ls`, from line `i` on: a line
/// that ends with `:` names the persona, and the lines up to the next
/// separator hold its text. Blocks with empty text are left out.
pub open spec fn personas_from(ls: Seq<Seq<char>>, i: int) -> Seq<(Seq<char>, Seq<char>)>
    decreases ls.len() - i,
{
    if i < 0 || i >= ls.len() {
        seq![]
    } else if ends_with(ls[i], seq![':']) && trim(ls[i]).len() > 0 {
        let j = block_end(ls, i + 1, separator());
        proof {
            lemma_block_end(ls, i + 1, separator());
        }
        let next = if j < ls.len() {
            j + 1
        } else {
            j
        };
        let text = trim(join_lines(ls.subrange(i + 1, j)));
        (if text.len() > 0 {
            seq![(strip_trailing(ls[i], ':'), text)]
        } else {
            seq![]
        }) + personas_from(ls, next)
    } else {
        personas_from(ls, i + 1)
    }
}

/// The blocks `ps`, each `persona:` and its text, with separator lines
/// between them.
pub open spec fn persona_blocks(ps: Seq<(Seq<char>, Seq<char>)>) -> Seq<char>
    decreases ps.len(),
{
    if ps.len() == 0 {
        seq![]
    } else if ps.len() == 1 {
        ps[0].0 + ":\n"@ + ps[0].1
    } else {
        persona_blocks(ps.drop_last()) + "\n------\n"@ + ps.last().0 + ":\n"@ + ps.last().1
    }
}

pub open spec fn pair_views(ps: Seq<(String, String)>) -> Seq<(Seq<char>, Seq<char>)> {
    ps.map_values(|p: (String, String)| (p.0@, p.1@))
}

/// Reads the persona blocks of `content`.
pub fn parse_personas(content: &str) -> (r: Vec<(String, String)>)
    ensures
        pair_views(r@) == personas_from(lines(content@), 0),
{
    let v = chars_of(content);
    let ls = split_lines(&v);
    let ghost l = views(ls@);
    let sep = chars_of("------");
    let mut colon: Vec<char> = Vec::new();
    colon.push(':');
    assert(colon@ =~= seq![':']);
    let mut out: Vec<(String, String)> = Vec::new();
    let n = ls.len();
    let mut i: usize = 0;
    assert(pair_views(out@) + personas_from(l, 0) =~= personas_from(l, 0));
    while i < n
        invariant
            n == ls@.len() == l.len(),
            l == views(ls@),
            l == lines(content@),
            sep@ == separator(),
            colon@ == seq![':'],
            i <= n,
            pair_views(out@) + personas_from(l, i as int) == personas_from(l, 0),
        decreases n - i,
    {
        let start = i;
        let ghost before = pair_views(out@);
        if has_suffix(&ls[i], &colon) && trimmed(&ls[i]).len() > 0 {
            let j = find_block_end(&ls, i + 1, &sep);
            proof {
                lemma_block_end(l, i + 1, separator());
            }
            let text = trimmed(&join_range(&ls, i + 1, j));
            if text.len() > 0 {
                let persona = without_trailing(&ls[i], ':');
                out.push((string_of(persona.as_slice()), string_of(text.as_slice())));
                assert(pair_views(out@) =~= before.push((persona@, text@)));
            }
            i = if j < n {
                j + 1
            } else {
                j
            };
        } else {
            i += 1;
        }
        assert(pair_views(out@) + personas_from(l, i as int) =~= before + personas_from(l, start as int));
    }
    out
}

/// The text of the persona blocks `personas`, ending with a line feed.
pub fn render_personas(personas: &[(String, String)]) -> (r: String)
    ensures
        r@ == persona_blocks(pair_views(personas@)) + "\n"@,
{
    let ghost ps = pair_views(personas@);
    let mut out: Vec<char> = Vec::new();
    let a = chars_of(":\n");
    let b = chars_of("\n------\n");
    let mut i: usize = 0;
    assert(ps.subrange(0, 0) =~= Seq::<(Seq<char>, Seq<char>)>::empty());
    while i < personas.len()
        invariant
            i <= ps.len(),
            ps == pair_views(personas@),
            a@ == ":\n"@,
            b@ == "\n------\n"@,
            out@ == persona_blocks(ps.subrange(0, i as int)),
        decreases ps.len() - i,
    {
        if i > 0 {
            append_chars(&mut out, &b);
        }
        append_chars(&mut out, &chars_of(personas[i].0.as_str()));
        append_chars(&mut out, &a);
        append_chars(&mut out, &chars_of(personas[i].1.as_str()));
        i += 1;
        assert(ps.subrange(0, i as int).drop_last() =~= ps.subrange(0, i - 1));
        if i == 1 {
            assert(out@ =~= persona_blocks(ps.subrange(0, i as int)));
        }
    }
    assert(ps.subrange(0, i as int) =~= ps);
    append_chars(&mut out, &chars_of("\n"));
    string_of(out.as_slice())
}

} // verus!
