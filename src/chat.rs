use vstd::prelude::*;
use crate::text::{
    lines, trim, trims, starts_with, ends_with, strip_trailing, join_lines, block_end,
    lemma_block_end, views, chars_of, string_of, split_lines, trimmed, has_prefix, has_suffix,
    without_trailing, join_range, find_block_end, append_chars,
};

verus! {

/// The line that closes a chat message.
pub open spec fn separator() -> Seq<char> {
    "------"@
}

/// The messages read from the lines `ls`, from line `i` on. A message is a
/// `persona:` line and the lines up to the next separator; text with no
/// persona line is a message of `User`. Empty messages are left out.
pub open spec fn chat_from(ls: Seq<Seq<char>>, i: int) -> Seq<(Seq<char>, Seq<char>)>
    decreases ls.len() - i,
{
    if i < 0 || i >= ls.len() {
        seq![]
    } else {
        let t = trim(ls[i]);
        if t.len() == 0 || starts_with(t, separator()) {
            chat_from(ls, i + 1)
        } else {
            let j = block_end(ls, i + 1, separator());
            proof {
                lemma_block_end(ls, i + 1, separator());
            }
            let next = if j < ls.len() {
                j + 1
            } else {
                j
            };
            let m = if ends_with(t, seq![':']) {
                (strip_trailing(t, ':'), trim(join_lines(ls.subrange(i + 1, j))))
            } else {
                ("User"@, trim(join_lines(seq![t] + trims(ls.subrange(i + 1, j)))))
            };
            (if m.1.len() > 0 {
                seq![m]
            } else {
                seq![]
            }) + chat_from(ls, next)
        }
    }
}

/// The text of the messages `ms`, each closed by a separator line.
pub open spec fn chat_text(ms: Seq<(Seq<char>, Seq<char>)>) -> Seq<char>
    decreases ms.len(),
{
    if ms.len() == 0 {
        seq![]
    } else {
        chat_text(ms.drop_last()) + ms.last().0 + ":\n"@ + ms.last().1 + "\n------\n"@
    }
}

/// One message of one persona.
#[derive(Debug, Clone, PartialEq)]
pub struct Message {
    pub persona: String,
    pub content: String,
}

impl View for Message {
    type V = (Seq<char>, Seq<char>);

    open spec fn view(&self) -> (Seq<char>, Seq<char>) {
        (self.persona@, self.content@)
    }
}

impl Message {
    pub fn new(persona: String, content: String) -> (r: Message)
        ensures
            r.persona == persona,
            r.content == content,
    {
        Message { persona, content }
    }
}

/// A chat: its messages in order.
#[derive(Debug, Clone, PartialEq)]
pub struct Chat {
    pub messages: Vec<Message>,
}

impl View for Chat {
    type V = Seq<(Seq<char>, Seq<char>)>;

    open spec fn view(&self) -> Seq<(Seq<char>, Seq<char>)> {
        self.messages@.map_values(|m: Message| m@)
    }
}

impl Chat {
    /// A chat with no message.
    pub fn new() -> (r: Chat)
        ensures
            r@ == Seq::<(Seq<char>, Seq<char>)>::empty(),
    {
        let r = Chat { messages: Vec::new() };
        assert(r@ =~= Seq::<(Seq<char>, Seq<char>)>::empty());
        r
    }

    /// Adds a message at the end.
    pub fn add_message(&mut self, persona: String, content: String)
        ensures
            final(self)@ == old(self)@.push((persona@, content@)),
    {
        self.messages.push(Message::new(persona, content));
        assert(self@ =~= old(self)@.push((persona@, content@)));
    }

    /// Reads a chat from its text.
    pub fn parse(content: &str) -> (r: Chat)
        ensures
            r@ == chat_from(lines(content@), 0),
    {
        let v = chars_of(content);
        let ls = split_lines(&v);
        let ghost l = views(ls@);
        let sep = chars_of("------");
        let mut colon: Vec<char> = Vec::new();
        colon.push(':');
        assert(colon@ =~= seq![':']);
        let mut chat = Chat::new();
        let n = ls.len();
        let mut i: usize = 0;
        assert(chat@ + chat_from(l, 0) =~= chat_from(l, 0));
        while i < n
            invariant
                n == ls@.len() == l.len(),
                l == views(ls@),
                l == lines(content@),
                sep@ == separator(),
                colon@ == seq![':'],
                i <= n,
                chat@ + chat_from(l, i as int) == chat_from(l, 0),
            decreases n - i,
        {
            let t = trimmed(&ls[i]);
            if t.len() == 0 || has_prefix(&t, &sep) {
                i += 1;
                continue;
            }
            let start = i;
            let j = find_block_end(&ls, i + 1, &sep);
            proof {
                lemma_block_end(l, i + 1, separator());
            }
            let ghost before = chat@;
            let persona;
            let body;
            if has_suffix(&t, &colon) {
                persona = without_trailing(&t, ':');
                body = trimmed(&join_range(&ls, i + 1, j));
            } else {
                persona = chars_of("User");
                let mut parts: Vec<Vec<char>> = Vec::new();
                parts.push(t);
                let mut k: usize = i + 1;
                assert(l.subrange(i + 1, k as int) =~= Seq::<Seq<char>>::empty());
                assert(views(parts@) =~= seq![t@] + trims(l.subrange(i + 1, k as int)));
                while k < j
                    invariant
                        i + 1 <= k <= j <= n,
                        n == ls@.len() == l.len(),
                        l == views(ls@),
                        views(parts@) == seq![t@] + trims(l.subrange(i + 1, k as int)),
                    decreases j - k,
                {
                    let ghost pv = views(parts@);
                    let tk = trimmed(&ls[k]);
                    assert(tk@ == trim(l[k as int]));
                    parts.push(tk);
                    assert(views(parts@) =~= pv.push(tk@));
                    k += 1;
                    assert(trims(l.subrange(i + 1, k as int)) =~= trims(l.subrange(i + 1, k - 1)).push(
                        trim(l[k - 1]),
                    ));
                    assert(views(parts@) =~= seq![t@] + trims(l.subrange(i + 1, k as int)));
                }
                assert(views(parts@).subrange(0, parts@.len() as int) =~= views(parts@));
                body = trimmed(&join_range(&parts, 0, parts.len()));
            }
            if body.len() > 0 {
                chat.add_message(string_of(persona.as_slice()), string_of(body.as_slice()));
            }
            i = if j < n {
                j + 1
            } else {
                j
            };
            assert(chat@ + chat_from(l, i as int) =~= before + chat_from(l, start as int));
        }
        chat
    }

    /// The text of this chat.
    pub fn render(&self) -> (r: String)
        ensures
            r@ == chat_text(self@),
    {
        let mut out: Vec<char> = Vec::new();
        let mut i: usize = 0;
        let a = chars_of(":\n");
        let b = chars_of("\n------\n");
        assert(self@.subrange(0, 0) =~= Seq::<(Seq<char>, Seq<char>)>::empty());
        while i < self.messages.len()
            invariant
                i <= self@.len(),
                a@ == ":\n"@,
                b@ == "\n------\n"@,
                out@ == chat_text(self@.subrange(0, i as int)),
            decreases self@.len() - i,
        {
            let m = &self.messages[i];
            append_chars(&mut out, &chars_of(m.persona.as_str()));
            append_chars(&mut out, &a);
            append_chars(&mut out, &chars_of(m.content.as_str()));
            append_chars(&mut out, &b);
            i += 1;
            assert(self@.subrange(0, i as int).drop_last() =~= self@.subrange(0, i - 1));
        }
        assert(self@.subrange(0, i as int) =~= self@);
        string_of(out.as_slice())
    }
}

} // verus!
