use vstd::prelude::*;
use crate::events::FileEvent;
use crate::paths::{
    file_name, parent, join, under_root, name_ends_with, file_name_of, parent_of, join_path,
    is_under,
};
use crate::text::{chars_of, string_of, has_suffix, lines};
use crate::chat::{Chat, chat_from, chat_text};
use crate::commands::{CommandLog, commands_from};
use crate::personas::{parse_personas, render_personas, persona_blocks, personas_from, pair_views};
use crate::todos::{TodoLog, todo_items, todo_text};
use vstd::utf8::{encode_utf8, valid_utf8, decode_utf8};

verus! {

/// The text that `String::from_utf8_lossy` reads from the bytes `b`.
pub uninterp spec fn lossy_text(b: Seq<u8>) -> Seq<char>;

/// Relies on `String::from_utf8_lossy`: the text of the bytes, each
/// invalid sequence replaced; valid UTF-8 is decoded as it stands.
#[verifier::external_body]
pub(crate) fn decode_lossy(b: &[u8]) -> (r: String)
    ensures
        r@ == lossy_text(b@),
        valid_utf8(b@) ==> r@ == decode_utf8(b@),
{
    String::from_utf8_lossy(b).into_owned()
}

/// The UTF-8 bytes of `s`.
pub fn text_bytes(s: &String) -> (r: Vec<u8>)
    ensures
        r@ == encode_utf8(s@),
{
    vstd::slice::slice_to_vec(s.as_str().as_bytes())
}

} // verus!


verus! {

/// What a sync process reacts to, where it writes and how.
#[derive(Debug, Clone)]
pub enum SyncRule {
    /// Copies each file below `source_root` whose name ends with `suffix`
    /// to the same name in `target_root`.
    Mirror { source_root: String, target_root: String, suffix: String },
    /// Copies each file below one root to the same name in the other.
    Bidirectional { left_root: String, right_root: String },
    /// Rewrites `.txt` files as persona blocks, in place.
    Personas,
    /// Rewrites `.chat` files as a chat with one reply added, in place.
    Chat,
    /// Rewrites `.command` files with the output of each command, in place.
    Commands,
    /// Rewrites `.todo` files with open items first, in place.
    Todos,
    /// Writes an `index.doku` beside each changed `.md` file.
    DocIndex,
}

/// The file-name ending that an in-place rule reacts to.
pub open spec fn rule_suffix(rule: SyncRule) -> Seq<char> {
    match rule {
        SyncRule::Mirror { suffix, .. } => suffix@,
        SyncRule::Bidirectional { .. } => Seq::<char>::empty(),
        SyncRule::Personas => ".txt"@,
        SyncRule::Chat => ".chat"@,
        SyncRule::Commands => ".command"@,
        SyncRule::Todos => ".todo"@,
        SyncRule::DocIndex => ".md"@,
    }
}

/// Whether the rule reacts to a change of `path`, whoever made it.
pub open spec fn rule_matches(rule: SyncRule, path: Seq<char>) -> bool {
    match rule {
        SyncRule::Mirror { source_root, .. } => under_root(source_root@, path) && name_ends_with(
            path,
            rule_suffix(rule),
        ),
        SyncRule::Bidirectional { left_root, right_root } => under_root(left_root@, path)
            || under_root(right_root@, path),
        _ => name_ends_with(path, rule_suffix(rule)),
    }
}

/// Where the rule writes for a change of `path`, if anywhere.
pub open spec fn rule_target(rule: SyncRule, path: Seq<char>) -> Option<Seq<char>> {
    match rule {
        SyncRule::Mirror { target_root, .. } => match file_name(path) {
            Some(n) => Some(join(target_root@, n)),
            None => None,
        },
        SyncRule::Bidirectional { left_root, right_root } => match file_name(path) {
            Some(n) => if under_root(left_root@, path) {
                Some(join(right_root@, n))
            } else if under_root(right_root@, path) {
                Some(join(left_root@, n))
            } else {
                None
            },
            None => None,
        },
        SyncRule::DocIndex => match parent(path) {
            Some(d) => Some(join(d, "index.doku"@)),
            None => None,
        },
        _ => Some(path),
    }
}

/// A registered sync process: a unique name and the rule it follows.
#[derive(Debug, Clone)]
pub struct SyncProcess {
    pub name: String,
    pub rule: SyncRule,
}

/// Whether process `p` acts on event `e`: never on a change it made itself.
pub open spec fn passes(p: SyncProcess, e: FileEvent) -> bool {
    e.origin@ != Some(p.name@) && rule_matches(p.rule, e.path@)
}

/// Where process `p` writes for event `e`, if anywhere.
pub open spec fn target_of(p: SyncProcess, e: FileEvent) -> Option<Seq<char>> {
    rule_target(p.rule, e.path@)
}

/// The view of an optional string.
pub open spec fn opt_view(o: Option<String>) -> Option<Seq<char>> {
    match o {
        Some(s) => Some(s@),
        None => None,
    }
}

impl SyncRule {
    fn suffix_chars(&self) -> (r: Vec<char>)
        ensures
            r@ == rule_suffix(*self),
    {
        match self {
            SyncRule::Mirror { suffix, .. } => chars_of(suffix.as_str()),
            SyncRule::Bidirectional { .. } => Vec::new(),
            SyncRule::Personas => chars_of(".txt"),
            SyncRule::Chat => chars_of(".chat"),
            SyncRule::Commands => chars_of(".command"),
            SyncRule::Todos => chars_of(".todo"),
            SyncRule::DocIndex => chars_of(".md"),
        }
    }

    fn name_has_suffix(&self, path: &Vec<char>) -> (r: bool)
        ensures
            r == name_ends_with(path@, rule_suffix(*self)),
    {
        match file_name_of(path) {
            Some(n) => has_suffix(&n, &self.suffix_chars()),
            None => false,
        }
    }

    /// Whether this rule reacts to a change of `path`.
    pub fn matches(&self, path: &str) -> (r: bool)
        ensures
            r == rule_matches(*self, path@),
    {
        let p = chars_of(path);
        match self {
            SyncRule::Mirror { source_root, .. } => is_under(&chars_of(source_root.as_str()), &p)
                && self.name_has_suffix(&p),
            SyncRule::Bidirectional { left_root, right_root } => is_under(
                &chars_of(left_root.as_str()),
                &p,
            ) || is_under(&chars_of(right_root.as_str()), &p),
            _ => self.name_has_suffix(&p),
        }
    }

    /// Where this rule writes for a change of `path`.
    pub fn target(&self, path: &str) -> (r: Option<String>)
        ensures
            opt_view(r) == rule_target(*self, path@),
    {
        let p = chars_of(path);
        match self {
            SyncRule::Mirror { target_root, .. } => match file_name_of(&p) {
                Some(n) => Some(string_of(join_path(&chars_of(target_root.as_str()), &n).as_slice())),
                None => None,
            },
            SyncRule::Bidirectional { left_root, right_root } => match file_name_of(&p) {
                Some(n) => {
                    let l = chars_of(left_root.as_str());
                    let r = chars_of(right_root.as_str());
                    if is_under(&l, &p) {
                        Some(string_of(join_path(&r, &n).as_slice()))
                    } else if is_under(&r, &p) {
                        Some(string_of(join_path(&l, &n).as_slice()))
                    } else {
                        None
                    }
                },
                None => None,
            },
            SyncRule::DocIndex => match parent_of(&p) {
                Some(d) => Some(string_of(join_path(&d, &chars_of("index.doku")).as_slice())),
                None => None,
            },
            _ => Some(string_of(p.as_slice())),
        }
    }
}

impl SyncProcess {
    /// A process called `name` that follows `rule`.
    pub fn new(name: &str, rule: SyncRule) -> (r: SyncProcess)
        ensures
            r.name@ == name@,
            r.rule == rule,
    {
        SyncProcess { name: name.to_string(), rule }
    }

    /// Whether this process acts on `event`.
    pub fn filter(&self, event: &FileEvent) -> (r: bool)
        ensures
            r == passes(*self, *event),
    {
        !event.origin.is_internal_to(&self.name) && self.rule.matches(event.path.as_str())
    }

    /// Where this process writes for `event`, if anywhere.
    pub fn target(&self, event: &FileEvent) -> (r: Option<String>)
        ensures
            opt_view(r) == target_of(*self, *event),
    {
        self.rule.target(event.path.as_str())
    }
}

/// What a process does with the content of a changed file, once it has
/// decided to act.
#[derive(Debug)]
pub enum TransformStep {
    /// Write these bytes to the target.
    Write(Vec<u8>),
    /// Run the commands of this log that have no output yet, set their
    /// outputs, and write the log's text to the target.
    RunCommands(CommandLog),
    /// Read the markdown files below this directory and write their index
    /// to the target.
    IndexDirectory(String),
}

/// The reply that the chat rule adds.
pub open spec fn chat_reply() -> (Seq<char>, Seq<char>) {
    ("mara"@, "das ist interessant"@)
}

/// `r` is what rule `rule` does with the content `content` of `path`.
pub open spec fn transformed(rule: SyncRule, path: Seq<char>, content: Seq<u8>, r: TransformStep) -> bool {
    let text = lines(lossy_text(content));
    match rule {
        SyncRule::Personas => match r {
            TransformStep::Write(b) => b@ == encode_utf8(persona_blocks(personas_from(text, 0)) + "\n"@),
            _ => false,
        },
        SyncRule::Chat => match r {
            TransformStep::Write(b) => b@ == encode_utf8(chat_text(chat_from(text, 0).push(chat_reply()))),
            _ => false,
        },
        SyncRule::Todos => match r {
            TransformStep::Write(b) => b@ == encode_utf8(todo_text(todo_items(text))),
            _ => false,
        },
        SyncRule::Commands => match r {
            TransformStep::RunCommands(log) => log@ == commands_from(text, 0),
            _ => false,
        },
        SyncRule::DocIndex => match parent(path) {
            Some(d) => match r {
                TransformStep::IndexDirectory(dir) => dir@ == d,
                _ => false,
            },
            None => match r {
                TransformStep::Write(b) => b@.len() == 0,
                _ => false,
            },
        },
        _ => match r {
            TransformStep::Write(b) => b@ == content,
            _ => false,
        },
    }
}

impl SyncRule {
    /// What this rule does with the content `content` of `path`.
    pub fn transform(&self, path: &str, content: &Vec<u8>) -> (r: TransformStep)
        ensures
            transformed(*self, path@, content@, r),
    {
        match self {
            SyncRule::Mirror { .. } | SyncRule::Bidirectional { .. } => {
                let mut out: Vec<u8> = Vec::new();
                let mut i: usize = 0;
                while i < content.len()
                    invariant
                        i <= content@.len(),
                        out@ == content@.subrange(0, i as int),
                    decreases content@.len() - i,
                {
                    out.push(content[i]);
                    i += 1;
                    assert(out@ =~= content@.subrange(0, i as int));
                }
                assert(out@ =~= content@);
                TransformStep::Write(out)
            },
            SyncRule::Personas => {
                let text = decode_lossy(content.as_slice());
                let ps = parse_personas(text.as_str());
                let out = render_personas(ps.as_slice());
                TransformStep::Write(text_bytes(&out))
            },
            SyncRule::Chat => {
                let text = decode_lossy(content.as_slice());
                let mut chat = Chat::parse(text.as_str());
                chat.add_message("mara".to_string(), "das ist interessant".to_string());
                TransformStep::Write(text_bytes(&chat.render()))
            },
            SyncRule::Todos => {
                let text = decode_lossy(content.as_slice());
                let log = TodoLog::parse(text.as_str());
                TransformStep::Write(text_bytes(&log.render()))
            },
            SyncRule::Commands => {
                let text = decode_lossy(content.as_slice());
                TransformStep::RunCommands(CommandLog::parse(text.as_str()))
            },
            SyncRule::DocIndex => {
                let p = chars_of(path);
                match parent_of(&p) {
                    Some(d) => TransformStep::IndexDirectory(string_of(d.as_slice())),
                    None => TransformStep::Write(Vec::new()),
                }
            },
        }
    }
}

impl SyncProcess {
    /// What this process does with `content`, the content of the changed
    /// file of `event`.
    pub fn transform(&self, event: &FileEvent, content: &Vec<u8>) -> (r: TransformStep)
        ensures
            transformed(self.rule, event.path@, content@, r),
    {
        self.rule.transform(event.path.as_str(), content)
    }
}

/// Copies `.txt` files below `_mara/a` to `_mara/b`.
pub fn create_sync_a_to_b() -> (r: SyncProcess)
    ensures
        r.name@ == "A->B (txt files)"@,
        r.rule matches SyncRule::Mirror { source_root, target_root, suffix } && source_root@
            == "_mara/a"@ && target_root@ == "_mara/b"@ && suffix@ == ".txt"@,
{
    SyncProcess::new(
        "A->B (txt files)",
        SyncRule::Mirror {
            source_root: "_mara/a".to_string(),
            target_root: "_mara/b".to_string(),
            suffix: ".txt".to_string(),
        },
    )
}

/// Keeps `_mara/a` and `_mara/c` alike, copying each change across.
pub fn create_sync_a_to_c() -> (r: SyncProcess)
    ensures
        r.name@ == "A<->C (bidirectional)"@,
        r.rule matches SyncRule::Bidirectional { left_root, right_root } && left_root@ == "_mara/a"@
            && right_root@ == "_mara/c"@,
{
    SyncProcess::new(
        "A<->C (bidirectional)",
        SyncRule::Bidirectional { left_root: "_mara/a".to_string(), right_root: "_mara/c".to_string() },
    )
}

/// Rewrites `.txt` files as persona blocks.
pub fn create_persona_parser() -> (r: SyncProcess)
    ensures
        r.name@ == "Persona parser"@,
        r.rule == SyncRule::Personas,
{
    SyncProcess::new("Persona parser", SyncRule::Personas)
}

/// Rewrites `.chat` files with a reply added.
pub fn create_chat_processor() -> (r: SyncProcess)
    ensures
        r.name@ == "Chat processor"@,
        r.rule == SyncRule::Chat,
{
    SyncProcess::new("Chat processor", SyncRule::Chat)
}

/// Runs the new commands of `.command` files.
pub fn create_command_processor() -> (r: SyncProcess)
    ensures
        r.name@ == "Command processor"@,
        r.rule == SyncRule::Commands,
{
    SyncProcess::new("Command processor", SyncRule::Commands)
}

/// Indexes the markdown files beside each changed `.md` file.
pub fn create_doku_processor() -> (r: SyncProcess)
    ensures
        r.name@ == "Doku processor"@,
        r.rule == SyncRule::DocIndex,
{
    SyncProcess::new("Doku processor", SyncRule::DocIndex)
}

/// Rewrites `.todo` files with open items first.
pub fn create_todo_processor() -> (r: SyncProcess)
    ensures
        r.name@ == "Todo processor"@,
        r.rule == SyncRule::Todos,
{
    SyncProcess::new("Todo processor", SyncRule::Todos)
}

/// A process never acts on a change that it made itself.
pub proof fn lemma_self_exclusion(p: SyncProcess, e: FileEvent)
    requires
        e.origin@ == Some(p.name@),
    ensures
        !passes(p, e),
{
}

} // verus!
