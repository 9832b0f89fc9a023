//! Dialogue files: one Markdown file per character and chapter.
//!
//! ```text
//! ## whereabouts
//!
//! ### [surface]
//!
//! I was there.
//!
//! ### [shadow]
//!
//! I was not.
//! ```
//!
//! A `## id` line opens a topic; a `### [surface]` or `### [shadow]` line
//! opens that world's version of the current topic; the lines that follow,
//! up to the next heading, are its text (trimmed). A world heading before any
//! topic is an error.

use vstd::prelude::*;

use crate::error::AppError;
use crate::text::{owned, push_char, seq_starts_with, starts_with, str_eq, trim, trim_seq};
use crate::world::World;

verus! {

/// One world's text of one topic.
#[derive(Debug, Clone)]
pub struct DialogueEntry {
    pub topic: String,
    pub world: World,
    pub text: String,
}

/// All dialogue of one character in one chapter.
#[derive(Debug, Clone)]
pub struct DialogueBook {
    pub entries: Vec<DialogueEntry>,
}

/// An entry as plain values: topic, world, text.
pub type EntryView = (Seq<char>, World, Seq<char>);

pub open spec fn entry_view(e: DialogueEntry) -> EntryView {
    (e.topic@, e.world, e.text@)
}

/// Index of the first entry with this topic and world at or after `i`.
pub open spec fn find_from(es: Seq<EntryView>, topic: Seq<char>, world: World, i: int) -> Option<int>
    decreases es.len() - i,
{
    if i < 0 || i >= es.len() {
        None
    } else if es[i].0 == topic && es[i].1 == world {
        Some(i)
    } else {
        find_from(es, topic, world, i + 1)
    }
}

/// The text of `topic` in `world`: that of its first entry.
pub open spec fn spec_get(es: Seq<EntryView>, topic: Seq<char>, world: World) -> Option<Seq<char>> {
    match find_from(es, topic, world, 0) {
        Some(i) => Some(es[i].2),
        None => None,
    }
}

pub open spec fn has_topic(es: Seq<EntryView>, topic: Seq<char>) -> bool {
    exists|i: int| 0 <= i < es.len() && #[trigger] es[i].0 == topic
}

impl DialogueBook {
    pub open spec fn spec_entries(&self) -> Seq<EntryView> {
        self.entries@.map_values(|e: DialogueEntry| entry_view(e))
    }

    /// Text of `topic` in `world`, if written.
    pub fn get(&self, topic: &str, world: World) -> (r: Option<&str>)
        ensures
            r is Some <==> spec_get(self.spec_entries(), topic@, world) is Some,
            r matches Some(t) ==> Some(t@) == spec_get(self.spec_entries(), topic@, world),
    {
        let ghost es = self.spec_entries();
        let mut i: usize = 0;
        while i < self.entries.len()
            invariant
                es == self.spec_entries(),
                i <= self.entries@.len(),
                find_from(es, topic@, world, i as int) == find_from(es, topic@, world, 0),
            decreases self.entries@.len() - i,
        {
            let e = &self.entries[i];
            if e.world == world && str_eq(e.topic.as_str(), topic) {
                return Some(e.text.as_str());
            }
            i += 1;
        }
        None
    }

    /// Whether any world version of `topic` exists.
    pub fn contains_topic(&self, topic: &str) -> (r: bool)
        ensures
            r == has_topic(self.spec_entries(), topic@),
    {
        let ghost es = self.spec_entries();
        let mut i: usize = 0;
        while i < self.entries.len()
            invariant
                es == self.spec_entries(),
                i <= self.entries@.len(),
                forall|j: int| 0 <= j < i ==> es[j].0 != topic@,
            decreases self.entries@.len() - i,
        {
            if str_eq(self.entries[i].topic.as_str(), topic) {
                assert(es[i as int].0 == topic@);
                return true;
            }
            i += 1;
        }
        false
    }
}

/// Lines of `s[i..]` split at `'\n'`, given the line `cur` being read and the
/// lines `acc` already complete.
pub open spec fn lines_from(s: Seq<char>, i: int, cur: Seq<char>, acc: Seq<Seq<char>>) -> Seq<
    Seq<char>,
>
    decreases s.len() - i,
{
    if i >= s.len() {
        acc.push(cur)
    } else if s[i] == '\n' {
        lines_from(s, i + 1, Seq::empty(), acc.push(cur))
    } else {
        lines_from(s, i + 1, cur.push(s[i]), acc)
    }
}

/// `s` split at every `'\n'`.
pub open spec fn split_lines(s: Seq<char>) -> Seq<Seq<char>> {
    lines_from(s, 0, Seq::empty(), Seq::empty())
}

/// Parser state after some lines: current topic and world, the text read so
/// far for them, and the entries already complete.
pub struct ParseState {
    pub topic: Option<Seq<char>>,
    pub world: Option<World>,
    pub body: Seq<char>,
    pub acc: Seq<EntryView>,
}

/// Entries with the section being read closed.
pub open spec fn flush(st: ParseState) -> Seq<EntryView> {
    match (st.topic, st.world) {
        (Some(t), Some(w)) => st.acc.push((t, w, trim_seq(st.body))),
        _ => st.acc,
    }
}

/// World named by a `### ` heading's tag.
pub open spec fn world_tag(tag: Seq<char>) -> Option<World> {
    if tag == "[surface]"@ {
        Some(World::Surface)
    } else if tag == "[shadow]"@ {
        Some(World::Shadow)
    } else {
        None
    }
}

pub open spec fn add_line(st: ParseState, line: Seq<char>) -> ParseState {
    if st.world is Some {
        ParseState { body: st.body + line + seq!['\n'], ..st }
    } else {
        st
    }
}

/// One line of the file; `None` on a world heading outside any topic.
pub open spec fn step(st: ParseState, line: Seq<char>) -> Option<ParseState> {
    if seq_starts_with(line, "### "@) && world_tag(trim_seq(line.skip(4))) is Some {
        if st.topic is None {
            None
        } else {
            Some(
                ParseState {
                    topic: st.topic,
                    world: world_tag(trim_seq(line.skip(4))),
                    body: Seq::empty(),
                    acc: flush(st),
                },
            )
        }
    } else if seq_starts_with(line, "## "@) {
        Some(
            ParseState {
                topic: Some(trim_seq(line.skip(3))),
                world: None,
                body: Seq::empty(),
                acc: flush(st),
            },
        )
    } else {
        Some(add_line(st, line))
    }
}

/// The state after lines `i..` starting from `st`, or `None` on an error.
pub open spec fn run_lines(lines: Seq<Seq<char>>, i: int, st: ParseState) -> Option<Seq<EntryView>>
    decreases lines.len() - i,
{
    if i >= lines.len() || i < 0 {
        Some(flush(st))
    } else {
        match step(st, lines[i]) {
            Some(next) => run_lines(lines, i + 1, next),
            None => None,
        }
    }
}

pub open spec fn initial_state() -> ParseState {
    ParseState { topic: None, world: None, body: Seq::empty(), acc: Seq::empty() }
}

/// Entries of a dialogue file, or `None` when it is malformed.
pub open spec fn spec_parse_dialogue(text: Seq<char>) -> Option<Seq<EntryView>> {
    run_lines(split_lines(text), 0, initial_state())
}

pub(crate) fn split_text_lines(s: &str) -> (r: Vec<String>)
    ensures
        r@.map_values(|t: String| t@) == split_lines(s@),
{
    let n = s.unicode_len();
    let mut acc: Vec<String> = Vec::new();
    let mut cur = String::new();
    let mut i: usize = 0;
    assert(acc@.map_values(|t: String| t@) =~= Seq::<Seq<char>>::empty());
    while i < n
        invariant
            n == s@.len(),
            i <= n,
            lines_from(s@, i as int, cur@, acc@.map_values(|t: String| t@)) == split_lines(s@),
        decreases n - i,
    {
        let c = s.get_char(i);
        let ghost old_cur = cur@;
        let ghost old_acc = acc@.map_values(|t: String| t@);
        if c == '\n' {
            let done = cur.clone();
            cur = String::new();
            acc.push(done);
            assert(acc@.map_values(|t: String| t@) =~= old_acc.push(old_cur));
            assert(cur@ =~= Seq::<char>::empty());
        } else {
            push_char(&mut cur, c);
        }
        i += 1;
    }
    let ghost old_acc = acc@.map_values(|t: String| t@);
    let last = cur;
    acc.push(last);
    assert(acc@.map_values(|t: String| t@) =~= old_acc.push(last@));
    acc
}

/// Exec mirror of [`ParseState`].
struct Reader {
    topic: Option<String>,
    world: Option<World>,
    body: String,
    acc: Vec<DialogueEntry>,
}

impl Reader {
    spec fn state(&self) -> ParseState {
        ParseState {
            topic: match self.topic {
                Some(t) => Some(t@),
                None => None,
            },
            world: self.world,
            body: self.body@,
            acc: self.acc@.map_values(|e: DialogueEntry| entry_view(e)),
        }
    }

    fn flush(&mut self)
        ensures
            final(self).acc@.map_values(|e: DialogueEntry| entry_view(e)) == flush(old(self).state()),
            final(self).topic == old(self).topic,
    {
        let ghost before = self.acc@.map_values(|e: DialogueEntry| entry_view(e));
        match (&self.topic, self.world) {
            (Some(t), Some(w)) => {
                let text = owned(trim(self.body.as_str()));
                let e = DialogueEntry { topic: t.clone(), world: w, text };
                self.acc.push(e);
                assert(self.acc@.map_values(|e: DialogueEntry| entry_view(e)) =~= before.push(
                    (t@, w, trim_seq(old(self).body@)),
                ));
            },
            _ => {},
        }
    }
}

/// Parse a dialogue file.
pub fn parse_dialogue(text: &str) -> (r: Result<DialogueBook, AppError>)
    ensures
        r is Ok <==> spec_parse_dialogue(text@) is Some,
        r matches Ok(b) ==> Some(b.spec_entries()) == spec_parse_dialogue(text@),
{
    let lines = split_text_lines(text);
    let ghost ls = lines@.map_values(|t: String| t@);
    let mut rd = Reader { topic: None, world: None, body: String::new(), acc: Vec::new() };
    proof {
        assert(rd.acc@.map_values(|e: DialogueEntry| entry_view(e)) =~= Seq::<EntryView>::empty());
        assert(rd.state() == initial_state());
    }
    let mut i: usize = 0;
    while i < lines.len()
        invariant
            ls == lines@.map_values(|t: String| t@),
            ls == split_lines(text@),
            i <= lines@.len(),
            run_lines(ls, i as int, rd.state()) == spec_parse_dialogue(text@),
        decreases lines@.len() - i,
    {
        let line = lines[i].as_str();
        let ghost st = rd.state();
        assert(ls[i as int] == line@);
        let mut heading_world: Option<World> = None;
        proof {
            reveal_strlit("### ");
            reveal_strlit("## ");
            reveal_strlit("\n");
        }
        if starts_with(line, "### ") {
            let tag = trim(line.substring_char(4, line.unicode_len()));
            assert(tag@ == trim_seq(line@.skip(4))) by {
                assert(line@.subrange(4, line@.len() as int) =~= line@.skip(4));
            }
            if str_eq(tag, "[surface]") {
                heading_world = Some(World::Surface);
            } else if str_eq(tag, "[shadow]") {
                heading_world = Some(World::Shadow);
            }
        }
        match heading_world {
            Some(w) => {
                if rd.topic.is_none() {
                    return Err(AppError::Content(owned("对话文件中的世界版本标题缺少所属话题")));
                }
                rd.flush();
                rd.world = Some(w);
                rd.body = String::new();
            },
            None => {
                if starts_with(line, "## ") {
                    let name = owned(trim(line.substring_char(3, line.unicode_len())));
                    assert(name@ == trim_seq(line@.skip(3))) by {
                        assert(line@.subrange(3, line@.len() as int) =~= line@.skip(3));
                    }
                    rd.flush();
                    rd.topic = Some(name);
                    rd.world = None;
                    rd.body = String::new();
                } else if rd.world.is_some() {
                    rd.body.append(line);
                    rd.body.append("\n");
                }
            },
        }
        proof {
            assert(rd.state().body =~= step(st, line@)->0.body);
            assert(rd.state() == step(st, line@)->0);
        }
        i += 1;
    }
    rd.flush();
    Ok(DialogueBook { entries: rd.acc })
}

} // verus!
