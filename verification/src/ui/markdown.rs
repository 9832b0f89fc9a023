//! A minimal Markdown to styled lines rendering for the transcript.
//!
//! Only the subset found in dialogue and story text is handled: quotes
//! (`>`, drawn behind a bar), headings (`#`, `##`, `###`), bullet items
//! (`- `, `* `) and paragraphs. Each line
//! becomes one [`StyledLine`] with one style; blank lines are dropped.
//! Inline marks such as `**bold**` are left as they are.

use vstd::prelude::*;

use crate::content::dialogue::{split_lines, split_text_lines};
use crate::text::{join, join3, owned, seq_starts_with, strip_prefix, strs, trim, trim_seq};

verus! {

/// How a transcript line is drawn; a terminal front end maps each to its
/// colours.
#[derive(Debug, Clone, Copy, PartialEq, Eq, Structural)]
pub enum LineStyle {
    /// The terminal's default (blank lines).
    Plain,
    /// Body text.
    Text,
    /// Secondary text: list items, counters.
    Subtle,
    /// Headings and chapter cards (lavender, bold).
    Heading,
    /// Dialogue headers and ending titles (mauve, bold).
    Accent,
    /// Error lines (red).
    Alert,
    /// Quoted text, drawn behind a bar.
    Quote,
    /// Faint remarks (overlay colour).
    Faint,
    /// The selected row of a list (bold body colour).
    Selected,
    /// Judgment and voice headings (pink, bold).
    Emphasis,
}

/// One line of text with one style.
#[derive(Debug, Clone)]
pub struct StyledLine {
    pub text: String,
    pub style: LineStyle,
}

pub open spec fn styled_view(l: StyledLine) -> (Seq<char>, LineStyle) {
    (l.text@, l.style)
}

/// A quote line's text: a bar, then what follows the `>`, if anything.
pub open spec fn quote_text(rest: Seq<char>) -> Seq<char> {
    let body = trim_seq(rest);
    if body.len() == 0 {
        "│"@
    } else {
        "│ "@ + body
    }
}

/// The rendering of one raw line: nothing for a blank line; a quote behind
/// its bar; a heading's title; a bullet item with its marker; otherwise the
/// trimmed line.
pub open spec fn render_line(raw: Seq<char>) -> Option<(Seq<char>, LineStyle)> {
    let line = trim_seq(raw);
    if line.len() == 0 {
        None
    } else if seq_starts_with(line, ">"@) {
        Some((quote_text(line.skip(1)), LineStyle::Quote))
    } else if seq_starts_with(line, "### "@) {
        Some((trim_seq(line.skip(4)), LineStyle::Heading))
    } else if seq_starts_with(line, "## "@) {
        Some((trim_seq(line.skip(3)), LineStyle::Heading))
    } else if seq_starts_with(line, "# "@) {
        Some((trim_seq(line.skip(2)), LineStyle::Heading))
    } else if seq_starts_with(line, "- "@) || seq_starts_with(line, "* "@) {
        Some(("• "@ + trim_seq(line.skip(2)), LineStyle::Subtle))
    } else {
        Some((line, LineStyle::Text))
    }
}

/// The renderings of the first `n` raw lines.
pub open spec fn render_upto(raws: Seq<Seq<char>>, n: int) -> Seq<(Seq<char>, LineStyle)>
    decreases n,
{
    if n <= 0 {
        Seq::empty()
    } else {
        let prev = render_upto(raws, n - 1);
        match render_line(raws[n - 1]) {
            Some(l) => prev.push(l),
            None => prev,
        }
    }
}

/// The rendering of a text: each line of it split at `'\n'`, in order.
pub open spec fn spec_render(text: Seq<char>) -> Seq<(Seq<char>, LineStyle)> {
    let raws = split_lines(text);
    render_upto(raws, raws.len() as int)
}

fn render_one(raw: &str) -> (r: Option<StyledLine>)
    ensures
        match r {
            Some(l) => render_line(raw@) == Some(styled_view(l)),
            None => render_line(raw@) is None,
        },
{
    proof {
        reveal_strlit("### ");
        reveal_strlit("## ");
        reveal_strlit("# ");
    }
    let line = trim(raw);
    if line.unicode_len() == 0 {
        return None;
    }
    proof {
        reveal_strlit(">");
        reveal_strlit("│");
        reveal_strlit("│ ");
    }
    if let Some(rest) = strip_prefix(line, ">") {
        let body = trim(rest);
        let text = if body.unicode_len() == 0 { owned("│") } else { join("│ ", body) };
        return Some(StyledLine { text, style: LineStyle::Quote });
    }
    if let Some(rest) = strip_prefix(line, "### ") {
        return Some(StyledLine { text: owned(trim(rest)), style: LineStyle::Heading });
    }
    if let Some(rest) = strip_prefix(line, "## ") {
        return Some(StyledLine { text: owned(trim(rest)), style: LineStyle::Heading });
    }
    if let Some(rest) = strip_prefix(line, "# ") {
        return Some(StyledLine { text: owned(trim(rest)), style: LineStyle::Heading });
    }
    let item = match strip_prefix(line, "- ") {
        Some(rest) => Some(rest),
        None => strip_prefix(line, "* "),
    };
    proof {
        reveal_strlit("- ");
        reveal_strlit("* ");
    }
    match item {
        Some(rest) => Some(StyledLine { text: join("• ", trim(rest)), style: LineStyle::Subtle }),
        None => Some(StyledLine { text: owned(line), style: LineStyle::Text }),
    }
}

/// Render a (possibly multi-line) Markdown text.
pub fn render(text: &str) -> (r: Vec<StyledLine>)
    ensures
        r@.map_values(|l: StyledLine| styled_view(l)) == spec_render(text@),
{
    let raws = split_text_lines(text);
    let ghost rs = raws@.map_values(|t: String| t@);
    let mut out: Vec<StyledLine> = Vec::new();
    let mut i: usize = 0;
    while i < raws.len()
        invariant
            i <= raws@.len(),
            rs == raws@.map_values(|t: String| t@),
            rs == split_lines(text@),
            out@.map_values(|l: StyledLine| styled_view(l)) == render_upto(rs, i as int),
        decreases raws@.len() - i,
    {
        let ghost before = out@.map_values(|l: StyledLine| styled_view(l));
        match render_one(raws[i].as_str()) {
            Some(l) => {
                out.push(l);
                assert(out@.map_values(|l: StyledLine| styled_view(l)) =~= before.push(styled_view(out@.last())));
            },
            None => {},
        }
        i += 1;
    }
    out
}

/// `s` with every leading repetition of `p` removed.
pub open spec fn strip_all(s: Seq<char>, p: Seq<char>) -> Seq<char>
    decreases s.len(),
{
    if p.len() > 0 && seq_starts_with(s, p) {
        strip_all(s.skip(p.len() as int), p)
    } else {
        s
    }
}

fn strip_all_exec<'a>(s: &'a str, p: &str) -> (r: &'a str)
    requires
        p@.len() > 0,
    ensures
        r@ == strip_all(s@, p@),
    decreases s@.len(),
{
    match strip_prefix(s, p) {
        Some(rest) => {
            assert(rest@ =~= s@.skip(p@.len() as int));
            strip_all_exec(rest, p)
        },
        None => s,
    }
}

/// A line with its leading heading and list marks removed, so that a quote
/// does not show a literal `#` or bullet.
pub open spec fn spec_strip_md_prefix(line: Seq<char>) -> Seq<char> {
    strip_all(strip_all(strip_all(strip_all(strip_all(line, "### "@), "## "@), "# "@), "- "@), "* "@)
}

pub fn strip_md_prefix(line: &str) -> (r: &str)
    ensures
        r@ == spec_strip_md_prefix(line@),
{
    proof {
        reveal_strlit("### ");
        reveal_strlit("## ");
        reveal_strlit("# ");
        reveal_strlit("- ");
        reveal_strlit("* ");
    }
    let a = strip_all_exec(line, "### ");
    let b = strip_all_exec(a, "## ");
    let c = strip_all_exec(b, "# ");
    let d = strip_all_exec(c, "- ");
    strip_all_exec(d, "* ")
}

/// The lines of a text as Rust's `str::lines` gives them: split at `'\n'`,
/// a `'\r'` before a `'\n'` dropped, and no empty last line for a text that
/// ends with `'\n'` (or is empty).
pub open spec fn text_lines(s: Seq<char>) -> Seq<Seq<char>> {
    let p = split_lines(s);
    let n = if p.last().len() == 0 { p.len() - 1 } else { p.len() as int };
    Seq::new(n as nat, |i: int| if i < p.len() - 1 && p[i].len() > 0 && p[i].last() == '\r' {
        p[i].drop_last()
    } else {
        p[i]
    })
}

proof fn lemma_split_lines_nonempty(s: Seq<char>)
    ensures
        split_lines(s).len() >= 1,
{
    lemma_lines_from_len(s, 0, Seq::empty(), Seq::empty());
}

proof fn lemma_lines_from_len(s: Seq<char>, i: int, cur: Seq<char>, acc: Seq<Seq<char>>)
    ensures
        crate::content::dialogue::lines_from(s, i, cur, acc).len() >= acc.len() + 1,
    decreases s.len() - i,
{
    if i < s.len() {
        if s[i] == '\n' {
            lemma_lines_from_len(s, i + 1, Seq::empty(), acc.push(cur));
        } else {
            lemma_lines_from_len(s, i + 1, cur.push(s[i]), acc);
        }
    }
}

fn text_lines_exec(s: &str) -> (r: Vec<String>)
    ensures
        r@.map_values(|t: String| t@) == text_lines(s@),
{
    let p = split_text_lines(s);
    let ghost ps = p@.map_values(|t: String| t@);
    proof {
        lemma_split_lines_nonempty(s@);
    }
    let total = p.len();
    let n = if p[total - 1].unicode_len() == 0 {
        total - 1
    } else {
        total
    };
    let mut out: Vec<String> = Vec::new();
    let mut i: usize = 0;
    while i < n
        invariant
            n <= total,
            total == p@.len(),
            total >= 1,
            ps == p@.map_values(|t: String| t@),
            ps == split_lines(s@),
            n == (if ps.last().len() == 0 { ps.len() - 1 } else { ps.len() as int }),
            i <= n,
            out@.len() == i,
            forall|k: int| 0 <= k < i ==> #[trigger] out@[k]@ == (if k < ps.len() - 1 && ps[k].len() > 0 && ps[k].last()
                == '\r' {
                ps[k].drop_last()
            } else {
                ps[k]
            }),
        decreases n - i,
    {
        let line = p[i].as_str();
        let len = line.unicode_len();
        if i + 1 < total && len > 0 && line.get_char(len - 1) == '\r' {
            let cut = line.substring_char(0, len - 1);
            assert(cut@ =~= ps[i as int].drop_last());
            out.push(owned(cut));
        } else {
            out.push(owned(line));
        }
        i += 1;
    }
    assert(out@.map_values(|t: String| t@) =~= text_lines(s@));
    out
}

/// Lines joined with `'\n'` between them.
pub open spec fn join_lines(ls: Seq<Seq<char>>) -> Seq<char>
    decreases ls.len(),
{
    if ls.len() == 0 {
        Seq::empty()
    } else if ls.len() == 1 {
        ls[0]
    } else {
        join_lines(ls.drop_last()) + "\n"@ + ls.last()
    }
}

/// A text as a Markdown quote: each line prefixed with `> `, its heading and
/// list marks removed.
pub open spec fn spec_quote_block(text: Seq<char>) -> Seq<char> {
    join_lines(text_lines(text).map_values(|l: Seq<char>| "> "@ + spec_strip_md_prefix(l)))
}

pub fn quote_block(text: &str) -> (r: String)
    ensures
        r@ == spec_quote_block(text@),
{
    let ls = text_lines_exec(text);
    let ghost tl = text_lines(text@);
    let ghost f = |l: Seq<char>| "> "@ + spec_strip_md_prefix(l);
    let mut pieces: Vec<String> = Vec::new();
    let mut i: usize = 0;
    while i < ls.len()
        invariant
            i <= ls@.len(),
            ls@.map_values(|t: String| t@) == tl,
            f == (|l: Seq<char>| "> "@ + spec_strip_md_prefix(l)),
            strs(pieces@) == tl.map_values(f).take(i as int),
        decreases ls@.len() - i,
    {
        assert(tl[i as int] == ls@[i as int]@);
        let piece = join("> ", strip_md_prefix(ls[i].as_str()));
        assert(piece@ == f(tl[i as int]));
        let ghost before = strs(pieces@);
        pieces.push(piece);
        assert(strs(pieces@) =~= before.push(f(tl[i as int])));
        assert(tl.map_values(f).take(i + 1) =~= tl.map_values(f).take(i as int).push(f(tl[i as int])));
        i += 1;
    }
    assert(tl.map_values(f).take(ls@.len() as int) =~= tl.map_values(f));
    join_lines_exec(&pieces)
}

/// Join lines with `'\n'` between them.
fn join_lines_exec(v: &Vec<String>) -> (r: String)
    ensures
        r@ == join_lines(strs(v@)),
{
    let mut out = String::new();
    let mut i: usize = 0;
    while i < v.len()
        invariant
            i <= v@.len(),
            out@ == join_lines(strs(v@).take(i as int)),
        decreases v@.len() - i,
    {
        let ghost t = strs(v@).take(i + 1);
        assert(t.drop_last() =~= strs(v@).take(i as int));
        if i == 0 {
            out = owned(v[i].as_str());
            assert(out@ == join_lines(t));
        } else {
            out.append("\n");
            out.append(v[i].as_str());
        }
        i += 1;
    }
    assert(strs(v@).take(v@.len() as int) =~= strs(v@));
    out
}

/// The quote of a narrative text: the label opens the first line, each line
/// is prefixed with `> ` and loses its heading and list marks.
pub open spec fn spec_narrative_quote(label: Seq<char>, text: Seq<char>) -> Seq<char> {
    let ls = text_lines(text);
    let head = if ls.len() > 0 { spec_strip_md_prefix(ls[0]) } else { Seq::empty() };
    let rest = if ls.len() > 0 { ls.skip(1) } else { Seq::empty() };
    join_lines(seq!["> 〔"@ + label + "〕"@ + head] + rest.map_values(|l: Seq<char>| "> "@ + spec_strip_md_prefix(l)))
}

pub fn narrative_quote(label: &str, text: &str) -> (r: String)
    ensures
        r@ == spec_narrative_quote(label@, text@),
{
    let ls = text_lines_exec(text);
    let ghost tl = text_lines(text@);
    let ghost f = |l: Seq<char>| "> "@ + spec_strip_md_prefix(l);
    let ghost rest = if tl.len() > 0 { tl.skip(1) } else { Seq::<Seq<char>>::empty() };
    let head = if ls.len() > 0 {
        strip_md_prefix(ls[0].as_str())
    } else {
        ""
    };
    proof {
        reveal_strlit("");
        if tl.len() > 0 {
            assert(tl[0] == ls@[0]@);
        }
    }
    let mut first = join3("> 〔", label, "〕");
    first.append(head);
    let ghost first_view = first@;
    let mut pieces: Vec<String> = Vec::new();
    pieces.push(first);
    let ghost h = strs(pieces@);
    assert(h =~= seq![first_view]);
    let mut i: usize = 1;
    while i < ls.len()
        invariant
            1 <= i,
            ls@.len() > 0 ==> i <= ls@.len(),
            ls@.len() == 0 ==> i == 1,
            ls@.map_values(|t: String| t@) == tl,
            f == (|l: Seq<char>| "> "@ + spec_strip_md_prefix(l)),
            rest == (if tl.len() > 0 { tl.skip(1) } else { Seq::<Seq<char>>::empty() }),
            h.len() == 1,
            h == seq![first_view],
            strs(pieces@) == h + rest.map_values(f).take(i - 1),
            rest.len() == (if ls@.len() > 0 { ls@.len() - 1 } else { 0 }),
        decreases ls@.len() - i,
    {
        assert(tl[i as int] == ls@[i as int]@);
        assert(rest[i - 1] == tl[i as int]);
        let piece = join("> ", strip_md_prefix(ls[i].as_str()));
        assert(piece@ == f(tl[i as int]));
        let ghost before = strs(pieces@);
        pieces.push(piece);
        assert(strs(pieces@) =~= before.push(f(tl[i as int])));
        assert(rest.map_values(f).take(i as int) =~= rest.map_values(f).take(i - 1).push(f(tl[i as int])));
        assert(strs(pieces@) =~= h + rest.map_values(f).take(i as int));
        i += 1;
    }
    proof {
        if ls@.len() == 0 {
            assert(rest.map_values(f).take(0) =~= rest.map_values(f));
        } else {
            assert(rest.map_values(f).take(ls@.len() - 1) =~= rest.map_values(f));
        }
        assert(first_view == "> 〔"@ + label@ + "〕"@ + (if tl.len() > 0 { spec_strip_md_prefix(tl[0]) } else { Seq::<char>::empty() }));
        let n = ls@.len();
        if n > 0 {
            assert(i == n);
        }
        assert(strs(pieces@) == h + rest.map_values(f).take(i - 1));
        assert(rest.map_values(f).take(i - 1) =~= rest.map_values(f));
        assert(h == seq![first_view]);
        assert(strs(pieces@) =~= seq![first_view] + rest.map_values(f));
    }
    join_lines_exec(&pieces)
}

} // verus!
