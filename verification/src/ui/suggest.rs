//! Slash completion: what the pop-up offers for the line being typed, and
//! how a chosen completion rewrites the line.
//!
//! Argument candidates come from the engine's own menu builders, so what
//! completion lists is what the engine accepts.

use vstd::prelude::*;

use crate::content::engine::ContentEngine;
use crate::content::models::Character;
use crate::engine::commands::{command_names, COMMAND_NAMES};
use crate::engine::logic::{
    ask_topic_options, move_options, pairs, spec_ask_topic_options, spec_move_options, spec_unjudged,
    unjudged_character_options,
};
use crate::save::schema::Save;
use crate::text::{
    contains_str, ends_with, is_whitespace, is_ws, join, join3, owned, seq_contains, seq_ends_with,
    seq_starts_with, split_ws, starts_with, strs, tokens, trim_start, trim_start_seq,
};
use crate::ui::command::{args_for, desc_for, is_known, spec_args, spec_desc};
use crate::ui::types::{SuggestKind, Suggestion, Suggestions};

verus! {

/// A completion as display, description and inserted text.
pub type SuggView = (Seq<char>, Seq<char>, Seq<char>);

pub open spec fn sv(s: Suggestion) -> SuggView {
    (s.display@, s.desc@, s.insert@)
}

pub open spec fn svs(v: Seq<Suggestion>) -> Seq<SuggView> {
    v.map_values(|s: Suggestion| sv(s))
}

/// A pop-up as kind, items and selection.
pub open spec fn pop_view(o: Option<Suggestions>) -> Option<(SuggestKind, Seq<SuggView>, usize)> {
    match o {
        Some(s) => Some((s.kind, svs(s.items@), s.selected)),
        None => None,
    }
}

/// The pop-up for a list of items: none when empty, else on the first item.
pub open spec fn made(kind: SuggestKind, items: Seq<SuggView>) -> Option<(SuggestKind, Seq<SuggView>, usize)> {
    if items.len() == 0 {
        None
    } else {
        Some((kind, items, 0))
    }
}

/// Leading `/` characters removed.
pub open spec fn drop_slashes(s: Seq<char>) -> Seq<char>
    decreases s.len(),
{
    if s.len() > 0 && s[0] == '/' {
        drop_slashes(s.drop_first())
    } else {
        s
    }
}

fn trim_slashes(s: &str) -> (r: &str)
    ensures
        r@ == drop_slashes(s@),
{
    let n = s.unicode_len();
    let mut i: usize = 0;
    assert(s@.subrange(0, n as int) =~= s@);
    while i < n && s.get_char(i) == '/'
        invariant
            n == s@.len(),
            i <= n,
            drop_slashes(s@.subrange(i as int, n as int)) == drop_slashes(s@),
        decreases n - i,
    {
        assert(s@.subrange(i as int, n as int).drop_first() =~= s@.subrange(i + 1, n as int));
        i += 1;
    }
    s.substring_char(i, n)
}

/// What is submitted: leading whitespace and every leading `/` removed (the
/// slash only opens the pop-up; `//ask` is tolerated).
pub fn strip_slash(line: &str) -> (r: String)
    ensures
        r@ == drop_slashes(trim_start_seq(line@)),
{
    owned(trim_slashes(trim_start(line)))
}

/// Position of the last whitespace among the first `k` characters, or -1.
pub open spec fn last_ws_upto(s: Seq<char>, k: int) -> int
    decreases k,
{
    if k <= 0 {
        -1
    } else if is_ws(s[k - 1]) {
        k - 1
    } else {
        last_ws_upto(s, k - 1)
    }
}

/// The line with its trailing half token (what follows the last whitespace)
/// replaced by `insert`.
pub open spec fn spec_apply_completion(value: Seq<char>, insert: Seq<char>) -> Seq<char> {
    value.take(last_ws_upto(value, value.len() as int) + 1) + insert
}

/// Replace the trailing half token of the line with the completion.
pub fn apply_completion(value: &str, insert: &str) -> (r: String)
    ensures
        r@ == spec_apply_completion(value@, insert@),
{
    let n = value.unicode_len();
    let mut k: usize = n;
    while k > 0 && !is_whitespace(value.get_char(k - 1))
        invariant
            n == value@.len(),
            k <= n,
            last_ws_upto(value@, k as int) == last_ws_upto(value@, n as int),
        decreases k,
    {
        k -= 1;
    }
    let prefix = value.substring_char(0, k);
    join(prefix, insert)
}

/// Candidates `(id, label)` kept when the id starts with the partial token
/// or the label contains it, as completions inserting the id.
pub open spec fn spec_filter_opts(cands: Seq<(Seq<char>, Seq<char>)>, partial: Seq<char>) -> Seq<SuggView> {
    cands.filter(|p: (Seq<char>, Seq<char>)| seq_starts_with(p.0, partial) || seq_contains(p.1, partial)).map_values(
        |p: (Seq<char>, Seq<char>)| (p.1 + " · "@ + p.0, Seq::<char>::empty(), p.0 + " "@),
    )
}

/// Engine candidates filtered by the partial token, as completions.
pub fn filter_opts(candidates: Vec<(String, String)>, partial: &str) -> (r: Vec<Suggestion>)
    ensures
        svs(r@) == spec_filter_opts(pairs(candidates@), partial@),
{
    let ghost cs = pairs(candidates@);
    let ghost p = |p: (Seq<char>, Seq<char>)| seq_starts_with(p.0, partial@) || seq_contains(p.1, partial@);
    let ghost f = |p: (Seq<char>, Seq<char>)| (p.1 + " · "@ + p.0, Seq::<char>::empty(), p.0 + " "@);
    let mut out: Vec<Suggestion> = Vec::new();
    let mut i: usize = 0;
    while i < candidates.len()
        invariant
            i <= candidates@.len(),
            cs == pairs(candidates@),
            p == (|p: (Seq<char>, Seq<char>)| seq_starts_with(p.0, partial@) || seq_contains(p.1, partial@)),
            f == (|p: (Seq<char>, Seq<char>)| (p.1 + " · "@ + p.0, Seq::<char>::empty(), p.0 + " "@)),
            svs(out@) == cs.take(i as int).filter(p).map_values(f),
        decreases candidates@.len() - i,
    {
        proof {
            assert(cs.take(i + 1) =~= cs.take(i as int).push(cs[i as int]));
            cs.take(i as int).lemma_filter_push(cs[i as int], p);
        }
        let id = candidates[i].0.as_str();
        let label = candidates[i].1.as_str();
        let ghost before = svs(out@);
        if starts_with(id, partial) || contains_str(label, partial) {
            let s = Suggestion { display: join3(label, " · ", id), desc: String::new(), insert: join(id, " ") };
            out.push(s);
            assert(svs(out@) =~= before.push(f(cs[i as int])));
        }
        assert(svs(out@) =~= cs.take(i + 1).filter(p).map_values(f));
        i += 1;
    }
    assert(cs.take(cs.len() as int) =~= cs);
    out
}

/// The completion of a command name.
pub open spec fn cmd_item(n: Seq<char>) -> SuggView {
    (
        "/"@ + n,
        if spec_args(n).len() == 0 {
            spec_desc(n)
        } else {
            spec_desc(n) + " · "@ + spec_args(n)
        },
        "/"@ + n + " "@,
    )
}

/// Command completions for the text after the slash: every command whose
/// name starts with it (all of them for an empty query).
pub open spec fn spec_command_suggestions(query: Seq<char>) -> Option<(SuggestKind, Seq<SuggView>, usize)> {
    made(
        SuggestKind::Command,
        command_names().filter(|n: Seq<char>| query.len() == 0 || seq_starts_with(n, query)).map_values(
            |n: Seq<char>| cmd_item(n),
        ),
    )
}

/// Completions of the first, slash-prefixed word.
pub fn command_suggestions(query: &str) -> (r: Option<Suggestions>)
    ensures
        pop_view(r) == spec_command_suggestions(query@),
{
    let ghost p = |n: Seq<char>| query@.len() == 0 || seq_starts_with(n, query@);
    let ghost f = |n: Seq<char>| cmd_item(n);
    let ghost names = command_names();
    let mut items: Vec<Suggestion> = Vec::new();
    let mut i: usize = 0;
    while i < 8
        invariant
            i <= 8,
            names == command_names(),
            p == (|n: Seq<char>| query@.len() == 0 || seq_starts_with(n, query@)),
            f == (|n: Seq<char>| cmd_item(n)),
            svs(items@) == names.take(i as int).filter(p).map_values(f),
        decreases 8 - i,
    {
        let name = COMMAND_NAMES[i];
        proof {
            reveal_strlit("ask");
            reveal_strlit("judge");
            reveal_strlit("move");
            reveal_strlit("gaze");
            reveal_strlit("map");
            reveal_strlit("note");
            reveal_strlit("help");
            reveal_strlit("quit");
            assert(name@ == names[i as int]);
            assert(names.take(i + 1) =~= names.take(i as int).push(names[i as int]));
            names.take(i as int).lemma_filter_push(names[i as int], p);
        }
        let ghost before = svs(items@);
        if query.unicode_len() == 0 || starts_with(name, query) {
            let desc = desc_for(name);
            let args = args_for(name);
            let d = if args.unicode_len() == 0 {
                owned(desc)
            } else {
                join3(desc, " · ", args)
            };
            let mut ins = join("/", name);
            ins.append(" ");
            items.push(Suggestion { display: join("/", name), desc: d, insert: ins });
            assert(svs(items@) =~= before.push(f(names[i as int])));
        }
        assert(svs(items@) =~= names.take(i + 1).filter(p).map_values(f));
        i += 1;
    }
    assert(names.take(8) =~= names);
    Suggestions::new(SuggestKind::Command, items)
}

/// The characters present in the current scene, as `(id, name)`.
pub open spec fn scene_characters(e: ContentEngine, save: Save) -> Seq<(Seq<char>, Seq<char>)> {
    e.spec_characters_in_scene(save.current_chapter@, save.current_scene@).map_values(
        |c: Character| (c.id@, c.name@),
    )
}

/// The move destinations without the pseudo-exits (`__` ids).
pub open spec fn real_destinations(e: ContentEngine, save: Save) -> Seq<(Seq<char>, Seq<char>)> {
    spec_move_options(e, save).filter(|p: (Seq<char>, Seq<char>)| !seq_starts_with(p.0, "__"@))
}

/// Argument completions of a known command: characters present (`ask`),
/// askable topics of the named character (`ask x`), characters still to be
/// judged (`judge`), destinations (`move`), filtered by the token being
/// typed.
pub open spec fn spec_arg_suggestions(toks: Seq<Seq<char>>, ends_space: bool, e: ContentEngine, save: Save) -> Option<
    (SuggestKind, Seq<SuggView>, usize),
> {
    if toks.len() == 0 {
        None
    } else {
        let verb = drop_slashes(toks[0]);
        if !command_names().contains(verb) {
            None
        } else {
            let partial = if ends_space {
                Seq::empty()
            } else {
                toks.last()
            };
            let pos = if ends_space {
                toks.len() as int
            } else {
                toks.len() - 1
            };
            if verb == "ask"@ && pos == 1 {
                made(SuggestKind::Character, spec_filter_opts(scene_characters(e, save), partial))
            } else if verb == "ask"@ && pos == 2 {
                made(SuggestKind::Topic, spec_filter_opts(spec_ask_topic_options(e, save, toks[1]), partial))
            } else if verb == "judge"@ && pos == 1 {
                made(SuggestKind::Character, spec_filter_opts(spec_unjudged(e, save), partial))
            } else if verb == "move"@ && pos == 1 {
                made(SuggestKind::Scene, spec_filter_opts(real_destinations(e, save), partial))
            } else {
                None
            }
        }
    }
}

/// The pop-up for the line being typed: command names after a lone leading
/// slash, else the arguments of a known command; nothing for a blank line.
pub open spec fn spec_suggestions(input: Seq<char>, e: ContentEngine, save: Save) -> Option<
    (SuggestKind, Seq<SuggView>, usize),
> {
    let t = trim_start_seq(input);
    if t.len() == 0 {
        None
    } else {
        let ends_space = seq_ends_with(input, " "@);
        let toks = tokens(t);
        if toks.len() <= 1 && !ends_space && seq_starts_with(t, "/"@) {
            spec_command_suggestions(t.skip(1))
        } else {
            spec_arg_suggestions(toks, ends_space, e, save)
        }
    }
}

fn character_pairs(engine: &ContentEngine, save: &Save) -> (r: Vec<(String, String)>)
    ensures
        pairs(r@) == scene_characters(*engine, *save),
{
    let cs = engine.get_characters_in_scene(save.current_chapter.as_str(), save.current_scene.as_str());
    let ghost chars = cs@.map_values(|c: &Character| *c);
    let mut out: Vec<(String, String)> = Vec::new();
    let mut i: usize = 0;
    while i < cs.len()
        invariant
            i <= cs@.len(),
            chars == cs@.map_values(|c: &Character| *c),
            pairs(out@) == chars.take(i as int).map_values(|c: Character| (c.id@, c.name@)),
        decreases cs@.len() - i,
    {
        let ghost before = pairs(out@);
        out.push((owned(cs[i].id.as_str()), owned(cs[i].name.as_str())));
        assert(chars.take(i + 1) =~= chars.take(i as int).push(chars[i as int]));
        assert(pairs(out@) =~= before.push((chars[i as int].id@, chars[i as int].name@)));
        assert(pairs(out@) =~= chars.take(i + 1).map_values(|c: Character| (c.id@, c.name@)));
        i += 1;
    }
    assert(chars.take(chars.len() as int) =~= chars);
    out
}

fn destinations(engine: &ContentEngine, save: &Save) -> (r: Vec<(String, String)>)
    ensures
        pairs(r@) == real_destinations(*engine, *save),
{
    let all = move_options(engine, save);
    let ghost ps = pairs(all@);
    let ghost p = |p: (Seq<char>, Seq<char>)| !seq_starts_with(p.0, "__"@);
    let mut out: Vec<(String, String)> = Vec::new();
    let mut i: usize = 0;
    while i < all.len()
        invariant
            i <= all@.len(),
            ps == pairs(all@),
            ps == spec_move_options(*engine, *save),
            p == (|p: (Seq<char>, Seq<char>)| !seq_starts_with(p.0, "__"@)),
            pairs(out@) == ps.take(i as int).filter(p),
        decreases all@.len() - i,
    {
        proof {
            assert(ps.take(i + 1) =~= ps.take(i as int).push(ps[i as int]));
            ps.take(i as int).lemma_filter_push(ps[i as int], p);
        }
        let ghost before = pairs(out@);
        if !starts_with(all[i].0.as_str(), "__") {
            out.push((owned(all[i].0.as_str()), owned(all[i].1.as_str())));
            assert(pairs(out@) =~= before.push(ps[i as int]));
        }
        i += 1;
    }
    assert(ps.take(ps.len() as int) =~= ps);
    out
}

/// Argument completions for the tokens typed so far.
pub fn arg_suggestions(toks: &Vec<String>, ends_space: bool, engine: &ContentEngine, save: &Save) -> (r:
    Option<Suggestions>)
    ensures
        pop_view(r) == spec_arg_suggestions(strs(toks@), ends_space, *engine, *save),
{
    let ghost ts = strs(toks@);
    if toks.len() == 0 {
        return None;
    }
    let verb = trim_slashes(toks[0].as_str());
    if !is_known(verb) {
        return None;
    }
    let n = toks.len();
    let partial: &str = if ends_space {
        ""
    } else {
        toks[n - 1].as_str()
    };
    proof {
        reveal_strlit("");
        assert(ts[n - 1] == toks@[n - 1]@);
    }
    assert(partial@ == if ends_space { Seq::<char>::empty() } else { ts.last() });
    let pos: usize = if ends_space {
        n
    } else {
        n - 1
    };
    if crate::text::str_eq(verb, "ask") && pos == 1 {
        let cands = character_pairs(engine, save);
        Suggestions::new(SuggestKind::Character, filter_opts(cands, partial))
    } else if crate::text::str_eq(verb, "ask") && pos == 2 {
        let cands = ask_topic_options(engine, save, toks[1].as_str());
        Suggestions::new(SuggestKind::Topic, filter_opts(cands, partial))
    } else if crate::text::str_eq(verb, "judge") && pos == 1 {
        let cands = unjudged_character_options(engine, save);
        Suggestions::new(SuggestKind::Character, filter_opts(cands, partial))
    } else if crate::text::str_eq(verb, "move") && pos == 1 {
        let cands = destinations(engine, save);
        Suggestions::new(SuggestKind::Scene, filter_opts(cands, partial))
    } else {
        None
    }
}

/// The completion pop-up for the line being typed.
pub fn compute_suggestions(input: &str, engine: &ContentEngine, save: &Save) -> (r: Option<Suggestions>)
    ensures
        pop_view(r) == spec_suggestions(input@, *engine, *save),
{
    let trimmed = trim_start(input);
    if trimmed.unicode_len() == 0 {
        return None;
    }
    let ends_space = ends_with(input, " ");
    let toks = split_ws(trimmed);
    assert(strs(toks@) == tokens(trimmed@));
    if toks.len() <= 1 && !ends_space && starts_with(trimmed, "/") {
        proof {
            reveal_strlit("/");
        }
        let query = trimmed.substring_char(1, trimmed.unicode_len());
        assert(query@ =~= trimmed@.skip(1));
        return command_suggestions(query);
    }
    arg_suggestions(&toks, ends_space, engine, save)
}

} // verus!
