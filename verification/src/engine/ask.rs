//! `ask`: the character and topic menus, the dialogue snapshot and the
//! clues a dialogue gives.

use vstd::prelude::*;

use crate::content::condition::{spec_topic_visible, topic_visible};
use crate::content::engine::ContentEngine;
use crate::content::models::{get_key_in, lookup_key, Character, Clue};
use crate::engine::condition::{build_factset, spec_factset};
use crate::engine::logic::{askable, ask_topic_options, pairs, spec_ask_topic_options};
use crate::engine::outcome::{MenuKind, MenuOption, Outcome, SessionState};
use crate::engine::state::{menu_offered, menu_shows, FollowUp, PendingAction, Session, clone_options, info_line, is_info};
use crate::save::backend::SaveBackend;
use crate::save::schema::{Save, ViewedDialogue};
use crate::save::snapshot::dialogue_snapshot_path;
use crate::text::{join, join3, owned, str_eq, strs};
use crate::engine::commands::opt_view;
use crate::world::World;

verus! {

/// `t` is one of the characters present in the current scene.
pub open spec fn in_scene(e: ContentEngine, save: Save, t: Seq<char>) -> bool {
    let chars = e.spec_characters_in_scene(save.current_chapter@, save.current_scene@);
    exists|i: int| 0 <= i < chars.len() && #[trigger] chars[i].id@ == t
}

/// Asking `character` about `topic` in `world` gives clue `c`.
pub open spec fn clue_from(c: Clue, character: Seq<char>, topic: Seq<char>, world: World) -> bool {
    c.source@ == character + "."@ + topic && c.world == world
}

/// The topic can be asked now: it is one of the character's topics in this
/// chapter, visible under the facts, with a text on this side.
pub open spec fn ask_ready(e: ContentEngine, save: Save, character: Seq<char>, topic: Seq<char>) -> bool {
    &&& lookup_key(e.spec_topics(save.current_chapter@, character), topic) matches Some(t)
        && spec_topic_visible(t, spec_factset(save))
    &&& e.spec_dialogue(save.current_chapter@, character, topic, save.current_world) is Some
}

/// The dialogue `character`/`topic`/`world` is among the chapter's viewed
/// dialogues.
pub open spec fn viewed(save: Save, ch: Seq<char>, character: Seq<char>, topic: Seq<char>, world: World) -> bool {
    save.viewed_dialogues@.contains_key(ch) && exists|i: int|
        0 <= i < save.viewed_dialogues@[ch]@.len() && #[trigger] save.viewed_dialogues@[ch]@[i].character@
            == character && save.viewed_dialogues@[ch]@[i].topic@ == topic && save.viewed_dialogues@[ch]@[i].world
            == world
}

/// The chapter's collected clue ids (none when the chapter has no entry).
pub open spec fn clue_list(save: Save, ch: Seq<char>) -> Seq<Seq<char>> {
    if save.collected_clues@.contains_key(ch) {
        strs(save.collected_clues@[ch]@)
    } else {
        Seq::empty()
    }
}

/// The chapter's viewed dialogues (none when the chapter has no entry).
pub open spec fn view_list(save: Save, ch: Seq<char>) -> Seq<ViewedDialogue> {
    if save.viewed_dialogues@.contains_key(ch) {
        save.viewed_dialogues@[ch]@
    } else {
        Seq::empty()
    }
}

/// The clue ids `held` after asking `character` about `topic` in `world`:
/// the first `n` clues of the chapter are taken in order, and each one the
/// dialogue gives is appended unless it is already held.
pub open spec fn collect_from(
    clues: Seq<Clue>,
    n: int,
    held: Seq<Seq<char>>,
    character: Seq<char>,
    topic: Seq<char>,
    world: World,
) -> Seq<Seq<char>>
    decreases n,
{
    if n <= 0 {
        held
    } else {
        let acc = collect_from(clues, n - 1, held, character, topic, world);
        if clue_from(clues[n - 1], character, topic, world) && !acc.contains(clues[n - 1].id@) {
            acc.push(clues[n - 1].id@)
        } else {
            acc
        }
    }
}

/// The record of a dialogue view: the chapter's list is unchanged when the
/// dialogue was viewed before, else it gains one entry for it at the end.
pub open spec fn view_recorded(before: Save, after: Save, ch: Seq<char>, character: Seq<char>, topic: Seq<char>, world: World) -> bool {
    if viewed(before, ch, character, topic, world) {
        view_list(after, ch) == view_list(before, ch)
    } else {
        view_list(after, ch).len() == view_list(before, ch).len() + 1 && view_list(after, ch).drop_last()
            == view_list(before, ch) && view_list(after, ch).last().character@ == character && view_list(
            after,
            ch,
        ).last().topic@ == topic && view_list(after, ch).last().world == world
    }
}

/// The dialogue text is what the answer shows: the dialogue itself, or a
/// narrative that interrupts it and is followed by it.
pub open spec fn dialogue_shown(r: Outcome, pending: PendingAction, text: Seq<char>) -> bool {
    match r {
        Outcome::Dialogue { body, .. } => body@ == text,
        Outcome::Narrative { .. } => match pending {
            PendingAction::Narrative { follow_up: Some(FollowUp::Show(Outcome::Dialogue { body, .. })) } => body@
                == text,
            _ => false,
        },
        _ => false,
    }
}

/// What asking a ready topic leaves in the save: the dialogue is viewed,
/// recorded once; the clues it gives that were not held yet are appended in
/// the chapter's order; the topic is discovered; and the position did not
/// move.
pub open spec fn asked(e: ContentEngine, before: Save, after: Save, character: Seq<char>, topic: Seq<char>) -> bool {
    let ch = before.current_chapter@;
    &&& viewed(after, ch, character, topic, before.current_world)
    &&& view_recorded(before, after, ch, character, topic, before.current_world)
    &&& clue_list(after, ch) == collect_from(
        e.spec_clues(ch),
        e.spec_clues(ch).len() as int,
        clue_list(before, ch),
        character,
        topic,
        before.current_world,
    )
    &&& forall|i: int|
        0 <= i < e.spec_clues(ch).len() && clue_from(e.spec_clues(ch)[i], character, topic, before.current_world)
            ==> after.spec_has_clue(ch, #[trigger] e.spec_clues(ch)[i].id@)
    &&& forall|x: Seq<char>| before.spec_has_clue(ch, x) ==> #[trigger] after.spec_has_clue(ch, x)
    &&& after.discovered.topics@.contains_key(ch)
    &&& strs(after.discovered.topics@[ch]@).contains(character + "."@ + topic)
    &&& after.current_chapter == before.current_chapter
    &&& after.current_scene == before.current_scene
    &&& after.current_world == before.current_world
    &&& after.chapter_path == before.chapter_path
    &&& after.checkpoints == before.checkpoints
}

/// The characters present, as menu items `(id, name)`, in order.
pub open spec fn present_menu(present: Seq<Character>) -> Seq<(Seq<char>, Seq<char>)> {
    present.map_values(|c: Character| (c.id@, c.name@))
}

/// What `ask` does: without a target, the menu of the characters present
/// (a note when there are none); a target that is not present is refused;
/// with a target only, the menu of its topics that can be asked now (a
/// note when there are none); with a topic, the topic is asked (see
/// [`topic_answer`]).
pub open spec fn ask_answer<B: SaveBackend>(
    target: Option<Seq<char>>,
    topic: Option<Seq<char>>,
    r: Outcome,
    before: Session<B>,
    after: Session<B>,
) -> bool {
    let present = before.engine.spec_characters_in_scene(before.save.current_chapter@, before.save.current_scene@);
    &&& after.engine == before.engine
    &&& target is None && present.len() == 0 ==> is_info(r, "这里没有任何可以询问的角色。"@) && after == before
    &&& target is None && present.len() > 0 ==> (r matches Outcome::MenuRequested { kind, .. } && kind
        == MenuKind::AskCharacter) && menu_offered(r, after.pending, present_menu(present))
        && after.state == SessionState::ChoosingAskCharacter && after.save == before.save
    &&& target is Some && !in_scene(before.engine, before.save, target->0) ==> is_info(r, "这里没有这个角色。"@)
        && after == before
    &&& target is Some && in_scene(before.engine, before.save, target->0) && topic is None && spec_ask_topic_options(
        before.engine,
        before.save,
        target->0,
    ).len() == 0 ==> is_info(r, "没有可以问的。"@) && after == before
    &&& target is Some && in_scene(before.engine, before.save, target->0) && topic is None && spec_ask_topic_options(
        before.engine,
        before.save,
        target->0,
    ).len() > 0 ==> (r matches Outcome::MenuRequested { kind, options, .. } && kind == MenuKind::AskTopic
        && menu_shows(options@, spec_ask_topic_options(before.engine, before.save, target->0))) && (after.pending
        matches PendingAction::AskTopic { character, options } && character@ == target->0 && menu_shows(
        options@,
        spec_ask_topic_options(before.engine, before.save, target->0),
    )) && after.state == SessionState::ChoosingAskTopic && after.save == before.save
    &&& target is Some && in_scene(before.engine, before.save, target->0) && topic is Some ==> topic_answer(
        target->0,
        topic->0,
        r,
        before,
        after,
    )
}

/// What asking `character` about `topic` does: refused with nothing changed
/// while the topic is unknown or locked, or has no text on this side;
/// otherwise the dialogue is recorded and shown.
pub open spec fn topic_answer<B: SaveBackend>(
    character: Seq<char>,
    topic: Seq<char>,
    r: Outcome,
    before: Session<B>,
    after: Session<B>,
) -> bool {
    let ch = before.save.current_chapter@;
    let found = lookup_key(before.engine.spec_topics(ch, character), topic);
    &&& after.engine == before.engine
    &&& !(found matches Some(t) && spec_topic_visible(t, spec_factset(before.save))) ==> is_info(
        r,
        "你还没有足够线索。"@,
    ) && after == before
    &&& (found matches Some(t) && spec_topic_visible(t, spec_factset(before.save))) && before.engine.spec_dialogue(
        ch,
        character,
        topic,
        before.save.current_world,
    ) is None ==> is_info(r, "这个话题在这一侧无从问起。"@) && after == before
    &&& ask_ready(before.engine, before.save, character, topic) ==> asked(
        before.engine,
        before.save,
        after.save,
        character,
        topic,
    ) && dialogue_shown(
        r,
        after.pending,
        before.engine.spec_dialogue(ch, character, topic, before.save.current_world)->0,
    )
}

/// Menu option `o` is one of `character`'s topics under its own label, and
/// that topic is unlocked under the save's facts and has a version in the
/// current world.
pub open spec fn shows_open_topic(e: ContentEngine, save: Save, character: Seq<char>, o: MenuOption) -> bool {
    let ch = save.current_chapter@;
    let ts = e.spec_topics(ch, character);
    exists|m: int|
        0 <= m < ts.len() && #[trigger] ts[m].id@ == o.id@ && ts[m].label@ == o.label@ && spec_topic_visible(
            ts[m],
            spec_factset(save),
        ) && e.spec_dialogue(ch, character, ts[m].id@, save.current_world) is Some
}

/// Options that show the topics that can be asked now are, in data order,
/// exactly the character's topics that are unlocked and have a version in
/// the current world, each under its own label.
proof fn lemma_topic_options_open(e: ContentEngine, save: Save, character: Seq<char>, opts: Seq<MenuOption>)
    requires
        menu_shows(opts, spec_ask_topic_options(e, save, character)),
    ensures
        forall|i: int| 0 <= i < opts.len() ==> #[trigger] shows_open_topic(e, save, character, opts[i]),
        forall|m: int|
            0 <= m < e.spec_topics(save.current_chapter@, character).len() && spec_topic_visible(
                #[trigger] e.spec_topics(save.current_chapter@, character)[m],
                spec_factset(save),
            ) && e.spec_dialogue(
                save.current_chapter@,
                character,
                e.spec_topics(save.current_chapter@, character)[m].id@,
                save.current_world,
            ) is Some ==> exists|i: int|
                0 <= i < opts.len() && #[trigger] opts[i].id@ == e.spec_topics(save.current_chapter@, character)[m].id@,
{
    let ch = save.current_chapter@;
    let ts = e.spec_topics(ch, character);
    let p = |t: crate::content::models::Topic| askable(e, save, character, t);
    let f = |t: crate::content::models::Topic| (t.id@, t.label@);
    let fl = ts.filter(p);
    ts.filter_lemma(p);
    let items = spec_ask_topic_options(e, save, character);
    assert(items == fl.map_values(f));
    assert forall|i: int| 0 <= i < opts.len() implies #[trigger] shows_open_topic(e, save, character, opts[i]) by {
        assert(opts[i].id@ == items[i].0);
        assert(opts[i].label@ == items[i].1);
        assert(p(fl[i]));
        assert(fl.contains(fl[i]));
        ts.lemma_filter_contains_rev(p, fl[i]);
        let m = choose|m: int| 0 <= m < ts.len() && ts[m] == fl[i];
        assert(ts[m].id@ == opts[i].id@);
    }
    assert forall|m: int| 0 <= m < ts.len() && spec_topic_visible(#[trigger] ts[m], spec_factset(save))
        && e.spec_dialogue(ch, character, ts[m].id@, save.current_world) is Some implies exists|i: int|
        0 <= i < opts.len() && #[trigger] opts[i].id@ == ts[m].id@ by {
        assert(p(ts[m]));
        assert(fl.contains(ts[m]));
        let i = choose|i: int| 0 <= i < fl.len() && fl[i] == ts[m];
        assert(opts[i].id@ == items[i].0);
    }
}

/// Asking a present character without a topic offers, in data order,
/// exactly the character's topics that are unlocked under the save's facts
/// and have a version in the current world, each under its own label; the
/// pending menu, which a choice is read from, holds the same options for
/// that character.
pub proof fn lemma_ask_topic_menu<B: SaveBackend>(
    character: Seq<char>,
    r: Outcome,
    before: Session<B>,
    after: Session<B>,
)
    requires
        ask_answer(Some(character), None, r, before, after),
        in_scene(before.engine, before.save, character),
        r is MenuRequested,
    ensures
        forall|i: int| 0 <= i < r->MenuRequested_options@.len() ==> #[trigger] shows_open_topic(
            before.engine,
            before.save,
            character,
            r->MenuRequested_options@[i],
        ),
        forall|m: int|
            0 <= m < before.engine.spec_topics(before.save.current_chapter@, character).len() && spec_topic_visible(
                #[trigger] before.engine.spec_topics(before.save.current_chapter@, character)[m],
                spec_factset(before.save),
            ) && before.engine.spec_dialogue(
                before.save.current_chapter@,
                character,
                before.engine.spec_topics(before.save.current_chapter@, character)[m].id@,
                before.save.current_world,
            ) is Some ==> exists|i: int|
                0 <= i < r->MenuRequested_options@.len() && #[trigger] r->MenuRequested_options@[i].id@
                    == before.engine.spec_topics(before.save.current_chapter@, character)[m].id@,
        after.pending matches PendingAction::AskTopic { character: c, options } && c@ == character
            && options@.len() == r->MenuRequested_options@.len() && forall|i: int|
            0 <= i < options@.len() ==> #[trigger] options@[i].id@ == r->MenuRequested_options@[i].id@
                && options@[i].label@ == r->MenuRequested_options@[i].label@,
{
    let e = before.engine;
    let save = before.save;
    let opts = r->MenuRequested_options@;
    let items = spec_ask_topic_options(e, save, character);
    let ok = menu_shows(opts, items) && after.pending is AskTopic && after.pending->AskTopic_character@ == character
        && menu_shows(after.pending->AskTopic_options@, items);
    assert(ok) by {
        if items.len() == 0 {
            assert(is_info(r, "没有可以问的。"@));
        }
    }
    lemma_topic_options_open(e, save, character, opts);
    let po = after.pending->AskTopic_options@;
    assert forall|i: int| 0 <= i < po.len() implies #[trigger] po[i].id@ == opts[i].id@ && po[i].label@
        == opts[i].label@ by {
        assert(po[i].id@ == items[i].0 && po[i].label@ == items[i].1);
        assert(opts[i].id@ == items[i].0 && opts[i].label@ == items[i].1);
    }
}

impl<B: SaveBackend> Session<B> {
    /// `ask`: without a target, the menu of characters present; with a
    /// target only, the menu of its topics that can be asked now; with both,
    /// the dialogue.
    #[verifier::spinoff_prover]
    pub(crate) fn do_ask(&mut self, target: Option<String>, topic: Option<String>) -> (r: Outcome)
        requires
            old(self).inv(),
        ensures
            final(self).inv(),
            ask_answer(opt_view(target), opt_view(topic), r, *old(self), *final(self)),
    {
        let ch = owned(self.save.current_chapter.as_str());
        let scene = owned(self.save.current_scene.as_str());
        let chars = self.engine.get_characters_in_scene(ch.as_str(), scene.as_str());
        let ghost cs = self.engine.spec_characters_in_scene(ch@, scene@);
        assert(chars@.map_values(|c: &Character| *c) == cs);
        assert(chars@.len() == cs.len());
        match target {
            None => {
                if chars.len() == 0 {
                    return info_line("这里没有任何可以询问的角色。");
                }
                let mut options: Vec<MenuOption> = Vec::new();
                let mut i: usize = 0;
                while i < chars.len()
                    invariant
                        i <= chars@.len(),
                        chars@.map_values(|c: &Character| *c) == cs,
                        options@.len() == i,
                        forall|k: int| 0 <= k < i ==> #[trigger] options@[k].id@ == cs[k].id@ && options@[k].label@
                            == cs[k].name@,
                    decreases chars@.len() - i,
                {
                    assert(cs[i as int] == *chars@[i as int]);
                    options.push(MenuOption { id: owned(chars[i].id.as_str()), label: owned(chars[i].name.as_str()) });
                    i += 1;
                }
                let shown = clone_options(&options);
                proof {
                    assert(menu_shows(options@, present_menu(cs)));
                    assert(menu_shows(shown@, present_menu(cs)));
                }
                self.set_menu(MenuKind::AskCharacter, options);
                self.state = SessionState::ChoosingAskCharacter;
                Outcome::MenuRequested { kind: MenuKind::AskCharacter, prompt: owned("询问谁？"), options: shown }
            },
            Some(t) => {
                let mut present = false;
                let mut i: usize = 0;
                while i < chars.len()
                    invariant
                        i <= chars@.len(),
                        chars@.map_values(|c: &Character| *c) == cs,
                        present <==> exists|k: int| 0 <= k < i && #[trigger] cs[k].id@ == t@,
                    decreases chars@.len() - i,
                {
                    assert(cs[i as int] == *chars@[i as int]);
                    if str_eq(chars[i].id.as_str(), t.as_str()) {
                        present = true;
                    }
                    i += 1;
                }
                if !present {
                    return info_line("这里没有这个角色。");
                }
                match topic {
                    None => {
                        let topics = ask_topic_options(&self.engine, &self.save, t.as_str());
                        if topics.len() == 0 {
                            return info_line("没有可以问的。");
                        }
                        let mut options: Vec<MenuOption> = Vec::new();
                        let mut k: usize = 0;
                        while k < topics.len()
                            invariant
                                k <= topics@.len(),
                                options@.len() == k,
                                forall|m: int| 0 <= m < k ==> #[trigger] options@[m].id@ == pairs(topics@)[m].0
                                    && options@[m].label@ == pairs(topics@)[m].1,
                            decreases topics@.len() - k,
                        {
                            options.push(MenuOption { id: owned(topics[k].0.as_str()), label: owned(topics[k].1.as_str()) });
                            k += 1;
                        }
                        let shown = clone_options(&options);
                        self.pending = PendingAction::AskTopic { character: t, options };
                        self.state = SessionState::ChoosingAskTopic;
                        Outcome::MenuRequested { kind: MenuKind::AskTopic, prompt: owned("问什么？"), options: shown }
                    },
                    Some(p) => self.ask_topic(t.as_str(), p.as_str()),
                }
            },
        }
    }

    /// Ask `character` about `topic`: refused while the topic is unknown or
    /// locked, or has no text on this side; otherwise the dialogue is
    /// recorded, its clues collected and the topic discovered.
    pub(crate) fn ask_topic(&mut self, character: &str, topic: &str) -> (r: Outcome)
        requires
            old(self).inv(),
        ensures
            final(self).inv(),
            topic_answer(character@, topic@, r, *old(self), *final(self)),
    {
        let ch = owned(self.save.current_chapter.as_str());
        let world = self.save.current_world;
        let facts = build_factset(&self.save);
        let topics = self.engine.get_topics(ch.as_str(), character);
        let t = match get_key_in(topics, topic) {
            Some(t) => t,
            None => {
                return info_line("你还没有足够线索。");
            },
        };
        if !topic_visible(t, &facts) {
            return info_line("你还没有足够线索。");
        }
        let label = owned(t.label.as_str());
        let body = match self.engine.get_dialogue(ch.as_str(), character, topic, world) {
            Some(b) => owned(b),
            None => {
                return info_line("这个话题在这一侧无从问起。");
            },
        };
        let ghost s0 = self.save;
        let mut notes: Vec<String> = Vec::new();
        self.record_dialogue_view(ch.as_str(), character, topic, world, body.as_str(), &mut notes);
        let ghost s1 = self.save;
        let collected_new = self.collect_clues(ch.as_str(), character, topic, world, &mut notes);
        let ghost s2 = self.save;
        self.save.discovered.add_topic(ch.as_str(), character, topic);
        proof {
            let d = strs(self.save.discovered.topics@[ch@]@);
            let key = character@ + "."@ + topic@;
            if d.len() > 0 && d.last() == key {
                assert(d[d.len() - 1] == key);
            }
        }
        self.persist();
        self.pending = PendingAction::Idle;
        self.state = SessionState::Exploring;
        match self.hint_after_ask(world, collected_new) {
            Some(h) => notes.push(h),
            None => {},
        }
        let name = match self.engine.get_character(character) {
            Some(c) => owned(c.name.as_str()),
            None => owned(character),
        };
        let mut header = join3(name.as_str(), " - ", label.as_str());
        header.append(" [");
        header.append(world.label());
        header.append("]");
        let r = self.then_narrative(Outcome::Dialogue { header, body, notes });
        proof {
            assert forall|x: Seq<char>| s0.spec_has_clue(ch@, x) implies #[trigger] self.save.spec_has_clue(ch@, x) by {
                assert(s1.spec_has_clue(ch@, x));
                assert(s2.spec_has_clue(ch@, x));
            }
        }
        r
    }

    /// Record a dialogue as viewed (its snapshot written) unless it already
    /// is.
    fn record_dialogue_view(
        &mut self,
        ch: &str,
        character: &str,
        topic: &str,
        world: World,
        body: &str,
        notes: &mut Vec<String>,
    )
        ensures
            viewed(final(self).save, ch@, character@, topic@, world),
            view_recorded(old(self).save, final(self).save, ch@, character@, topic@, world),
            final(self).save == (Save { viewed_dialogues: final(self).save.viewed_dialogues, ..old(self).save }),
            forall|k: Seq<char>| k != ch@ ==> (#[trigger] final(self).save.viewed_dialogues@.contains_key(k)
                == old(self).save.viewed_dialogues@.contains_key(k)) && (old(self).save.viewed_dialogues@.contains_key(k)
                ==> final(self).save.viewed_dialogues@[k] == old(self).save.viewed_dialogues@[k]),
            final(self).engine == old(self).engine,
            final(self).state == old(self).state,
            final(self).pending == old(self).pending,
            final(self).hints == old(self).hints,
    {
        let already = match self.save.viewed_dialogues.get(ch) {
            Some(v) => {
                let mut found = false;
                let mut i: usize = 0;
                while i < v.len()
                    invariant
                        i <= v@.len(),
                        self.save.viewed_dialogues@.contains_key(ch@),
                        *v == self.save.viewed_dialogues@[ch@],
                        self.save == old(self).save,
                        found <==> exists|k: int| 0 <= k < i && #[trigger] v@[k].character@ == character@
                            && v@[k].topic@ == topic@ && v@[k].world == world,
                    decreases v@.len() - i,
                {
                    if str_eq(v[i].character.as_str(), character) && str_eq(v[i].topic.as_str(), topic)
                        && v[i].world == world {
                        assert(v@[i as int].character@ == character@);
                        found = true;
                    }
                    i += 1;
                }
                found
            },
            None => false,
        };
        if already {
            return;
        }
        assert(!viewed(self.save, ch@, character@, topic@, world));
        let rel = dialogue_snapshot_path(ch, character, topic, world);
        match self.store.write_snapshot(rel.as_str(), body) {
            Ok(_) => {},
            Err(e) => {
                let mut note = join("（快照写入失败：", e.describe().as_str());
                note.append("）");
                notes.push(note);
            },
        }
        let views = self.save.views_mut(ch);
        views.push(ViewedDialogue { character: owned(character), topic: owned(topic), world, snapshot: rel });
        proof {
            let v = self.save.viewed_dialogues@[ch@]@;
            assert(v[v.len() - 1].character@ == character@);
            assert(v.drop_last() =~= view_list(old(self).save, ch@));
        }
        notes.push(owned("[对话已记录到 note]"));
    }

    /// Collect the clues the dialogue gives that are not collected yet;
    /// `true` when at least one was new.
    fn collect_clues(
        &mut self,
        ch: &str,
        character: &str,
        topic: &str,
        world: World,
        notes: &mut Vec<String>,
    ) -> (r: bool)
        ensures
            forall|i: int|
                0 <= i < old(self).engine.spec_clues(ch@).len() && clue_from(
                    old(self).engine.spec_clues(ch@)[i],
                    character@,
                    topic@,
                    world,
                ) ==> final(self).save.spec_has_clue(ch@, #[trigger] old(self).engine.spec_clues(ch@)[i].id@),
            forall|x: Seq<char>| old(self).save.spec_has_clue(ch@, x) ==> #[trigger] final(self).save.spec_has_clue(ch@, x),
            r <==> exists|i: int|
                0 <= i < old(self).engine.spec_clues(ch@).len() && clue_from(
                    old(self).engine.spec_clues(ch@)[i],
                    character@,
                    topic@,
                    world,
                ) && !old(self).save.spec_has_clue(ch@, #[trigger] old(self).engine.spec_clues(ch@)[i].id@),
            clue_list(final(self).save, ch@) == collect_from(
                old(self).engine.spec_clues(ch@),
                old(self).engine.spec_clues(ch@).len() as int,
                clue_list(old(self).save, ch@),
                character@,
                topic@,
                world,
            ),
            final(self).save == (Save { collected_clues: final(self).save.collected_clues, ..old(self).save }),
            final(self).engine == old(self).engine,
            final(self).state == old(self).state,
            final(self).pending == old(self).pending,
            final(self).hints == old(self).hints,
    {
        let ghost s0 = self.save;
        let src_key = join3(character, ".", topic);
        let clues = self.engine.get_clues(ch);
        let mut collected_new = false;
        let mut i: usize = 0;
        while i < clues.len()
            invariant
                i <= clues@.len(),
                clues@ == self.engine.spec_clues(ch@),
                src_key@ == character@ + "."@ + topic@,
                self.engine == old(self).engine,
                self.state == old(self).state,
                self.pending == old(self).pending,
                self.hints == old(self).hints,
                s0 == old(self).save,
                self.save == (Save { collected_clues: self.save.collected_clues, ..s0 }),
                clue_list(self.save, ch@) == collect_from(clues@, i as int, clue_list(s0, ch@), character@, topic@, world),
                forall|k: int| 0 <= k < i && clue_from(clues@[k], character@, topic@, world) ==> self.save.spec_has_clue(
                    ch@,
                    #[trigger] clues@[k].id@,
                ),
                forall|x: Seq<char>| s0.spec_has_clue(ch@, x) ==> #[trigger] self.save.spec_has_clue(ch@, x),
                forall|x: Seq<char>| #[trigger] self.save.spec_has_clue(ch@, x) ==> s0.spec_has_clue(ch@, x) || exists|k: int|
                    0 <= k < i && clue_from(clues@[k], character@, topic@, world) && clues@[k].id@ == x,
                collected_new <==> exists|k: int|
                    0 <= k < i && clue_from(clues@[k], character@, topic@, world) && !s0.spec_has_clue(
                        ch@,
                        #[trigger] clues@[k].id@,
                    ),
            decreases clues@.len() - i,
        {
            let c = &clues[i];
            if str_eq(c.source.as_str(), src_key.as_str()) && c.world == world && !self.save.has_clue(ch, c.id.as_str()) {
                let ghost before = self.save;
                let list = self.save.clues_mut(ch);
                list.push(owned(c.id.as_str()));
                proof {
                    let l = strs(self.save.collected_clues@[ch@]@);
                    assert(l[l.len() - 1] == c.id@);
                    assert(l =~= clue_list(before, ch@).push(c.id@));
                    assert forall|x: Seq<char>| before.spec_has_clue(ch@, x) implies #[trigger] self.save.spec_has_clue(ch@, x) by {
                        let l0 = strs(before.collected_clues@[ch@]@);
                        let j = choose|j: int| 0 <= j < l0.len() && l0[j] == x;
                        assert(l[j] == x);
                    }
                    assert forall|x: Seq<char>| #[trigger] self.save.spec_has_clue(ch@, x) implies before.spec_has_clue(ch@, x) || x == c.id@ by {
                        let j = choose|j: int| 0 <= j < l.len() && l[j] == x;
                        if j < l.len() - 1 {
                            let l0 = strs(before.collected_clues@[ch@]@);
                            assert(l0[j] == x);
                        }
                    }
                }
                collected_new = true;
            }
            i += 1;
        }
        if collected_new {
            notes.push(owned("[相关线索已收集]"));
        }
        collected_new
    }
}

} // verus!
