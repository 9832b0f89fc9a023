//! `move` and `gaze`, and the scene description they show.

use vstd::prelude::*;

use crate::content::engine::ContentEngine;
use crate::engine::logic::{leave_option, move_options, pairs, spec_move_options};
use crate::engine::outcome::{MenuKind, MenuOption, Message, Outcome, SessionState};
use crate::engine::state::{menu_offered, menu_shows, PendingAction, Session, clone_options, info_line, is_info};
use crate::engine::trigger::{leave_answer, lemma_next_narrative_same, next_narrative};
use crate::save::backend::SaveBackend;
use crate::save::schema::Save;
use crate::text::{join3, owned, str_eq, strs};
use crate::engine::commands::opt_view;
use crate::world::World;

verus! {

/// The description of the current scene as the current eye sees it, or a
/// notice that it is missing.
pub open spec fn description_or_missing(e: ContentEngine, save: Save) -> Seq<char> {
    match e.spec_scene_description(save.current_chapter@, save.current_scene@, save.current_world) {
        Some(t) => t,
        None => "（该视角的场景描述缺失）"@,
    }
}

/// Which eye sees a world.
pub open spec fn eye_label(w: World) -> Seq<char> {
    match w {
        World::Surface => "右眼·表面"@,
        World::Shadow => "左眼·影子"@,
    }
}

/// `dest` is a scene the player can walk to from here (the pseudo-exit
/// `__leave` is not a scene).
pub open spec fn can_move_to(e: ContentEngine, save: Save, dest: Seq<char>) -> bool {
    dest != "__leave"@ && exists|i: int|
        0 <= i < spec_move_options(e, save).len() && #[trigger] spec_move_options(e, save)[i].0 == dest
}

/// The current scene has a "leave town" attempt.
pub open spec fn has_exit_attempt(e: ContentEngine, save: Save) -> bool {
    crate::content::models::lookup_key(e.scenes@, save.current_scene@) matches Some(s) && s.exit_attempt is Some
}

/// Position of the first option with id `id`.
fn find_option(options: &Vec<(String, String)>, id: &str) -> (r: Option<usize>)
    ensures
        match r {
            Some(k) => k < options@.len() && pairs(options@)[k as int].0 == id@,
            None => forall|k: int| 0 <= k < options@.len() ==> #[trigger] pairs(options@)[k].0 != id@,
        },
{
    let mut i: usize = 0;
    while i < options.len()
        invariant
            i <= options@.len(),
            forall|k: int| 0 <= k < i ==> #[trigger] pairs(options@)[k].0 != id@,
        decreases options@.len() - i,
    {
        if str_eq(options[i].0.as_str(), id) {
            return Some(i);
        }
        i += 1;
    }
    None
}

/// What `gaze` does: the other eye opens (the world flips, chapter and
/// scene stay); unless a narrative comes due, the new view is announced
/// and described.
pub open spec fn gaze_answer<B: SaveBackend>(r: Outcome, before: Session<B>, after: Session<B>) -> bool {
    let moved = Save { current_world: before.save.current_world.spec_toggled(), ..before.save };
    &&& after.engine == before.engine
    &&& after.save.current_world != before.save.current_world
    &&& after.save.current_chapter == before.save.current_chapter
    &&& after.save.current_scene == before.save.current_scene
    &&& after.hints.gazed
    &&& next_narrative(before.engine, moved) is None ==> after.state == SessionState::Exploring && r is Message
        && strs(r->Message_0.lines@) == seq![
        "[切换到"@ + eye_label(moved.current_world) + "]"@,
        description_or_missing(before.engine, moved),
    ]
}

/// What `move` does: without a destination, the menu of destinations (a
/// note when there are none); a reachable scene is entered; anything else
/// but leaving town from an edge scene is refused.
pub open spec fn move_answer<B: SaveBackend>(dest: Option<Seq<char>>, r: Outcome, before: Session<B>, after: Session<B>) -> bool {
    &&& after.engine == before.engine
    &&& dest is None && spec_move_options(before.engine, before.save).len() == 0 ==> is_info(
        r,
        "这里没有可以前往的地方。"@,
    ) && after.save == before.save
    &&& dest is None && spec_move_options(before.engine, before.save).len() > 0 ==> (r matches Outcome::MenuRequested {
        kind,
        options,
        ..
    } && kind == MenuKind::MoveDestination && options@.len() == spec_move_options(before.engine, before.save).len())
        && menu_offered(r, after.pending, spec_move_options(before.engine, before.save))
        && after.state == SessionState::ChoosingMove && after.save == before.save
    &&& dest is Some && !can_move_to(before.engine, before.save, dest->0) && !(dest->0 == "__leave"@ && has_exit_attempt(
        before.engine,
        before.save,
    )) ==> is_info(r, "你现在无法前往那里。"@) && after.save == before.save && after.state == SessionState::Exploring
    &&& dest is Some && dest->0 == "__leave"@ && has_exit_attempt(before.engine, before.save) ==> leave_answer(
        r,
        before,
        after,
    )
    &&& dest is Some && can_move_to(before.engine, before.save, dest->0) ==> after.save.current_scene@ == dest->0
        && after.save.current_chapter == before.save.current_chapter && after.save.current_world
        == before.save.current_world
}

/// The scenes the scene graph lists as reachable from the current scene.
pub open spec fn reachable_from(e: ContentEngine, scene: Seq<char>) -> Seq<Seq<char>> {
    if e.reachable@.contains_key(scene) {
        strs(e.reachable@[scene]@)
    } else {
        Seq::empty()
    }
}

/// The destination menu that a bare `move` shows offers each existing scene
/// reachable from here under its own name, the pseudo-exit "try to leave
/// town" exactly when the scene has a leave attempt, and nothing else; the
/// pending menu, which a later selection is read from, holds the same
/// options.
pub proof fn lemma_move_menu<B: SaveBackend>(r: Outcome, before: Session<B>, after: Session<B>)
    requires
        move_answer(None, r, before, after),
        r is MenuRequested,
    ensures
        ({
            let e = before.engine;
            let reach = reachable_from(e, before.save.current_scene@);
            let opts = r->MenuRequested_options@;
            &&& forall|i: int| #![trigger opts[i]] 0 <= i < opts.len() ==> {
                ||| opts[i].id@ == "__leave"@ && opts[i].label@ == "试着离开镇子"@ && has_exit_attempt(e, before.save)
                ||| reach.contains(opts[i].id@) && crate::content::models::lookup_key(e.scenes@, opts[i].id@) is Some
                    && crate::content::models::lookup_key(e.scenes@, opts[i].id@)->0.name@ == opts[i].label@
            }
            &&& forall|k: int| 0 <= k < reach.len() && crate::content::models::lookup_key(e.scenes@, #[trigger] reach[k])
                is Some ==> exists|i: int| 0 <= i < opts.len() && #[trigger] opts[i].id@ == reach[k]
            &&& has_exit_attempt(e, before.save) ==> exists|i: int| 0 <= i < opts.len() && #[trigger] opts[i].id@
                == "__leave"@ && opts[i].label@ == "试着离开镇子"@
            &&& after.pending matches PendingAction::Menu { options, .. } && options@.len() == opts.len() && forall|i: int|
                0 <= i < opts.len() ==> #[trigger] options@[i].id@ == opts[i].id@ && options@[i].label@ == opts[i].label@
        }),
{
    let e = before.engine;
    let save = before.save;
    let reach = reachable_from(e, save.current_scene@);
    let opts = r->MenuRequested_options@;
    let p = |sid: Seq<char>| crate::content::models::lookup_key(e.scenes@, sid) is Some;
    let f = |sid: Seq<char>| (sid, crate::content::models::lookup_key(e.scenes@, sid)->0.name@);
    let fl = reach.filter(p);
    let base = fl.map_values(f);
    reach.filter_lemma(p);
    let items = spec_move_options(e, save);
    assert(items == if has_exit_attempt(e, save) { base.push(leave_option()) } else { base });
    assert forall|i: int| #![trigger opts[i]] 0 <= i < opts.len() implies {
        ||| opts[i].id@ == "__leave"@ && opts[i].label@ == "试着离开镇子"@ && has_exit_attempt(e, before.save)
        ||| reach.contains(opts[i].id@) && crate::content::models::lookup_key(e.scenes@, opts[i].id@) is Some
            && crate::content::models::lookup_key(e.scenes@, opts[i].id@)->0.name@ == opts[i].label@
    } by {
        assert(opts[i].id@ == items[i].0 && opts[i].label@ == items[i].1);
        if i < base.len() {
            assert(items[i] == base[i]);
            assert(p(fl[i]));
            assert(fl.contains(fl[i]));
            reach.lemma_filter_contains_rev(p, fl[i]);
        }
    }
    assert forall|k: int| 0 <= k < reach.len() && crate::content::models::lookup_key(e.scenes@, #[trigger] reach[k])
        is Some implies exists|i: int| 0 <= i < opts.len() && #[trigger] opts[i].id@ == reach[k] by {
        assert(p(reach[k]));
        assert(reach.contains(reach[k]));
        assert(fl.contains(reach[k]));
        let i = choose|i: int| 0 <= i < fl.len() && fl[i] == reach[k];
        assert(items[i] == base[i]);
        assert(opts[i].id@ == items[i].0);
    }
    if has_exit_attempt(e, save) {
        let i = base.len() as int;
        assert(items[i] == leave_option());
        assert(opts[i].id@ == items[i].0);
    }
}

/// The first attempt to leave town from a scene that has a leave attempt
/// shows, as the narrator's line, that scene's own exit-attempt text (nothing
/// else, such as its description), and the player stays in the scene.
pub proof fn lemma_first_leave_shows_exit_text<B: SaveBackend>(r: Outcome, before: Session<B>, after: Session<B>)
    requires
        move_answer(Some("__leave"@), r, before, after),
        has_exit_attempt(before.engine, before.save),
        !strs(before.save.discovered.triggers@).contains("leave_attempt"@),
        before.engine.exit_attempt_text@.contains_key(before.save.current_scene@),
    ensures
        r matches Outcome::Narrative { label, text } && label@ == "旁白"@ && text@
            == before.engine.exit_attempt_text@[before.save.current_scene@]@,
        after.save.current_scene == before.save.current_scene,
        after.save.current_chapter == before.save.current_chapter,
{
}

/// Once the attempt has been made, leaving town again answers only the short
/// line, and nothing changes.
pub proof fn lemma_later_leave_is_short<B: SaveBackend>(r: Outcome, before: Session<B>, after: Session<B>)
    requires
        move_answer(Some("__leave"@), r, before, after),
        has_exit_attempt(before.engine, before.save),
        strs(before.save.discovered.triggers@).contains("leave_attempt"@),
    ensures
        is_info(r, "你试着朝镇外走，脚步却把你带回原处。"@),
        after.save == before.save,
{
}

impl<B: SaveBackend> Session<B> {
    pub(crate) fn scene_description_text(&self) -> (r: String)
        ensures
            r@ == description_or_missing(self.engine, self.save),
    {
        match self.engine.get_scene_description(
            self.save.current_chapter.as_str(),
            self.save.current_scene.as_str(),
            self.save.current_world,
        ) {
            Some(t) => owned(t),
            None => owned("（该视角的场景描述缺失）"),
        }
    }

    pub(crate) fn scene_description_messages(&self) -> (r: Vec<String>)
        ensures
            strs(r@) == seq![description_or_missing(self.engine, self.save)],
    {
        let t = self.scene_description_text();
        let v = vec![t];
        assert(strs(v@) =~= seq![description_or_missing(self.engine, self.save)]);
        v
    }

    /// Switch eyes: the world flips, the save is written, and the scene is
    /// described as the other eye sees it (narrative items due come first).
    pub(crate) fn do_gaze(&mut self) -> (r: Outcome)
        requires
            old(self).inv(),
        ensures
            final(self).inv(),
            gaze_answer(r, *old(self), *final(self)),
    {
        self.note_gazed();
        let w = self.save.current_world.toggled();
        self.save.current_world = w;
        let ghost moved = self.save;
        self.persist();
        proof {
            lemma_next_narrative_same(self.engine, moved, self.save);
        }
        self.state = SessionState::Exploring;
        let eye = match w {
            World::Surface => "右眼·表面",
            World::Shadow => "左眼·影子",
        };
        let head = join3("[切换到", eye, "]");
        let desc = self.scene_description_text();
        let lines = vec![head, desc];
        let r = self.then_narrative(Outcome::Message(Message::info(lines)));
        proof {
            let before = *old(self);
            let moved2 = Save { current_world: before.save.current_world.spec_toggled(), ..before.save };
            assert(moved2 == moved);
            assert(next_narrative(before.engine, moved2) is None ==> self.state == SessionState::Exploring
                && r is Message && strs(r->Message_0.lines@) == seq![
                "[切换到"@ + eye_label(moved2.current_world) + "]"@,
                description_or_missing(before.engine, moved2),
            ]);
        }
        r
    }

    /// `move`: without a destination, the menu of destinations; `__leave`
    /// at an edge scene tries to leave town; a reachable scene is entered
    /// and described; anything else is refused.
    pub(crate) fn do_move(&mut self, dest: Option<String>) -> (r: Outcome)
        requires
            old(self).inv(),
        ensures
            final(self).inv(),
            move_answer(opt_view(dest), r, *old(self), *final(self)),
    {
        let options = move_options(&self.engine, &self.save);
        let ghost opts = spec_move_options(self.engine, self.save);
        match dest {
            None => {
                if options.len() == 0 {
                    return info_line("这里没有可以前往的地方。");
                }
                let mut menu: Vec<MenuOption> = Vec::new();
                let mut i: usize = 0;
                while i < options.len()
                    invariant
                        i <= options@.len(),
                        menu@.len() == i,
                        forall|k: int| 0 <= k < i ==> #[trigger] menu@[k].id@ == pairs(options@)[k].0
                            && menu@[k].label@ == pairs(options@)[k].1,
                    decreases options@.len() - i,
                {
                    menu.push(MenuOption { id: owned(options[i].0.as_str()), label: owned(options[i].1.as_str()) });
                    i += 1;
                }
                let shown = clone_options(&menu);
                self.set_menu(MenuKind::MoveDestination, menu);
                self.state = SessionState::ChoosingMove;
                Outcome::MenuRequested { kind: MenuKind::MoveDestination, prompt: owned("去哪里？"), options: shown }
            },
            Some(d) => {
                proof {
                    reveal_strlit("__leave");
                }
                if str_eq(d.as_str(), "__leave") && self.engine.scene_has_exit_attempt(self.save.current_scene.as_str()) {
                    self.pending = PendingAction::Idle;
                    self.state = SessionState::Exploring;
                    return self.attempt_leave();
                }
                let found = find_option(&options, d.as_str());
                let idx = match found {
                    Some(k) => k,
                    None => {
                        self.pending = PendingAction::Idle;
                        self.state = SessionState::Exploring;
                        return info_line("你现在无法前往那里。");
                    },
                };
                if str_eq(d.as_str(), "__leave") {
                    self.pending = PendingAction::Idle;
                    self.state = SessionState::Exploring;
                    return info_line("你现在无法前往那里。");
                }
                let name = owned(options[idx].1.as_str());
                self.save.current_scene = d;
                self.persist();
                self.pending = PendingAction::Idle;
                self.state = SessionState::Exploring;
                let head = join3("你来到了", name.as_str(), "。");
                let desc = self.scene_description_text();
                self.then_narrative(Outcome::Message(Message::info(vec![head, desc])))
            },
        }
    }
}

} // verus!
