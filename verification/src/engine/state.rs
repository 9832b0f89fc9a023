//! The session state machine: a [`Session`] holds the content, a save
//! backend and the working save, takes [`Input`] and gives [`Outcome`].
//!
//! This module holds the types, construction, the main dispatch and the small
//! shared helpers; the commands live in `ask`, `judge`, `navigation`, `map`
//! and `system`, chapter entry in `chapter_flow`, narrative triggers in
//! `trigger`, notes in `note_view` and first-chapter hints in `hints`. Every
//! error of an outside input becomes a readable outcome; nothing panics.

use vstd::prelude::*;

use crate::content::engine::ContentEngine;
use crate::engine::commands::{arg, help_for, help_overview, opt_view, parse, spec_help, spec_overview, Command, ParseOutcome};
use crate::engine::chapter_flow::{advanced, continued, extends, intro_acked, new_game_answer};
use crate::engine::map::rollback_answer;
use crate::engine::hints::Hints;
use crate::engine::ask::{ask_answer, topic_answer};
use crate::engine::judge::judge_answer;
use crate::engine::navigation::{gaze_answer, move_answer};
use crate::engine::map::map_answer;
use crate::engine::system::note_answer;
use crate::engine::trigger::next_narrative;
use crate::engine::outcome::{
    ConfirmationAction, Input, MenuKind, MenuOption, Message, MessageLevel, Outcome, Selection,
    SessionState,
};
use crate::save::backend::{holds_save, SaveBackend};
use crate::save::schema::{same_save, Save, CURRENT_VERSION};

use crate::text::{dec, join3, lower_seq, owned, str_eq, strs, tokens, trim_seq};

verus! {

/// What follows a run of narrative triggers once the last one is
/// acknowledged.
#[derive(Debug, Clone)]
pub enum FollowUp {
    /// Show this outcome (the one the narratives interrupted).
    Show(Outcome),
    /// Advance the chapter after a completed judgment.
    Advance { prelude: Option<String>, map_hint: Option<String> },
}

/// The interaction the session waits for.
#[derive(Debug, Clone)]
pub enum PendingAction {
    /// Nothing pending.
    Idle,
    Menu { kind: MenuKind, options: Vec<MenuOption> },
    AskTopic { character: String, options: Vec<MenuOption> },
    Intro { create_checkpoint: bool },
    Confirm(ConfirmationAction),
    Narrative { follow_up: Option<FollowUp> },
}

/// A game session.
pub struct Session<B: SaveBackend> {
    /// The loaded content.
    pub engine: ContentEngine,
    /// Where the save and the snapshots are written.
    pub store: B,
    /// The working save.
    pub save: Save,
    pub state: SessionState,
    /// What the current state waits for; see [`Session::inv`].
    pub pending: PendingAction,
    pub hints: Hints,
    /// The saves that the backend reported written, in order: each the
    /// working save of that moment with the current version and a fresh time.
    pub written: Ghost<Seq<Save>>,
}

/// `o` is a message of level `level` with exactly the lines `lines`.
pub open spec fn is_message(o: Outcome, level: MessageLevel, lines: Seq<Seq<char>>) -> bool {
    o matches Outcome::Message(m) && m.level == level && strs(m.lines@) == lines
}

/// `o` is an informational message of one line.
pub open spec fn is_info(o: Outcome, line: Seq<char>) -> bool {
    is_message(o, MessageLevel::Info, seq![line])
}

/// `o` is an error message of one line.
pub open spec fn is_error(o: Outcome, line: Seq<char>) -> bool {
    is_message(o, MessageLevel::Error, seq![line])
}

/// The answer to an unknown command name.
pub open spec fn unknown_command_line(name: Seq<char>) -> Seq<char> {
    "未知指令："@ + name + "。输入 help 查看可用指令。"@
}

/// The command word of a line: its first token, lower-cased.
pub open spec fn command_word(line: Seq<char>) -> Seq<char> {
    lower_seq(tokens(line)[0])
}

/// The names the command parser knows.
pub open spec fn known_command(name: Seq<char>) -> bool {
    name == "ask"@ || name == "judge"@ || name == "move"@ || name == "help"@ || no_arg_command(name)
}

/// The commands that take no argument.
pub open spec fn no_arg_command(name: Seq<char>) -> bool {
    name == "gaze"@ || name == "map"@ || name == "note"@ || name == "quit"@
}

/// `r` answers `help` with the optional command name `cmd`.
pub open spec fn help_answer(r: Outcome, cmd: Option<Seq<char>>) -> bool {
    match cmd {
        None => is_message(r, MessageLevel::Info, spec_overview()),
        Some(c) => match spec_help(c) {
            Some(lines) => is_message(r, MessageLevel::Info, lines),
            None => is_error(r, unknown_command_line(c)),
        },
    }
}

/// `after` is the record `before` of written saves with one more write, of
/// the working save `save`.
pub open spec fn wrote(save: Save, before: Seq<Save>, after: Seq<Save>) -> bool {
    after.len() == before.len() + 1 && after.drop_last() == before && stamped(save, after.last())
}

/// What quitting answers: the working save is written first and is left as
/// it was; the session quits only once the backend reported the write done,
/// and otherwise stays with a message and nothing recorded.
pub open spec fn quit_answer<B: SaveBackend>(r: Outcome, before: Session<B>, after: Session<B>) -> bool {
    &&& r is QuitRequested || is_info(r, "保存失败，未退出。请检查磁盘空间后重试。"@)
    &&& r is QuitRequested ==> wrote(before.save, before.written@, after.written@)
    &&& before.store.modeled() ==> r is QuitRequested && after.store.modeled() && after.store.main_save() is Some && same_save(
        after.store.main_save()->0,
        after.written@.last(),
    )
    &&& !(r is QuitRequested) ==> after.written == before.written
    &&& after.save == before.save && after.engine == before.engine && after.state == before.state
        && after.pending == before.pending && after.hints == before.hints
}

/// What a command line typed while exploring answers, for the lines whose
/// answer does not depend on the game: blank lines, unknown commands, extra
/// arguments, help and quit. A line answered without touching the game
/// leaves the session as it was.
pub open spec fn command_answer<B: SaveBackend>(line: Seq<char>, r: Outcome, before: Session<B>, after: Session<B>) -> bool {
    let toks = tokens(line);
    &&& toks.len() == 0 ==> r is Ignored && after == before
    &&& toks.len() > 0 && !known_command(command_word(line)) ==> is_error(r, unknown_command_line(trim_seq(line)))
        && after == before
    &&& toks.len() > 1 && no_arg_command(command_word(line)) ==> is_info(r, "该指令不需要参数。"@)
        && after == before
    &&& toks.len() > 0 && command_word(line) == "help"@ ==> help_answer(r, arg(toks, 1)) && after == before
    &&& toks.len() == 1 && command_word(line) == "quit"@ ==> quit_answer(r, before, after)
    &&& toks.len() > 0 && command_word(line) == "ask"@ ==> ask_answer(arg(toks, 1), arg(toks, 2), r, before, after)
    &&& toks.len() > 0 && command_word(line) == "judge"@ ==> judge_answer(arg(toks, 1), r, before, after)
    &&& toks.len() > 0 && command_word(line) == "move"@ ==> move_answer(arg(toks, 1), r, before, after)
    &&& toks.len() == 1 && command_word(line) == "gaze"@ ==> gaze_answer(r, before, after)
    &&& toks.len() == 1 && command_word(line) == "map"@ ==> map_answer(r, before, after)
    &&& toks.len() == 1 && command_word(line) == "note"@ ==> note_answer(r, before, after)
}

/// `after` is `before` with the current version and a fresh timestamp: what
/// is written for the working save `before`.
pub open spec fn stamped(before: Save, after: Save) -> bool {
    after == (Save { version: CURRENT_VERSION, timestamp: after.timestamp, ..before })
}

/// The title menu: new game, then continue when a save exists, then quit,
/// under a prompt that counts the endings found among those of the content.
pub open spec fn title_answer(r: Outcome, save: Save, e: ContentEngine) -> bool {
    r matches Outcome::MenuRequested { kind, prompt, options } && kind == MenuKind::Title && prompt@
        == "Darkbluff — 已发现结局 "@ + dec(save.discovered.endings@.len()) + "/"@ + dec(
        e.endings_upto(e.chapters@.len() as int).len(),
    ) && (options@.len() == 2 || options@.len() == 3 && options@[1].id@ == "continue"@) && options@[0].id@
        == "new_game"@ && options@.last().id@ == "quit"@
}

/// The title menu of a session: a modeled backend decides whether it
/// offers to continue.
pub open spec fn title_for<B: SaveBackend>(r: Outcome, before: Session<B>, after: Session<B>) -> bool {
    &&& title_answer(r, before.save, before.engine)
    &&& menu_offered(r, after.pending, title_items(r->MenuRequested_options@.len() == 3))
    &&& before.store.modeled() ==> (r->MenuRequested_options@.len() == 3 <==> holds_save(before.store))
}

/// The title menu's items: new game, continue when `cont`, quit.
pub open spec fn title_items(cont: bool) -> Seq<(Seq<char>, Seq<char>)> {
    if cont {
        seq![("new_game"@, "新游戏"@), ("continue"@, "继续"@), ("quit"@, "退出"@)]
    } else {
        seq![("new_game"@, "新游戏"@), ("quit"@, "退出"@)]
    }
}

/// Choosing a new game from the title: with a save in the slot the player
/// is asked to confirm first; otherwise the game starts.
pub open spec fn new_game_choice<B: SaveBackend>(r: Outcome, before: Session<B>, after: Session<B>) -> bool {
    ||| (r matches Outcome::ConfirmationRequested { action, .. } && action == ConfirmationAction::NewGame)
        && after.state == SessionState::Confirming && after.save == before.save && (before.store.modeled()
        ==> holds_save(before.store))
    ||| new_game_answer(r, before, after) && (before.store.modeled() ==> !holds_save(before.store))
}

/// What the option `id` chosen on the title menu does: quit, a new game,
/// continue the saved game; anything else shows the title menu again.
pub open spec fn title_choice<B: SaveBackend>(id: Option<Seq<char>>, r: Outcome, before: Session<B>, after: Session<B>) -> bool {
    match id {
        Some(c) => if c == "quit"@ {
            quit_answer(r, before, after)
        } else if c == "new_game"@ {
            new_game_choice(r, before, after)
        } else if c == "continue"@ {
            continued(r, before, after)
        } else {
            title_for(r, before, after) && after.state == SessionState::Title && after.save == before.save
        },
        None => title_for(r, before, after) && after.state == SessionState::Title && after.save == before.save,
    }
}

/// The menu options show exactly `items`, in order: option `i` has the id
/// and the label of item `i`.
pub open spec fn menu_shows(options: Seq<MenuOption>, items: Seq<(Seq<char>, Seq<char>)>) -> bool {
    &&& options.len() == items.len()
    &&& forall|i: int| 0 <= i < items.len() ==> #[trigger] options[i].id@ == items[i].0 && options[i].label@ == items[i].1
}

/// A menu is shown with options that show exactly `items`, and the pending
/// menu holds the same options.
pub open spec fn menu_offered(r: Outcome, pending: PendingAction, items: Seq<(Seq<char>, Seq<char>)>) -> bool {
    &&& match r {
        Outcome::MenuRequested { options, .. } => menu_shows(options@, items),
        _ => false,
    }
    &&& match pending {
        PendingAction::Menu { options, .. } => menu_shows(options@, items),
        _ => false,
    }
}

/// A menu state and the pending interaction it needs.
pub open spec fn state_fits(state: SessionState, pending: PendingAction) -> bool {
    match state {
        SessionState::ChoosingAskCharacter | SessionState::ChoosingJudgeCharacter
        | SessionState::ChoosingMove | SessionState::ChoosingCheckpoint => pending is Menu,
        SessionState::ChoosingAskTopic => pending is AskTopic,
        SessionState::Confirming => pending is Confirm,
        SessionState::ShowingNarrative => pending is Narrative,
        SessionState::ShowingIntro => pending is Intro,
        _ => true,
    }
}

/// Menu states: a menu is open and waits for a choice.
pub open spec fn is_menu_state(state: SessionState) -> bool {
    state == SessionState::ChoosingAskCharacter || state == SessionState::ChoosingAskTopic
        || state == SessionState::ChoosingJudgeCharacter || state == SessionState::ChoosingMove
        || state == SessionState::ChoosingCheckpoint
}

/// The option a selection picks among `options`: by position, or the first
/// option with that id.
pub open spec fn pick(options: Seq<MenuOption>, sel: Selection) -> Option<Seq<char>> {
    match sel {
        Selection::Index(i) => if i < options.len() {
            Some(options[i as int].id@)
        } else {
            None
        },
        Selection::Id(id) => if exists|k: int| 0 <= k < options.len() && options[k].id@ == id@ {
            Some(id@)
        } else {
            None
        },
    }
}

/// The selection applied to the pending menu, if one is open.
pub open spec fn spec_selection(pending: PendingAction, sel: Selection) -> Option<Seq<char>> {
    match pending {
        PendingAction::Menu { options, .. } => pick(options@, sel),
        PendingAction::AskTopic { options, .. } => pick(options@, sel),
        _ => None,
    }
}

/// What a session does with one input: a quit from anywhere; inputs a
/// state has no use for are ignored; a command line while exploring; a
/// choice in a menu; a confirmation; an acknowledgement of a story.
pub open spec fn handle_answer<B: SaveBackend>(input: Input, r: Outcome, before: Session<B>, after: Session<B>) -> bool {
    let st = before.state;
    let story = st == SessionState::ShowingIntro || st == SessionState::ShowingOutro || st == SessionState::Ending
        || st == SessionState::ShowingNarrative;
    let ignored = st == SessionState::Exploring && !(input is Text) || story && !(input is Ack || input is Cancel)
        || is_menu_state(st) && !(input is Select || input is Cancel) || st == SessionState::Confirming && !(
    input is Confirm || input is Cancel) || st == SessionState::ChoosingSettings;
    let ack = input is Ack || input is Cancel;
    &&& input is Quit ==> quit_answer(r, before, after)
    &&& input is ForceQuit ==> r is QuitRequested && after.save == before.save && extends(before.written@, after.written@)
        && (before.store.modeled() ==> wrote(before.save, before.written@, after.written@))
    &&& !(input is Quit || input is ForceQuit) && ignored ==> r is Ignored && after == before
    &&& is_menu_state(st) && input is Cancel ==> is_info(r, "已取消。"@) && after.state == SessionState::Exploring
        && after.save == before.save
    &&& st == SessionState::Exploring && input is Text ==> command_answer(input->Text_0@, r, before, after)
    &&& st == SessionState::ChoosingAskCharacter && input is Select ==> match spec_selection(
        before.pending,
        input->Select_0,
    ) {
        Some(id) => ask_answer(Some(id), None, r, before, after),
        None => is_error(r, "无效选择。"@) && after == before,
    }
    &&& st == SessionState::ChoosingJudgeCharacter && input is Select ==> match spec_selection(
        before.pending,
        input->Select_0,
    ) {
        Some(id) => judge_answer(Some(id), r, before, after),
        None => is_error(r, "无效选择。"@) && after == before,
    }
    &&& st == SessionState::ChoosingMove && input is Select ==> match spec_selection(before.pending, input->Select_0) {
        Some(id) => move_answer(Some(id), r, before, after),
        None => is_error(r, "无效选择。"@) && after == before,
    }
    &&& st == SessionState::ChoosingCheckpoint && input is Select ==> after.save == before.save && match spec_selection(
        before.pending,
        input->Select_0,
    ) {
        Some(id) => after.state == SessionState::Confirming && (r matches Outcome::ConfirmationRequested { action, .. }
            && action is Rollback && action->checkpoint_id@ == id),
        None => is_error(r, "无效选择。"@),
    }
    &&& st == SessionState::Confirming && (input is Cancel || input == Input::Confirm(false)) && before.pending
        != PendingAction::Confirm(ConfirmationAction::NewGame) ==> is_info(r, "已取消。"@) && after.state
        == SessionState::Exploring && after.save == before.save
    &&& st == SessionState::ShowingOutro && ack ==> after.state == SessionState::Ending && after.save == before.save
        && (r matches Outcome::EndingReached { found, .. } && found == before.save.discovered.endings@.len())
    &&& st == SessionState::Ending && ack ==> after.state == SessionState::Title && after.save == before.save
        && title_for(r, before, after)
    &&& st == SessionState::Title && !(input is Select || input is Quit || input is ForceQuit) ==> if before.pending is Menu
        || before.pending is AskTopic {
        r is Ignored && after == before
    } else {
        title_for(r, before, after) && after.state == SessionState::Title && after.save == before.save
    }
    &&& st == SessionState::Title && input is Select ==> title_choice(
        spec_selection(before.pending, input->Select_0),
        r,
        before,
        after,
    )
    &&& st == SessionState::ShowingIntro && ack ==> intro_acked(r, before, after)
    &&& st == SessionState::Confirming && (input is Cancel || input == Input::Confirm(false)) && before.pending
        == PendingAction::Confirm(ConfirmationAction::NewGame) ==> title_for(r, before, after) && after.state
        == SessionState::Title && after.save == before.save
    &&& st == SessionState::ChoosingAskTopic && input is Select ==> match before.pending {
        PendingAction::AskTopic { character, .. } => match spec_selection(before.pending, input->Select_0) {
            Some(t) => topic_answer(character@, t, r, before, after),
            None => is_error(r, "无效选择。"@) && after == before,
        },
        _ => true,
    }
    &&& st == SessionState::Confirming && input == Input::Confirm(true) ==> match before.pending {
        PendingAction::Confirm(ConfirmationAction::NewGame) => new_game_answer(r, before, after),
        PendingAction::Confirm(ConfirmationAction::Rollback { checkpoint_id }) => rollback_answer(
            checkpoint_id@,
            r,
            before,
            after,
        ),
        _ => true,
    }
    &&& st == SessionState::ShowingNarrative && ack && next_narrative(before.engine, before.save) is None ==> match before.pending {
        PendingAction::Narrative { follow_up: Some(FollowUp::Show(base)) } => r == base && after.state
            == SessionState::Exploring && after.save == before.save,
        PendingAction::Narrative { follow_up: None } => r is SceneDescription && after.state
            == SessionState::Exploring && after.save == before.save,
        PendingAction::Narrative { follow_up: Some(FollowUp::Advance { prelude, .. }) } => exists|o: Outcome|
            #[trigger] advanced(prelude, o, before, after),
        _ => true,
    }
    &&& st == SessionState::ShowingNarrative && ack && next_narrative(before.engine, before.save) is Some ==> (
    r matches Outcome::Narrative { label, .. } && label@ == next_narrative(before.engine, before.save)->0.label@)
        && after.state == SessionState::ShowingNarrative
}

impl<B: SaveBackend> Session<B> {
    /// The state and the pending interaction agree.
    pub open spec fn inv(&self) -> bool {
        state_fits(self.state, self.pending)
    }

    /// A session on the title screen with an empty save.
    pub fn new(engine: ContentEngine, store: B) -> (s: Session<B>)
        ensures
            s.inv(),
            s.state == SessionState::Title,
            s.pending is Idle,
            s.engine == engine,
            s.store == store,
    {
        Session {
            engine,
            store,
            save: Save::default(),
            state: SessionState::Title,
            pending: PendingAction::Idle,
            hints: Hints::new(),
            written: Ghost(Seq::empty()),
        }
    }

    pub fn engine(&self) -> (r: &ContentEngine)
        ensures
            *r == self.engine,
    {
        &self.engine
    }

    pub fn save(&self) -> (r: &Save)
        ensures
            *r == self.save,
    {
        &self.save
    }

    pub fn state(&self) -> (r: &SessionState)
        ensures
            *r == self.state,
    {
        &self.state
    }

    /// The backend the session writes to.
    pub fn store(&self) -> (r: &B)
        ensures
            *r == self.store,
    {
        &self.store
    }

    /// Write the working save, stamped with the current version and time;
    /// the working save itself is left as it was. `true` when the backend
    /// reported the write done, which is then recorded.
    pub(crate) fn try_persist(&mut self) -> (r: bool)
        ensures
            final(self).save == old(self).save,
            r ==> wrote(old(self).save, old(self).written@, final(self).written@),
            old(self).store.modeled() ==> r && final(self).store.modeled() && final(self).store.main_save() is Some
                && same_save(final(self).store.main_save()->0, final(self).written@.last()),
            !r ==> final(self).written == old(self).written,
            final(self).engine == old(self).engine,
            final(self).state == old(self).state,
            final(self).pending == old(self).pending,
            final(self).hints == old(self).hints,
    {
        let now = self.store.now_iso();
        let version = self.save.version;
        let mut kept = now;
        std::mem::swap(&mut kept, &mut self.save.timestamp);
        self.save.version = CURRENT_VERSION;
        let ok = self.store.write_save(&self.save).is_ok();
        if ok {
            proof {
                self.written = Ghost(self.written@.push(self.save));
                assert(self.written@.drop_last() =~= old(self).written@);
            }
        }
        self.save.version = version;
        self.save.timestamp = kept;
        ok
    }

    /// Write the working save; a failure does not stop the game.
    pub(crate) fn persist(&mut self)
        ensures
            final(self).save == old(self).save,
            extends(old(self).written@, final(self).written@),
            final(self).engine == old(self).engine,
            final(self).state == old(self).state,
            final(self).pending == old(self).pending,
            final(self).hints == old(self).hints,
    {
        let _ = self.try_persist();
    }

    pub(crate) fn set_menu(&mut self, kind: MenuKind, options: Vec<MenuOption>)
        ensures
            final(self).pending == (PendingAction::Menu { kind, options }),
            final(self).save == old(self).save,
            final(self).state == old(self).state,
            final(self).engine == old(self).engine,
            final(self).store == old(self).store,
            final(self).hints == old(self).hints,
    {
        self.pending = PendingAction::Menu { kind, options };
    }

    /// The id picked by a selection in the pending menu.
    pub(crate) fn selection_id(&self, selection: &Selection) -> (r: Option<String>)
        ensures
            match r {
                Some(s) => spec_selection(self.pending, *selection) == Some(s@),
                None => spec_selection(self.pending, *selection) is None,
            },
    {
        let options = match &self.pending {
            PendingAction::Menu { options, .. } => options,
            PendingAction::AskTopic { options, .. } => options,
            _ => {
                return None;
            },
        };
        match selection {
            Selection::Index(i) => {
                if *i < options.len() {
                    Some(owned(options[*i].id.as_str()))
                } else {
                    None
                }
            },
            Selection::Id(id) => {
                let mut k: usize = 0;
                while k < options.len()
                    invariant
                        k <= options@.len(),
                        forall|m: int| 0 <= m < k ==> options@[m].id@ != id@,
                        pick(options@, *selection) == spec_selection(self.pending, *selection),
                        *selection == Selection::Id(*id),
                    decreases options@.len() - k,
                {
                    if str_eq(options[k].id.as_str(), id.as_str()) {
                        assert(options@[k as int].id@ == id@);
                        return Some(owned(id.as_str()));
                    }
                    k += 1;
                }
                None
            },
        }
    }

    /// Leave a menu without choosing.
    pub(crate) fn cancel_menu(&mut self) -> (r: Outcome)
        ensures
            is_info(r, "已取消。"@),
            final(self).state == SessionState::Exploring,
            final(self).pending is Idle,
            final(self).save == old(self).save,
            final(self).engine == old(self).engine,
            final(self).store == old(self).store,
            final(self).hints == old(self).hints,
    {
        self.pending = PendingAction::Idle;
        self.state = SessionState::Exploring;
        info_line("已取消。")
    }

    /// The title screen: new game, continue (when a save exists), quit.
    pub(crate) fn enter_title(&mut self) -> (r: Outcome)
        ensures
            final(self).inv(),
            final(self).state == SessionState::Title,
            final(self).pending is Menu,
            final(self).save == old(self).save,
            final(self).engine == old(self).engine,
            title_for(r, *old(self), *final(self)),
    {
        self.state = SessionState::Title;
        let found = self.save.discovered.endings.len();
        let ids = self.engine.ending_chapter_ids();
        let total = ids.len();
        assert(total == self.engine.endings_upto(self.engine.chapters@.len() as int).len());
        let mut options: Vec<MenuOption> = Vec::new();
        options.push(MenuOption { id: owned("new_game"), label: owned("新游戏") });
        if self.store.has_save() {
            options.push(MenuOption { id: owned("continue"), label: owned("继续") });
        }
        options.push(MenuOption { id: owned("quit"), label: owned("退出") });
        let menu_options = clone_options(&options);
        self.set_menu(MenuKind::Title, menu_options);
        let progress = join3(
            crate::text::usize_str(found).as_str(),
            "/",
            crate::text::usize_str(total).as_str(),
        );
        let prompt = join3("Darkbluff — 已发现结局 ", progress.as_str(), "");
        proof {
            reveal_strlit("");
            assert(prompt@ =~= "Darkbluff — 已发现结局 "@ + progress@);
            assert(prompt@ =~= "Darkbluff — 已发现结局 "@ + dec(found as nat) + "/"@ + dec(total as nat));
        }
        Outcome::MenuRequested { kind: MenuKind::Title, prompt, options }
    }

    /// The confirmation asked before a new game replaces an existing save.
    fn confirm_new_game(&mut self) -> (r: Outcome)
        ensures
            final(self).inv(),
            final(self).state == SessionState::Confirming,
            final(self).pending == PendingAction::Confirm(ConfirmationAction::NewGame),
            final(self).save == old(self).save,
            r matches Outcome::ConfirmationRequested { action, .. } && action == ConfirmationAction::NewGame,
    {
        self.pending = PendingAction::Confirm(ConfirmationAction::NewGame);
        self.state = SessionState::Confirming;
        Outcome::ConfirmationRequested {
            action: ConfirmationAction::NewGame,
            prompt: owned("已有存档，新游戏将覆盖。确认？"),
        }
    }

    /// A choice on the title menu.
    fn title_select(&mut self, selection: &Selection) -> (r: Outcome)
        requires
            old(self).inv(),
            old(self).state == SessionState::Title,
        ensures
            final(self).inv(),
            title_choice(spec_selection(old(self).pending, *selection), r, *old(self), *final(self)),
    {
        proof {
            reveal_strlit("quit");
            reveal_strlit("new_game");
            reveal_strlit("continue");
            assert("quit"@.len() == 4);
            assert("new_game"@.len() == 8 && "new_game"@[0] == 'n');
            assert("continue"@.len() == 8 && "continue"@[0] == 'c');
        }
        if !(match &self.pending {
            PendingAction::Menu { .. } => true,
            PendingAction::AskTopic { .. } => true,
            _ => false,
        }) {
            return self.enter_title();
        }
        match self.selection_id(selection) {
            Some(id) => {
                if str_eq(id.as_str(), "new_game") {
                    if self.store.has_save() {
                        self.confirm_new_game()
                    } else {
                        self.start_new_game()
                    }
                } else if str_eq(id.as_str(), "continue") {
                    self.continue_saved()
                } else if str_eq(id.as_str(), "quit") {
                    self.do_quit(false)
                } else {
                    self.enter_title()
                }
            },
            None => self.enter_title(),
        }
    }

    /// A confirmation answer.
    fn confirm(&mut self, yes: bool) -> (r: Outcome)
        requires
            old(self).inv(),
            old(self).state == SessionState::Confirming,
        ensures
            final(self).inv(),
            !yes && old(self).pending != PendingAction::Confirm(ConfirmationAction::NewGame) ==> (
                is_info(r, "已取消。"@) && final(self).state == SessionState::Exploring
                && final(self).save == old(self).save),
            !yes && old(self).pending == PendingAction::Confirm(ConfirmationAction::NewGame) ==> title_for(
                r,
                *old(self),
                *final(self),
            ) && final(self).state == SessionState::Title && final(self).save == old(self).save,
            yes ==> match old(self).pending {
                PendingAction::Confirm(ConfirmationAction::NewGame) => new_game_answer(r, *old(self), *final(self)),
                PendingAction::Confirm(ConfirmationAction::Rollback { checkpoint_id }) => rollback_answer(
                    checkpoint_id@,
                    r,
                    *old(self),
                    *final(self),
                ),
                _ => true,
            },
    {
        let mut pending = PendingAction::Idle;
        std::mem::swap(&mut pending, &mut self.pending);
        if yes {
            match pending {
                PendingAction::Confirm(ConfirmationAction::NewGame) => {
                    self.state = SessionState::Title;
                    self.start_new_game()
                },
                PendingAction::Confirm(ConfirmationAction::Rollback { checkpoint_id }) => {
                    self.state = SessionState::Exploring;
                    self.execute_rollback_confirm(checkpoint_id.as_str())
                },
                _ => {
                    self.state = SessionState::Exploring;
                    error_line("无效确认。")
                },
            }
        } else {
            let was_title = match pending {
                PendingAction::Confirm(ConfirmationAction::NewGame) => true,
                _ => false,
            };
            if was_title {
                self.state = SessionState::Title;
                self.enter_title()
            } else {
                self.state = SessionState::Exploring;
                info_line("已取消。")
            }
        }
    }

    /// A choice in the checkpoint menu asks for confirmation first.
    fn checkpoint_select(&mut self, selection: &Selection) -> (r: Outcome)
        requires
            old(self).inv(),
        ensures
            final(self).inv(),
            final(self).save == old(self).save,
            match spec_selection(old(self).pending, *selection) {
                Some(id) => final(self).state == SessionState::Confirming
                    && (r matches Outcome::ConfirmationRequested { action, .. }
                    && action is Rollback && action->checkpoint_id@ == id),
                None => is_error(r, "无效选择。"@) && final(self).state == old(self).state
                    && final(self).pending == old(self).pending,
            },
    {
        match self.selection_id(selection) {
            Some(id) => {
                let action = ConfirmationAction::Rollback { checkpoint_id: owned(id.as_str()) };
                self.pending = PendingAction::Confirm(ConfirmationAction::Rollback { checkpoint_id: id });
                self.state = SessionState::Confirming;
                Outcome::ConfirmationRequested {
                    action,
                    prompt: owned("回滚会丢弃该 checkpoint 之后的当前流程进度，discovered 保留。确认？"),
                }
            },
            None => error_line("无效选择。"),
        }
    }

    /// Handle one input.
    pub fn handle(&mut self, input: Input) -> (r: Outcome)
        requires
            old(self).inv(),
        ensures
            final(self).inv(),
            handle_answer(input, r, *old(self), *final(self)),
    {
        if let Input::Quit = input {
            return self.do_quit(false);
        }
        if let Input::ForceQuit = input {
            return self.do_quit(true);
        }
        match self.state {
            SessionState::ShowingIntro => match input {
                Input::Ack | Input::Cancel => self.ack_intro(),
                _ => Outcome::Ignored,
            },
            SessionState::ShowingOutro => match input {
                Input::Ack | Input::Cancel => self.to_ending(),
                _ => Outcome::Ignored,
            },
            SessionState::ShowingNarrative => match input {
                Input::Ack | Input::Cancel => self.ack_narrative(),
                _ => Outcome::Ignored,
            },
            SessionState::Ending => match input {
                Input::Ack | Input::Cancel => self.enter_title(),
                _ => Outcome::Ignored,
            },
            SessionState::Title => match input {
                Input::Select(selection) => self.title_select(&selection),
                _ => {
                    if match &self.pending {
                        PendingAction::Menu { .. } => true,
                        PendingAction::AskTopic { .. } => true,
                        _ => false,
                    } {
                        Outcome::Ignored
                    } else {
                        self.enter_title()
                    }
                },
            },
            SessionState::Confirming => match input {
                Input::Confirm(yes) => self.confirm(yes),
                Input::Cancel => self.confirm(false),
                _ => Outcome::Ignored,
            },
            SessionState::Exploring => match input {
                Input::Text(line) => self.handle_command(line.as_str()),
                _ => Outcome::Ignored,
            },
            SessionState::ChoosingAskCharacter => match input {
                Input::Select(selection) => match self.selection_id(&selection) {
                    Some(id) => self.do_ask(Some(id), None),
                    None => error_line("无效选择。"),
                },
                Input::Cancel => self.cancel_menu(),
                _ => Outcome::Ignored,
            },
            SessionState::ChoosingAskTopic => match input {
                Input::Select(selection) => {
                    let id = self.selection_id(&selection);
                    let character = match &self.pending {
                        PendingAction::AskTopic { character, .. } => Some(owned(character.as_str())),
                        _ => None,
                    };
                    match (character, id) {
                        (Some(c), Some(t)) => self.ask_topic(c.as_str(), t.as_str()),
                        _ => error_line("无效选择。"),
                    }
                },
                Input::Cancel => self.cancel_menu(),
                _ => Outcome::Ignored,
            },
            SessionState::ChoosingJudgeCharacter => match input {
                Input::Select(selection) => match self.selection_id(&selection) {
                    Some(id) => self.do_judge(Some(id)),
                    None => error_line("无效选择。"),
                },
                Input::Cancel => self.cancel_menu(),
                _ => Outcome::Ignored,
            },
            SessionState::ChoosingMove => match input {
                Input::Select(selection) => match self.selection_id(&selection) {
                    Some(id) => self.do_move(Some(id)),
                    None => error_line("无效选择。"),
                },
                Input::Cancel => self.cancel_menu(),
                _ => Outcome::Ignored,
            },
            SessionState::ChoosingCheckpoint => match input {
                Input::Select(selection) => self.checkpoint_select(&selection),
                Input::Cancel => self.cancel_menu(),
                _ => Outcome::Ignored,
            },
            SessionState::ChoosingSettings => Outcome::Ignored,
        }
    }

    /// Run a command line typed while exploring.
    fn handle_command(&mut self, line: &str) -> (r: Outcome)
        requires
            old(self).inv(),
            old(self).state == SessionState::Exploring,
        ensures
            final(self).inv(),
            command_answer(line@, r, *old(self), *final(self)),
    {
        proof {
            reveal_strlit("ask");
            reveal_strlit("judge");
            reveal_strlit("move");
            reveal_strlit("help");
            reveal_strlit("gaze");
            reveal_strlit("map");
            reveal_strlit("note");
            reveal_strlit("quit");
            assert("ask"@.len() == 3 && "ask"@[0] == 'a');
            assert("judge"@.len() == 5 && "judge"@[0] == 'j');
            assert("move"@.len() == 4 && "move"@[0] == 'm');
            assert("help"@.len() == 4 && "help"@[0] == 'h');
            assert("gaze"@.len() == 4 && "gaze"@[0] == 'g');
            assert("map"@.len() == 3 && "map"@[0] == 'm');
            assert("note"@.len() == 4 && "note"@[0] == 'n');
            assert("quit"@.len() == 4 && "quit"@[0] == 'q');
        }
        match parse(line) {
            ParseOutcome::Empty => Outcome::Ignored,
            ParseOutcome::Unknown(s) => {
                error_line(join3("未知指令：", s.as_str(), "。输入 help 查看可用指令。").as_str())
            },
            ParseOutcome::TooManyArguments(_) => info_line("该指令不需要参数。"),
            ParseOutcome::Parsed(cmd) => match cmd {
                Command::Ask { target, topic } => self.do_ask(target, topic),
                Command::Judge { target } => self.do_judge(target),
                Command::Move { dest } => self.do_move(dest),
                Command::Gaze => self.do_gaze(),
                Command::ShowMap => self.do_map(),
                Command::Note => self.do_note(),
                Command::Help { cmd } => do_help(cmd),
                Command::Quit => self.do_quit(false),
            },
        }
    }
}

/// A one-line informational message.
pub fn info_line(line: &str) -> (r: Outcome)
    ensures
        is_info(r, line@),
{
    let v = vec![owned(line)];
    assert(strs(v@) =~= seq![line@]);
    Outcome::Message(Message::info(v))
}

/// A one-line error message.
pub fn error_line(line: &str) -> (r: Outcome)
    ensures
        is_error(r, line@),
{
    let v = vec![owned(line)];
    assert(strs(v@) =~= seq![line@]);
    Outcome::Message(Message::error(v))
}

/// Copy a list of menu options.
pub(crate) fn clone_options(options: &Vec<MenuOption>) -> (r: Vec<MenuOption>)
    ensures
        r@.len() == options@.len(),
        forall|i: int| 0 <= i < r@.len() ==> #[trigger] r@[i].id@ == options@[i].id@ && r@[i].label@ == options@[i].label@,
{
    let mut r: Vec<MenuOption> = Vec::new();
    let mut i: usize = 0;
    while i < options.len()
        invariant
            i <= options@.len(),
            r@.len() == i,
            forall|k: int| 0 <= k < i ==> #[trigger] r@[k].id@ == options@[k].id@ && r@[k].label@ == options@[k].label@,
        decreases options@.len() - i,
    {
        r.push(MenuOption { id: owned(options[i].id.as_str()), label: owned(options[i].label.as_str()) });
        i += 1;
    }
    r
}

/// The help text: the overview, or one command's help.
fn do_help(cmd: Option<String>) -> (r: Outcome)
    ensures
        help_answer(r, opt_view(cmd)),
{
    match cmd {
        None => Outcome::Message(Message::info(help_overview())),
        Some(c) => match help_for(c.as_str()) {
            Some(lines) => Outcome::Message(Message::info(lines)),
            None => error_line(join3("未知指令：", c.as_str(), "。输入 help 查看可用指令。").as_str()),
        },
    }
}

} // verus!
