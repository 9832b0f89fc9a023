//! The controller of a terminal front end: it drives a [`Session`] with
//! keys, keeps the transcript, menus, completion pop-up, notes panel and the
//! scene panel's data, and says what to draw. Drawing, timing and the event
//! loop belong to the front end.

use vstd::prelude::*;

use crate::engine::outcome::{
    ConfirmationAction, Input, MenuKind, MenuOption, Message, MessageLevel, NoteView, Outcome, Selection,
    SessionState,
};
use crate::engine::state::{handle_answer, Session};
use crate::save::backend::SaveBackend;
use crate::save::schema::Motion;
use crate::text::{join, join3, owned, strs, strs_ref, usize_str};
use crate::content::engine::{spec_next_targets, ContentEngine};
use crate::content::models::{lookup_key, ChapterCharacter};
use crate::save::schema::{Checkpoint, CheckpointKind, Save};
use crate::ui::types::MapRow;
use crate::ui::input::{str_width, unicode_str_width, CommandInput};
use crate::ui::markdown::{
    join_lines, narrative_quote, quote_block, render, spec_narrative_quote, spec_quote_block, spec_render,
    styled_view, LineStyle, StyledLine,
};
use crate::ui::types::{MapGroup, NpcInfo, NpcTopic, Suggestions};

verus! {

/// Transcript lines kept (the oldest go first).
pub const MAX_TRANSCRIPT: usize = 512;

/// Separator of a dialogue's notes.
pub open spec fn note_sep() -> Seq<char> {
    "  ·  "@
}

/// The last `MAX_TRANSCRIPT` lines.
pub open spec fn capped<T>(s: Seq<T>) -> Seq<T> {
    if s.len() > MAX_TRANSCRIPT {
        s.skip(s.len() - MAX_TRANSCRIPT)
    } else {
        s
    }
}

pub proof fn lemma_capped_append<T>(a: Seq<T>, b: Seq<T>)
    ensures
        capped(capped(a) + b) == capped(a + b),
{
    assert(capped(capped(a) + b) =~= capped(a + b));
}

pub open spec fn lines_view(v: Seq<StyledLine>) -> Seq<(Seq<char>, LineStyle)> {
    v.map_values(|l: StyledLine| styled_view(l))
}

/// Strings joined with `sep` between them.
pub open spec fn join_with(ls: Seq<Seq<char>>, sep: Seq<char>) -> Seq<char>
    decreases ls.len(),
{
    if ls.len() == 0 {
        Seq::empty()
    } else if ls.len() == 1 {
        ls[0]
    } else {
        join_with(ls.drop_last(), sep) + sep + ls.last()
    }
}

fn join_strings(v: &Vec<String>, sep: &str) -> (r: String)
    ensures
        r@ == join_with(strs(v@), sep@),
{
    let mut out = String::new();
    let mut i: usize = 0;
    while i < v.len()
        invariant
            i <= v@.len(),
            out@ == join_with(strs(v@).take(i as int), sep@),
        decreases v@.len() - i,
    {
        let ghost t = strs(v@).take(i + 1);
        assert(t.drop_last() =~= strs(v@).take(i as int));
        if i == 0 {
            out = owned(v[i].as_str());
        } else {
            out.append(sep);
            out.append(v[i].as_str());
        }
        i += 1;
    }
    assert(strs(v@).take(v@.len() as int) =~= strs(v@));
    out
}

/// The lines an outcome adds to the transcript.
pub open spec fn outcome_lines(o: Outcome) -> Seq<(Seq<char>, LineStyle)> {
    let blank = (Seq::<char>::empty(), LineStyle::Plain);
    match o {
        Outcome::Dialogue { header, body, notes } => seq![blank, (header@, LineStyle::Accent)] + spec_render(body@)
            + if notes@.len() > 0 {
            spec_render(spec_quote_block(join_with(strs(notes@), note_sep())))
        } else {
            Seq::empty()
        },
        Outcome::ChapterIntro { text } => seq![blank, ("▌ 开场"@, LineStyle::Heading)] + spec_render(text@),
        Outcome::ChapterOutro { text } => seq![blank, ("▌ 尾声"@, LineStyle::Heading)] + spec_render(text@),
        Outcome::SceneDescription { text } => seq![blank] + spec_render(text@),
        Outcome::Narrative { label, text } => seq![blank] + spec_render(spec_narrative_quote(label@, text@)),
        Outcome::EndingReached { title, found, total } => seq![
            blank,
            ("✦ 结局 · "@ + title@, LineStyle::Accent),
            ("已发现结局  "@ + crate::text::dec(found as nat) + "/"@ + crate::text::dec(total as nat), LineStyle::Subtle),
        ],
        Outcome::Message(m) => message_lines(m),
        _ => Seq::empty(),
    }
}

/// The lines a message adds: several lines as one Markdown text after a
/// blank line; a single error line in red; a single other line as a quote.
pub open spec fn message_lines(m: Message) -> Seq<(Seq<char>, LineStyle)> {
    let ls = strs(m.lines@);
    if ls.len() > 1 {
        seq![(Seq::<char>::empty(), LineStyle::Plain)] + spec_render(join_lines(ls))
    } else {
        let line = if ls.len() == 1 { ls[0] } else { Seq::empty() };
        if m.level == MessageLevel::Error {
            seq![("│ "@ + line, LineStyle::Alert)]
        } else {
            spec_render(spec_quote_block(line))
        }
    }
}

/// Story outcomes: their text is revealed character by character when
/// motion is on.
pub open spec fn is_story(o: Outcome) -> bool {
    o is Dialogue || o is ChapterIntro || o is ChapterOutro || o is Narrative || o is SceneDescription
}

/// Lines shown at once before a story outcome's text (blank, header).
pub open spec fn story_skip(o: Outcome) -> nat {
    match o {
        Outcome::Dialogue { .. } => 2,
        Outcome::ChapterIntro { .. } => 2,
        Outcome::ChapterOutro { .. } => 2,
        Outcome::SceneDescription { .. } => 1,
        Outcome::Narrative { .. } => 1,
        _ => 0,
    }
}

/// Transitions: as set, or off for this run.
#[derive(Debug, Clone, Copy, PartialEq, Eq, Structural)]
pub enum EffectiveMotion {
    Full,
    Reduced,
    Off,
}

impl EffectiveMotion {
    pub open spec fn spec_from_settings(motion: Motion, no_motion: bool) -> EffectiveMotion {
        if no_motion {
            EffectiveMotion::Off
        } else {
            match motion {
                Motion::Full => EffectiveMotion::Full,
                Motion::Reduced => EffectiveMotion::Reduced,
                Motion::Off => EffectiveMotion::Off,
            }
        }
    }

    pub fn from_settings(motion: Motion, no_motion: bool) -> (r: EffectiveMotion)
        ensures
            r == Self::spec_from_settings(motion, no_motion),
    {
        if no_motion {
            EffectiveMotion::Off
        } else {
            match motion {
                Motion::Full => EffectiveMotion::Full,
                Motion::Reduced => EffectiveMotion::Reduced,
                Motion::Off => EffectiveMotion::Off,
            }
        }
    }

    pub fn is_off(&self) -> (r: bool)
        ensures
            r == (*self == EffectiveMotion::Off),
    {
        match self {
            EffectiveMotion::Off => true,
            _ => false,
        }
    }
}

/// What a transition marks.
#[derive(Debug, Clone, Copy, PartialEq, Eq, Structural)]
pub enum AnimationKind {
    Chapter,
    Ending,
    Voice,
    Gaze,
    Move,
}

impl AnimationKind {
    /// The word the front end shows during the transition.
    pub fn label(self) -> (r: &'static str)
        ensures
            r@ == match self {
                AnimationKind::Chapter => "Chapter"@,
                AnimationKind::Ending => "Ending"@,
                AnimationKind::Voice => "Voice"@,
                AnimationKind::Gaze => "Gaze"@,
                AnimationKind::Move => "Move"@,
            },
    {
        match self {
            AnimationKind::Chapter => "Chapter",
            AnimationKind::Ending => "Ending",
            AnimationKind::Voice => "Voice",
            AnimationKind::Gaze => "Gaze",
            AnimationKind::Move => "Move",
        }
    }
}

/// A transition to play: what it marks and how long it lasts.
#[derive(Debug, Clone, Copy, PartialEq, Eq, Structural)]
pub struct Animation {
    pub kind: AnimationKind,
    pub duration_ms: u64,
}

/// Length of a full transition, in milliseconds.
pub const FULL_ANIMATION_MS: u64 = 240;

/// Length of a reduced transition, in milliseconds.
pub const REDUCED_ANIMATION_MS: u64 = 90;

/// The typewriter: the last `lines` lines of the transcript are revealed
/// column by column; the first `skip` of them are shown at once.
#[derive(Debug, Clone, Copy, PartialEq, Eq, Structural)]
pub struct Typewriter {
    pub lines: usize,
    pub skip: usize,
    /// Columns revealed so far.
    pub revealed: usize,
    /// Columns of the revealed lines in all.
    pub total: usize,
}

impl Typewriter {
    pub fn is_active(&self) -> (r: bool)
        ensures
            r == (self.revealed < self.total),
    {
        self.revealed < self.total
    }
}

/// A tab of the notes panel.
#[derive(Debug, Clone, Copy, PartialEq, Eq, Structural)]
pub enum NoteTab {
    Narrative,
    Dialogue,
    Judgment,
    Voice,
}

impl NoteTab {
    /// The tab a digit key opens: `1` to `4`, in the panel's order.
    pub open spec fn spec_from_digit(c: char) -> Option<NoteTab> {
        if c == '1' {
            Some(NoteTab::Narrative)
        } else if c == '2' {
            Some(NoteTab::Dialogue)
        } else if c == '3' {
            Some(NoteTab::Judgment)
        } else if c == '4' {
            Some(NoteTab::Voice)
        } else {
            None
        }
    }

    pub fn from_digit(c: char) -> (r: Option<NoteTab>)
        ensures
            r == Self::spec_from_digit(c),
    {
        if c == '1' {
            Some(NoteTab::Narrative)
        } else if c == '2' {
            Some(NoteTab::Dialogue)
        } else if c == '3' {
            Some(NoteTab::Judgment)
        } else if c == '4' {
            Some(NoteTab::Voice)
        } else {
            None
        }
    }
}

/// The notes panel.
#[derive(Debug, Clone)]
pub struct NotePanel {
    pub view: NoteView,
    pub tab: NoteTab,
}

/// The notice bar: a warning (such as a recovered save) until the next key.
#[derive(Debug, Clone)]
pub struct Notice {
    pub warn: bool,
    pub text: String,
}

/// The open menu and its cursor.
#[derive(Debug, Clone)]
pub struct ActiveMenu {
    pub kind: MenuKind,
    pub options: Vec<MenuOption>,
    pub selected: usize,
}

/// The front end's state.
pub struct App<B: SaveBackend> {
    pub session: Session<B>,
    /// The event loop goes on.
    pub running: bool,
    pub input: CommandInput,
    /// Dialogue and story lines, oldest first.
    pub transcript: Vec<StyledLine>,
    /// Visual rows scrolled up from the bottom (0: at the bottom).
    pub transcript_offset: usize,
    pub menu: Option<ActiveMenu>,
    pub confirmation: Option<ConfirmationAction>,
    pub suggestions: Option<Suggestions>,
    pub note_panel: Option<NotePanel>,
    pub notice: Option<Notice>,
    pub motion: EffectiveMotion,
    /// A transition to play, for the front end to time and clear.
    pub animation: Option<Animation>,
    pub typewriter: Option<Typewriter>,
    /// Lines pushed to the transcript in all (not capped).
    pub transcript_pushes: usize,
    pub cached_title: String,
    pub cached_scene_name: String,
    pub cached_scene_text: String,
    pub cached_npcs: Vec<NpcInfo>,
    pub cached_map: Vec<MapGroup>,
    /// Something changed since the last frame.
    pub dirty: bool,
}

/// `after` is `before` with the transcript extended by `lines` (capped) and
/// the push counter moved on.
pub open spec fn transcript_extended<B: SaveBackend>(before: App<B>, after: App<B>, lines: Seq<(Seq<char>, LineStyle)>) -> bool {
    &&& lines_view(after.transcript@) == capped(lines_view(before.transcript@) + lines)
    &&& after.transcript_pushes as int == crate::ui::app::sat_add(before.transcript_pushes as int, lines.len() as int)
}

/// `a + b`, saturating at `usize::MAX`.
pub open spec fn sat_add(a: int, b: int) -> int {
    if a + b > usize::MAX {
        usize::MAX as int
    } else {
        a + b
    }
}

impl<B: SaveBackend> App<B> {
    /// Append one line to the transcript, dropping the oldest beyond the cap.
    pub fn push_line(&mut self, text: String, style: LineStyle)
        ensures
            lines_view(final(self).transcript@) == capped(lines_view(old(self).transcript@).push((text@, style))),
            final(self).transcript_pushes as int == sat_add(old(self).transcript_pushes as int, 1),
            final(self).session == old(self).session,
            final(self).menu == old(self).menu,
            final(self).typewriter == old(self).typewriter,
            final(self).motion == old(self).motion,
            final(self).transcript_offset == old(self).transcript_offset,
            final(self).confirmation == old(self).confirmation,
            final(self).running == old(self).running,
            final(self).notice == old(self).notice,
            final(self).note_panel == old(self).note_panel,
            final(self).suggestions == old(self).suggestions,
            final(self).input == old(self).input,
    {
        let ghost before = lines_view(self.transcript@);
        self.transcript.push(StyledLine { text, style });
        let ghost full = lines_view(self.transcript@);
        assert(full =~= before.push((text@, style)));
        let n = self.transcript.len();
        if n > MAX_TRANSCRIPT {
            let extra = n - MAX_TRANSCRIPT;
            let mut k: usize = 0;
            while k < extra
                invariant
                    k <= extra,
                    extra == n - MAX_TRANSCRIPT,
                    n == full.len(),
                    lines_view(self.transcript@) == full.skip(k as int),
                    self.session == old(self).session,
                    self.menu == old(self).menu,
                    self.typewriter == old(self).typewriter,
                    self.motion == old(self).motion,
                    self.transcript_pushes == old(self).transcript_pushes,
                    self.transcript_offset == old(self).transcript_offset,
                    self.confirmation == old(self).confirmation,
                    self.running == old(self).running,
                    self.notice == old(self).notice,
                    self.note_panel == old(self).note_panel,
                    self.suggestions == old(self).suggestions,
                    self.input == old(self).input,

                decreases extra - k,
            {
                let ghost cur = lines_view(self.transcript@);
                assert(cur.len() == self.transcript@.len());
                assert(self.transcript@.len() == n - k);
                let _ = self.transcript.remove(0);
                assert(lines_view(self.transcript@) =~= cur.skip(1));
                assert(cur.skip(1) =~= full.skip(k + 1));
                k += 1;
            }
        }
        self.transcript_pushes = self.transcript_pushes.saturating_add(1);
    }

    /// Drop the oldest lines beyond the cap.
    fn trim_transcript(&mut self)
        ensures
            lines_view(final(self).transcript@) == capped(lines_view(old(self).transcript@)),
            final(self).transcript_pushes == old(self).transcript_pushes,
            final(self).session == old(self).session,
            final(self).menu == old(self).menu,
            final(self).typewriter == old(self).typewriter,
            final(self).motion == old(self).motion,
            final(self).transcript_offset == old(self).transcript_offset,
            final(self).confirmation == old(self).confirmation,
            final(self).running == old(self).running,
            final(self).notice == old(self).notice,
            final(self).note_panel == old(self).note_panel,
            final(self).suggestions == old(self).suggestions,
            final(self).input == old(self).input,
    {
        let ghost full = lines_view(self.transcript@);
        let n = self.transcript.len();
        if n > MAX_TRANSCRIPT {
            let extra = n - MAX_TRANSCRIPT;
            let mut k: usize = 0;
            while k < extra
                invariant
                    k <= extra,
                    extra == n - MAX_TRANSCRIPT,
                    n == full.len(),
                    lines_view(self.transcript@) == full.skip(k as int),
                    self.session == old(self).session,
                    self.menu == old(self).menu,
                    self.typewriter == old(self).typewriter,
                    self.motion == old(self).motion,
                    self.transcript_pushes == old(self).transcript_pushes,
                    self.transcript_offset == old(self).transcript_offset,
                    self.confirmation == old(self).confirmation,
                    self.running == old(self).running,
                    self.notice == old(self).notice,
                    self.note_panel == old(self).note_panel,
                    self.suggestions == old(self).suggestions,
                    self.input == old(self).input,

                decreases extra - k,
            {
                let ghost cur = lines_view(self.transcript@);
                assert(cur.len() == self.transcript@.len());
                let _ = self.transcript.remove(0);
                assert(lines_view(self.transcript@) =~= cur.skip(1));
                assert(cur.skip(1) =~= full.skip(k + 1));
                k += 1;
            }
        } else {
            assert(full.skip(0) =~= full);
        }
    }

    /// Append lines to the transcript.
    pub fn push_lines(&mut self, lines: Vec<StyledLine>)
        ensures
            transcript_extended(*old(self), *final(self), lines_view(lines@)),
            final(self).session == old(self).session,
            final(self).menu == old(self).menu,
            final(self).typewriter == old(self).typewriter,
            final(self).motion == old(self).motion,
            final(self).transcript_offset == old(self).transcript_offset,
            final(self).confirmation == old(self).confirmation,
            final(self).running == old(self).running,
            final(self).notice == old(self).notice,
            final(self).note_panel == old(self).note_panel,
            final(self).suggestions == old(self).suggestions,
            final(self).input == old(self).input,
    {
        let ghost t0 = lines_view(self.transcript@);
        let ghost ls = lines_view(lines@);
        let ghost p0 = self.transcript_pushes as int;
        self.trim_transcript();
        assert(t0 + ls.take(0) =~= t0);
        let mut lines = lines;
        let mut rest: Vec<StyledLine> = Vec::new();
        rest.append(&mut lines);
        let mut i: usize = 0;
        while i < rest.len()
            invariant
                i <= rest@.len(),
                lines_view(rest@) == ls,
                lines_view(self.transcript@) == capped(t0 + ls.take(i as int)),
                self.transcript_pushes as int == sat_add(p0, i as int),
                self.session == old(self).session,
                self.menu == old(self).menu,
                self.typewriter == old(self).typewriter,
                self.motion == old(self).motion,
                self.transcript_offset == old(self).transcript_offset,
                self.confirmation == old(self).confirmation,
                self.running == old(self).running,
                self.notice == old(self).notice,
                self.note_panel == old(self).note_panel,
                self.suggestions == old(self).suggestions,
                self.input == old(self).input,
            decreases rest@.len() - i,
        {
            let l = &rest[i];
            let text = owned(l.text.as_str());
            let style = l.style;
            let ghost before = t0 + ls.take(i as int);
            self.push_line(text, style);
            proof {
                assert(ls[i as int] == (text@, style));
                lemma_capped_append(before, seq![(text@, style)]);
                assert(capped(before) + seq![(text@, style)] =~= capped(before).push((text@, style)));
                assert(before + seq![(text@, style)] =~= t0 + ls.take(i + 1));
            }
            i += 1;
        }
        assert(ls.take(rest@.len() as int) =~= ls);
    }

    /// Show the notes panel on its first tab with entries (the narrative tab
    /// when all are empty).
    fn apply_notes(&mut self, notes: NoteView)
        ensures
            final(self).note_panel matches Some(p) && p.view == notes && p.tab == first_tab(notes),
            final(self).transcript == old(self).transcript,
            final(self).transcript_pushes == old(self).transcript_pushes,
            final(self).session == old(self).session,
            final(self).menu == old(self).menu,
            final(self).typewriter == old(self).typewriter,
            final(self).motion == old(self).motion,
            final(self).transcript_offset == old(self).transcript_offset,
            final(self).confirmation == old(self).confirmation,
            final(self).running == old(self).running,
            final(self).notice == old(self).notice,
            final(self).suggestions == old(self).suggestions,
            final(self).input == old(self).input,
    {
        let tab = if notes.narratives.len() > 0 {
            NoteTab::Narrative
        } else if notes.dialogues.len() > 0 {
            NoteTab::Dialogue
        } else if notes.judgments.len() > 0 {
            NoteTab::Judgment
        } else if notes.voices.len() > 0 {
            NoteTab::Voice
        } else {
            NoteTab::Narrative
        };
        self.note_panel = Some(NotePanel { view: notes, tab });
    }

    /// Start the typewriter over the `added` lines just pushed, the first
    /// `skip` of which show at once.
    fn start_typewriter(&mut self, added: usize, skip: usize)
        ensures
            added <= skip ==> final(self).typewriter is None,
            added > skip ==> (final(self).typewriter matches Some(t) && t.lines == added && t.skip == skip
                && t.revealed == 0),
            final(self).transcript == old(self).transcript,
            final(self).transcript_pushes == old(self).transcript_pushes,
            final(self).session == old(self).session,
            final(self).menu == old(self).menu,
            final(self).motion == old(self).motion,
            final(self).transcript_offset == old(self).transcript_offset,
            final(self).confirmation == old(self).confirmation,
            final(self).running == old(self).running,
            final(self).notice == old(self).notice,
            final(self).note_panel == old(self).note_panel,
            final(self).suggestions == old(self).suggestions,
            final(self).input == old(self).input,
    {
        self.typewriter = None;
        let body_lines = added.saturating_sub(skip);
        if body_lines == 0 {
            return;
        }
        let n = self.transcript.len();
        let take = if body_lines < n {
            body_lines
        } else {
            n
        };
        let mut total: usize = 0;
        let mut k: usize = n - take;
        while k < n
            invariant
                n == self.transcript@.len(),
                k <= n,
            decreases n - k,
        {
            total = total.saturating_add(str_width(self.transcript[k].text.as_str()));
            k += 1;
        }
        self.typewriter = Some(Typewriter { lines: added, skip, revealed: 0, total });
    }

    /// Apply one outcome of the session: its lines go to the transcript
    /// (which returns to its bottom for new text), menus, confirmations and
    /// the notes open, a warning shows in the notice bar, a quit ends the
    /// loop, and story text starts the typewriter when motion is on.
    pub fn process_outcome(&mut self, outcome: Outcome)
        ensures
            transcript_extended(*old(self), *final(self), outcome_lines(outcome)),
            final(self).session == old(self).session,
            (outcome is Dialogue || outcome is ChapterIntro || outcome is ChapterOutro || outcome is Narrative
                || outcome is EndingReached || outcome is Message) ==> final(self).transcript_offset == 0,
            !(outcome is Dialogue || outcome is ChapterIntro || outcome is ChapterOutro || outcome is Narrative
                || outcome is EndingReached || outcome is Message) ==> final(self).transcript_offset
                == old(self).transcript_offset,
            outcome is QuitRequested ==> !final(self).running,
            !(outcome is QuitRequested) ==> final(self).running == old(self).running,
            outcome matches Outcome::MenuRequested { kind, options, .. } ==> final(self).menu == Some(
                ActiveMenu { kind, options, selected: 0 },
            ) && final(self).confirmation is None,
            outcome matches Outcome::ConfirmationRequested { action, .. } ==> final(self).menu is None
                && final(self).confirmation == Some(action),
            outcome matches Outcome::Notes(v) ==> final(self).note_panel matches Some(p) && p.view == v && p.tab
                == first_tab(v),
            outcome is Message && outcome->Message_0.level == MessageLevel::Warning && outcome->Message_0.lines@.len()
                > 0 ==> (final(self).notice matches Some(n) && n.warn && n.text@ == outcome->Message_0.lines@[0]@),
            !((outcome is Message && outcome->Message_0.level == MessageLevel::Warning
                && outcome->Message_0.lines@.len() > 0) || outcome is Notes) ==> final(self).notice
                == old(self).notice,
            !(outcome is MenuRequested || outcome is ConfirmationRequested) ==> final(self).menu == old(self).menu
                && final(self).confirmation == old(self).confirmation,
            is_story(outcome) && old(self).motion != EffectiveMotion::Off && outcome_lines(outcome).len()
                > story_skip(outcome) ==> final(self).typewriter is Some,
            !is_story(outcome) || old(self).motion == EffectiveMotion::Off ==> final(self).typewriter == old(
                self,
            ).typewriter,
            final(self).suggestions == old(self).suggestions,
            final(self).input == old(self).input,
    {
        let story = match &outcome {
            Outcome::Dialogue { .. } | Outcome::ChapterIntro { .. } | Outcome::ChapterOutro { .. }
            | Outcome::Narrative { .. } | Outcome::SceneDescription { .. } => true,
            _ => false,
        };
        let skip: usize = match &outcome {
            Outcome::Dialogue { .. } | Outcome::ChapterIntro { .. } | Outcome::ChapterOutro { .. } => 2,
            Outcome::Narrative { .. } | Outcome::SceneDescription { .. } => 1,
            _ => 0,
        };
        let snaps = crate::ui::labels::outcome_snaps_to_bottom(&outcome);
        let lines = outcome_transcript(&outcome);
        let added = lines.len();
        self.push_lines(lines);
        match outcome {
            Outcome::Notes(notes) => self.apply_notes(notes),
            Outcome::Message(message) => {
                match message.level {
                    MessageLevel::Warning => {
                        if message.lines.len() > 0 {
                            self.notice = Some(Notice { warn: true, text: owned(message.lines[0].as_str()) });
                        }
                    },
                    _ => {},
                }
            },
            Outcome::MenuRequested { kind, options, .. } => {
                self.confirmation = None;
                self.menu = Some(ActiveMenu { kind, options, selected: 0 });
            },
            Outcome::ConfirmationRequested { action, .. } => {
                self.menu = None;
                self.confirmation = Some(action);
            },
            Outcome::QuitRequested => {
                self.running = false;
            },
            _ => {},
        }
        if snaps {
            self.transcript_offset = 0;
        }
        if story && !self.motion.is_off() && added > 0 {
            self.start_typewriter(added, skip);
        }
    }
}

/// The first notes tab with entries: narrative, dialogue, judgment, voice
/// (the narrative tab when all are empty).
pub open spec fn first_tab(v: NoteView) -> NoteTab {
    if v.narratives@.len() > 0 {
        NoteTab::Narrative
    } else if v.dialogues@.len() > 0 {
        NoteTab::Dialogue
    } else if v.judgments@.len() > 0 {
        NoteTab::Judgment
    } else if v.voices@.len() > 0 {
        NoteTab::Voice
    } else {
        NoteTab::Narrative
    }
}

fn blank_line() -> (r: StyledLine)
    ensures
        styled_view(r) == (Seq::<char>::empty(), LineStyle::Plain),
{
    StyledLine { text: String::new(), style: LineStyle::Plain }
}

fn append_lines(out: &mut Vec<StyledLine>, more: Vec<StyledLine>)
    ensures
        lines_view(final(out)@) == lines_view(old(out)@) + lines_view(more@),
{
    let mut more = more;
    let ghost a = lines_view(out@);
    let ghost b = lines_view(more@);
    out.append(&mut more);
    assert(lines_view(out@) =~= a + b);
}

/// The lines of the transcript for a message.
fn message_transcript(m: &Message) -> (r: Vec<StyledLine>)
    ensures
        lines_view(r@) == message_lines(*m),
{
    let mut out: Vec<StyledLine> = Vec::new();
    if m.lines.len() > 1 {
        out.push(blank_line());
        let joined = join_strings(&m.lines, "\n");
        proof {
            lemma_join_with_nl(strs(m.lines@));
        }
        append_lines(&mut out, render(joined.as_str()));
        assert(lines_view(out@) =~= seq![(Seq::<char>::empty(), LineStyle::Plain)] + spec_render(join_lines(strs(m.lines@))));
    } else {
        let line = if m.lines.len() == 1 {
            owned(m.lines[0].as_str())
        } else {
            String::new()
        };
        match m.level {
            MessageLevel::Error => {
                out.push(StyledLine { text: join("│ ", line.as_str()), style: LineStyle::Alert });
                assert(lines_view(out@) =~= seq![("│ "@ + line@, LineStyle::Alert)]);
            },
            _ => {
                append_lines(&mut out, render(quote_block(line.as_str()).as_str()));
                assert(lines_view(out@) =~= spec_render(spec_quote_block(line@)));
            },
        }
    }
    out
}

proof fn lemma_join_with_nl(ls: Seq<Seq<char>>)
    ensures
        join_with(ls, "\n"@) == join_lines(ls),
    decreases ls.len(),
{
    if ls.len() > 1 {
        lemma_join_with_nl(ls.drop_last());
    }
}

/// The lines of the transcript for an outcome.
pub fn outcome_transcript(o: &Outcome) -> (r: Vec<StyledLine>)
    ensures
        lines_view(r@) == outcome_lines(*o),
{
    let mut out: Vec<StyledLine> = Vec::new();
    let ghost blank = (Seq::<char>::empty(), LineStyle::Plain);
    match o {
        Outcome::Dialogue { header, body, notes } => {
            out.push(blank_line());
            out.push(StyledLine { text: owned(header.as_str()), style: LineStyle::Accent });
            append_lines(&mut out, render(body.as_str()));
            if notes.len() > 0 {
                let joined = join_strings(notes, "  ·  ");
                append_lines(&mut out, render(quote_block(joined.as_str()).as_str()));
            }
            assert(lines_view(out@) =~= outcome_lines(*o));
        },
        Outcome::ChapterIntro { text } => {
            out.push(blank_line());
            out.push(StyledLine { text: owned("▌ 开场"), style: LineStyle::Heading });
            append_lines(&mut out, render(text.as_str()));
            assert(lines_view(out@) =~= outcome_lines(*o));
        },
        Outcome::ChapterOutro { text } => {
            out.push(blank_line());
            out.push(StyledLine { text: owned("▌ 尾声"), style: LineStyle::Heading });
            append_lines(&mut out, render(text.as_str()));
            assert(lines_view(out@) =~= outcome_lines(*o));
        },
        Outcome::SceneDescription { text } => {
            out.push(blank_line());
            append_lines(&mut out, render(text.as_str()));
            assert(lines_view(out@) =~= outcome_lines(*o));
        },
        Outcome::Narrative { label, text } => {
            out.push(blank_line());
            append_lines(&mut out, render(narrative_quote(label.as_str(), text.as_str()).as_str()));
            assert(lines_view(out@) =~= outcome_lines(*o));
        },
        Outcome::EndingReached { title, found, total } => {
            out.push(blank_line());
            out.push(StyledLine { text: join("✦ 结局 · ", title.as_str()), style: LineStyle::Accent });
            let mut count = join3("已发现结局  ", usize_str(*found).as_str(), "/");
            count.append(usize_str(*total).as_str());
            out.push(StyledLine { text: count, style: LineStyle::Subtle });
            assert(lines_view(out@) =~= outcome_lines(*o));
        },
        Outcome::Message(m) => {
            out = message_transcript(m);
        },
        _ => {
            assert(lines_view(out@) =~= outcome_lines(*o));
        },
    }
    out
}

/// A key press, as the controller sees it.
#[derive(Debug, Clone, Copy, PartialEq, Eq, Structural)]
pub enum Key {
    /// A character typed without Control.
    Char(char),
    /// A character typed with Control.
    Ctrl(char),
    Esc,
    Enter,
    Tab,
    Backspace,
    Delete,
    Left,
    Right,
    Home,
    End,
    Up,
    Down,
    PageUp,
    PageDown,
}

/// States that show a menu (the title and each choice).
pub open spec fn shows_menu(state: SessionState) -> bool {
    state == SessionState::Title || state == SessionState::ChoosingSettings || crate::engine::state::is_menu_state(state)
}

/// The menu position a digit key picks: `1` is the first.
pub open spec fn spec_digit_index(c: char) -> Option<usize> {
    if '1' <= c && c <= '9' {
        Some((c as u32 - '1' as u32) as usize)
    } else {
        None
    }
}

pub fn digit_index(c: char) -> (r: Option<usize>)
    ensures
        r == spec_digit_index(c),
{
    if '1' <= c && c <= '9' {
        Some((c as u32 - '1' as u32) as usize)
    } else {
        None
    }
}

/// The cursor moved by `delta` on a ring of `len` options.
pub open spec fn ring_move(selected: int, delta: int, len: int) -> int {
    (selected + delta) % len
}

/// `after` is `before` once `input` went to the session: the session
/// answered as it does to that input, the answer's lines went to the
/// transcript, the program stops exactly on a quit answer, the completions
/// closed and a redraw is due.
pub open spec fn dispatched<B: SaveBackend>(input: Input, before: App<B>, after: App<B>) -> bool {
    &&& exists|o: Outcome| #[trigger] handle_answer(input, o, before.session, after.session) && transcript_extended(
        before,
        after,
        outcome_lines(o),
    ) && (if o is QuitRequested {
        !after.running
    } else {
        after.running == before.running
    })
    &&& after.suggestions is None
    &&& after.input == before.input
    &&& after.dirty
}

/// The menu with its cursor moved by `delta` around the ring (no move on
/// an empty menu).
pub open spec fn menu_moved(menu: Option<ActiveMenu>, delta: i32) -> Option<ActiveMenu> {
    match menu {
        Some(m) => if m.options@.len() > 0 && m.options@.len() <= i32::MAX {
            Some(
                ActiveMenu {
                    selected: ring_move(m.selected as int % m.options@.len() as int, delta as int, m.options@.len() as int) as usize,
                    ..m
                },
            )
        } else {
            menu
        },
        None => menu,
    }
}

/// The completion cursor moved by `delta`, kept within the list.
pub open spec fn suggest_moved(sg: Option<Suggestions>, delta: i32) -> Option<Suggestions> {
    match sg {
        Some(x) => if x.items@.len() <= i32::MAX && x.selected <= i32::MAX {
            let last = if x.items@.len() > 0 { x.items@.len() - 1 } else { 0 };
            let t = x.selected + delta;
            Some(Suggestions { selected: (if t < 0 { 0 } else if t > last { last } else { t }) as usize, ..x })
        } else {
            sg
        },
        None => sg,
    }
}

/// The command line after an editing key.
pub open spec fn edited(key: Key, v: (Seq<char>, nat)) -> (Seq<char>, nat) {
    match key {
        Key::Backspace => crate::ui::input::spec_backspace(v),
        Key::Delete => if v.1 < v.0.len() { (v.0.remove(v.1 as int), v.1) } else { v },
        Key::Left => (v.0, if v.1 > 0 { (v.1 - 1) as nat } else { 0 }),
        Key::Right => (v.0, if v.1 < v.0.len() { v.1 + 1 } else { v.0.len() }),
        Key::Home => (v.0, 0nat),
        Key::End => (v.0, v.0.len()),
        _ => v,
    }
}

pub open spec fn is_edit_key(key: Key) -> bool {
    key == Key::Backspace || key == Key::Delete || key == Key::Left || key == Key::Right || key == Key::Home
        || key == Key::End
}

/// The selected completion applied to the command line: its text replaces
/// the trailing half token and the cursor goes to the end of the line.
pub open spec fn completed<B: SaveBackend>(before: App<B>, after: App<B>) -> bool {
    &&& after.session == before.session
    &&& before.suggestions is None ==> after.input == before.input
    &&& before.suggestions is Some && before.suggestions->0.selected < before.suggestions->0.items@.len()
        ==> after.input@ == ({
        let sg = before.suggestions->0;
        let v = crate::ui::suggest::spec_apply_completion(before.input@.0, sg.items@[sg.selected as int].insert@);
        (v, v.len())
    })
}

/// The text Enter hands to the session: the line without its leading
/// whitespace and slashes.
pub open spec fn submitted_line(line: Seq<char>) -> Seq<char> {
    crate::ui::suggest::drop_slashes(crate::text::trim_start_seq(line))
}

/// Enter on the command line: with the command pop-up open, the selected
/// completion is applied and nothing is sent; otherwise the line is cleared
/// and, unless it is blank once trimmed, handed to the session.
pub open spec fn entered<B: SaveBackend>(before: App<B>, after: App<B>) -> bool {
    let command_pop = match before.suggestions {
        Some(sg) => sg.kind == crate::ui::types::SuggestKind::Command,
        None => false,
    };
    let cmd = submitted_line(before.input@.0);
    &&& command_pop ==> completed(before, after)
    &&& !command_pop ==> after.input@ == (Seq::<char>::empty(), 0nat)
    &&& !command_pop && crate::text::trim_seq(cmd).len() > 0 ==> exists|t: String, mid: App<B>|
        #![trigger dispatched(Input::Text(t), mid, after)]
        t@ == cmd && mid.input@ == (Seq::<char>::empty(), 0nat) && mid == (App {
            input: mid.input,
            suggestions: None,
            ..before
        }) && dispatched(Input::Text(t), mid, after)
    &&& !command_pop && crate::text::trim_seq(cmd).len() == 0 ==> after.session == before.session
        && after.transcript == before.transcript && after.suggestions is None
}

/// A key on the command line: Esc clears it; with the pop-up open, Up/Down
/// move its selection and Tab completes (without it they do nothing);
/// Enter submits; page keys scroll; editing keys edit; a character is
/// typed in at the cursor.
pub open spec fn command_key<B: SaveBackend>(key: Key, before: App<B>, after: App<B>) -> bool {
    let open = before.suggestions is Some;
    &&& key == Key::Esc ==> after.input@ == (Seq::<char>::empty(), 0nat) && after.session == before.session
    &&& key is Char && before.input@.0.len() < usize::MAX ==> after.input@ == (
        before.input@.0.insert(before.input@.1 as int, key->Char_0),
        before.input@.1 + 1,
    ) && after.session == before.session
    &&& key == Key::Enter ==> entered(before, after)
    &&& key == Key::Tab ==> if open {
        completed(before, after)
    } else {
        after == before
    }
    &&& key == Key::Up ==> if open {
        after == (App { suggestions: suggest_moved(before.suggestions, -1i32), ..before })
    } else {
        after == before
    }
    &&& key == Key::Down ==> if open {
        after == (App { suggestions: suggest_moved(before.suggestions, 1i32), ..before })
    } else {
        after == before
    }
    &&& key == Key::PageUp ==> after == (App {
        transcript_offset: crate::ui::scroll::apply_scroll_delta_spec(before.transcript_offset, crate::ui::scroll::PAGE_STEP),
        ..before
    })
    &&& key == Key::PageDown ==> after == (App {
        transcript_offset: crate::ui::scroll::apply_scroll_delta_spec(
            before.transcript_offset,
            (-crate::ui::scroll::PAGE_STEP) as i32,
        ),
        ..before
    })
    &&& is_edit_key(key) ==> after.input@ == edited(key, before.input@) && after.session == before.session
        && after.transcript == before.transcript
    &&& key is Ctrl ==> after == before
}

/// A key in a menu: Esc cancels (on the title screen it quits), Up/Down (or
/// k/j) move the cursor around the ring, Enter picks the cursor's option and
/// a digit picks by position; other keys do nothing.
pub open spec fn menu_key<B: SaveBackend>(key: Key, before: App<B>, after: App<B>) -> bool {
    &&& key == Key::Esc ==> dispatched(
        if before.session.state == SessionState::Title { Input::Quit } else { Input::Cancel },
        before,
        after,
    )
    &&& key == Key::Up || key == Key::Char('k') ==> after == (App { menu: menu_moved(before.menu, -1i32), ..before })
    &&& key == Key::Down || key == Key::Char('j') ==> after == (App { menu: menu_moved(before.menu, 1), ..before })
    &&& key == Key::Enter ==> match before.menu {
        Some(m) => dispatched(Input::Select(Selection::Index(m.selected)), before, after),
        None => after == before,
    }
    &&& key is Char && key != Key::Char('k') && key != Key::Char('j') ==> match (
        before.menu,
        spec_digit_index(key->Char_0),
    ) {
        (Some(m), Some(i)) => if i < m.options@.len() {
            dispatched(Input::Select(Selection::Index(i)), before, after)
        } else {
            after == before
        },
        _ => after == before,
    }
    &&& !(key is Char || key == Key::Esc || key == Key::Up || key == Key::Down || key == Key::Enter) ==> after
        == before
}

/// A key on a confirmation: y or Enter confirm, n or Esc decline; other
/// keys do nothing.
pub open spec fn confirm_key<B: SaveBackend>(key: Key, before: App<B>, after: App<B>) -> bool {
    &&& key == Key::Char('y') || key == Key::Char('Y') || key == Key::Enter ==> dispatched(
        Input::Confirm(true),
        before,
        after,
    )
    &&& key == Key::Char('n') || key == Key::Char('N') || key == Key::Esc ==> dispatched(
        Input::Confirm(false),
        before,
        after,
    )
    &&& !(key == Key::Char('y') || key == Key::Char('Y') || key == Key::Enter || key == Key::Char('n') || key
        == Key::Char('N') || key == Key::Esc) ==> after == before
}

/// A key while a story waits: page keys scroll the transcript, Esc, Enter
/// and any character acknowledge; other keys do nothing.
pub open spec fn ack_key<B: SaveBackend>(key: Key, before: App<B>, after: App<B>) -> bool {
    &&& key == Key::PageUp ==> after == (App {
        transcript_offset: crate::ui::scroll::apply_scroll_delta_spec(before.transcript_offset, crate::ui::scroll::PAGE_STEP),
        ..before
    })
    &&& key == Key::PageDown ==> after == (App {
        transcript_offset: crate::ui::scroll::apply_scroll_delta_spec(
            before.transcript_offset,
            (-crate::ui::scroll::PAGE_STEP) as i32,
        ),
        ..before
    })
    &&& key == Key::Esc || key == Key::Enter || key is Char ==> dispatched(Input::Ack, before, after)
    &&& !(key == Key::PageUp || key == Key::PageDown || key == Key::Esc || key == Key::Enter || key is Char)
        ==> after == before
}

/// A key in the notes panel: a digit of a tab switches to it, Esc closes
/// the panel; the session is untouched.
pub open spec fn note_key<B: SaveBackend>(key: Key, before: App<B>, after: App<B>) -> bool {
    &&& after.session == before.session
    &&& key == Key::Esc ==> after.note_panel is None
    &&& key is Char && before.note_panel is Some && NoteTab::spec_from_digit(key->Char_0) is Some ==> (
    after.note_panel matches Some(p) && p.tab == NoteTab::spec_from_digit(key->Char_0)->0)
}

/// A running typewriter was skipped while a story waits: the key does
/// nothing more.
pub open spec fn skips_story<B: SaveBackend>(before: App<B>) -> bool {
    (before.typewriter matches Some(t) && t.revealed < t.total) && before.session.state.spec_is_ack()
}

/// Where a key goes once the notice is cleared and a running typewriter
/// finished: Control-C quits; the notes panel takes keys while open;
/// otherwise the session's state picks the handler.
pub open spec fn key_routed<B: SaveBackend>(key: Key, before: App<B>, after: App<B>) -> bool {
    if key == Key::Ctrl('c') {
        dispatched(Input::Quit, before, after)
    } else if before.note_panel is Some {
        note_key(key, before, after)
    } else {
        match before.session.state {
            SessionState::Confirming => confirm_key(key, before, after),
            SessionState::ShowingIntro | SessionState::ShowingNarrative | SessionState::ShowingOutro
            | SessionState::Ending => ack_key(key, before, after),
            SessionState::Exploring => command_key(key, before, after),
            _ => menu_key(key, before, after),
        }
    }
}

/// The transition an outcome calls for: a chapter card, an ending, a
/// voice; otherwise, once in a chapter, a change of chapter, eye or scene
/// seen in the save.
pub open spec fn animation_for(
    o: Outcome,
    before_chapter: Seq<char>,
    before_scene: Seq<char>,
    before_world: crate::world::World,
    save: crate::save::schema::Save,
) -> Option<AnimationKind> {
    if o is ChapterIntro {
        Some(AnimationKind::Chapter)
    } else if o is ChapterOutro || o is EndingReached {
        Some(AnimationKind::Ending)
    } else if o is Narrative {
        Some(AnimationKind::Voice)
    } else if before_chapter.len() > 0 && save.current_chapter@ != before_chapter {
        Some(AnimationKind::Chapter)
    } else if before_chapter.len() > 0 && save.current_world != before_world {
        Some(AnimationKind::Gaze)
    } else if before_chapter.len() > 0 && save.current_scene@ != before_scene {
        Some(AnimationKind::Move)
    } else {
        None
    }
}

/// The transition that starts under `motion` (none when motion is off).
pub open spec fn started(motion: EffectiveMotion, kind: Option<AnimationKind>, current: Option<Animation>) -> Option<Animation> {
    match kind {
        Some(k) => match motion {
            EffectiveMotion::Full => Some(Animation { kind: k, duration_ms: FULL_ANIMATION_MS }),
            EffectiveMotion::Reduced => Some(Animation { kind: k, duration_ms: REDUCED_ANIMATION_MS }),
            EffectiveMotion::Off => current,
        },
        None => current,
    }
}

/// Visual rows of transcript lines `0..i` at `w` columns, saturating at
/// `usize::MAX` (a line too long to count counts for none).
pub open spec fn transcript_total(lines: Seq<StyledLine>, w: nat, i: int) -> int
    decreases i,
{
    if i <= 0 {
        0
    } else {
        let t = lines[i - 1].text@;
        let c = if t.len() < usize::MAX { crate::ui::width::spec_count_lines(t, w) as int } else { 0 };
        sat_add(transcript_total(lines, w, i - 1), c)
    }
}

impl<B: SaveBackend> App<B> {
    /// A controller for a session, with transitions as `motion` says unless
    /// `no_motion` turns them off.
    pub fn new(session: Session<B>, motion: Motion, no_motion: bool) -> (a: App<B>)
        ensures
            a.session == session,
            a.running,
            a.transcript@.len() == 0,
            a.transcript_offset == 0,
            a.menu is None,
            a.confirmation is None,
            a.suggestions is None,
            a.note_panel is None,
            a.motion == EffectiveMotion::spec_from_settings(motion, no_motion),
            a.dirty,
    {
        App {
            session,
            running: true,
            input: CommandInput::default(),
            transcript: Vec::new(),
            transcript_offset: 0,
            menu: None,
            confirmation: None,
            suggestions: None,
            note_panel: None,
            notice: None,
            motion: EffectiveMotion::from_settings(motion, no_motion),
            animation: None,
            typewriter: None,
            transcript_pushes: 0,
            cached_title: String::new(),
            cached_scene_name: String::new(),
            cached_scene_text: String::new(),
            cached_npcs: Vec::new(),
            cached_map: Vec::new(),
            dirty: true,
        }
    }

    /// Send an input to the session and apply what it gives: the session
    /// answers as it does to that input, and the answer's lines go to the
    /// transcript.
    pub fn dispatch(&mut self, input: Input)
        requires
            old(self).session.inv(),
        ensures
            final(self).session.inv(),
            dispatched(input, *old(self), *final(self)),
    {
        self.suggestions = None;
        let before_scene = owned(self.session.save.current_scene.as_str());
        let before_world = self.session.save.current_world;
        let before_chapter = owned(self.session.save.current_chapter.as_str());
        let outcome = self.session.handle(input);
        self.start_animation_for(&outcome, before_chapter.as_str(), before_scene.as_str(), before_world);
        let ghost o = outcome;
        let ghost mid = *self;
        self.process_outcome(outcome);
        let ghost after = *self;
        self.refresh_scene();
        self.dirty = true;
        proof {
            assert(transcript_extended(mid, after, outcome_lines(o)));
            assert(handle_answer(input, o, old(self).session, self.session));
        }
        assert(dispatched(input, *old(self), *self));
    }

    /// The transition an outcome calls for: a chapter card, an ending, a
    /// voice, or (judged from the save) a change of chapter, eye or scene.
    fn start_animation_for(&mut self, outcome: &Outcome, before_chapter: &str, before_scene: &str, before_world: crate::world::World)
        ensures
            *final(self) == (App {
                animation: started(
                    old(self).motion,
                    animation_for(*outcome, before_chapter@, before_scene@, before_world, old(self).session.save),
                    old(self).animation,
                ),
                ..*old(self)
            }),
            final(self).session == old(self).session,
            final(self).transcript == old(self).transcript,
            final(self).transcript_pushes == old(self).transcript_pushes,
            final(self).input == old(self).input,
            final(self).suggestions == old(self).suggestions,
    {
        let save = &self.session.save;
        let kind = match outcome {
            Outcome::ChapterIntro { .. } => Some(AnimationKind::Chapter),
            Outcome::ChapterOutro { .. } | Outcome::EndingReached { .. } => Some(AnimationKind::Ending),
            Outcome::Narrative { .. } => Some(AnimationKind::Voice),
            _ => {
                let in_chapter = before_chapter.unicode_len() > 0;
                if in_chapter && !crate::text::str_eq(save.current_chapter.as_str(), before_chapter) {
                    Some(AnimationKind::Chapter)
                } else if in_chapter && save.current_world != before_world {
                    Some(AnimationKind::Gaze)
                } else if in_chapter && !crate::text::str_eq(save.current_scene.as_str(), before_scene) {
                    Some(AnimationKind::Move)
                } else {
                    None
                }
            },
        };
        match kind {
            Some(k) => self.start_animation(k),
            None => {},
        }
    }

    /// Start a transition, as long as motion allows.
    fn start_animation(&mut self, kind: AnimationKind)
        ensures
            *final(self) == (App { animation: started(old(self).motion, Some(kind), old(self).animation), ..*old(self) }),
            old(self).motion == EffectiveMotion::Off ==> final(self).animation == old(self).animation,
            old(self).motion == EffectiveMotion::Full ==> final(self).animation == Some(
                Animation { kind, duration_ms: FULL_ANIMATION_MS },
            ),
            old(self).motion == EffectiveMotion::Reduced ==> final(self).animation == Some(
                Animation { kind, duration_ms: REDUCED_ANIMATION_MS },
            ),
            final(self).session == old(self).session,
            final(self).transcript == old(self).transcript,
            final(self).transcript_pushes == old(self).transcript_pushes,
            final(self).input == old(self).input,
            final(self).suggestions == old(self).suggestions,
    {
        let duration_ms = match self.motion {
            EffectiveMotion::Full => FULL_ANIMATION_MS,
            EffectiveMotion::Reduced => REDUCED_ANIMATION_MS,
            EffectiveMotion::Off => {
                return;
            },
        };
        self.animation = Some(Animation { kind, duration_ms });
    }

    /// One tick of the typewriter: one column at full motion, three at
    /// reduced; it ends when all is revealed, or at once when motion is off.
    pub fn update_typewriter(&mut self)
        ensures
            final(self).session == old(self).session,
            final(self).transcript == old(self).transcript,
            old(self).typewriter is None ==> final(self).typewriter is None,
            old(self).motion == EffectiveMotion::Off ==> final(self).typewriter is None,
            old(self).typewriter is Some && old(self).motion != EffectiveMotion::Off ==> ({
                let t = old(self).typewriter->0;
                let step: int = if old(self).motion == EffectiveMotion::Full { 1 } else { 3 };
                let rev = if t.revealed + step > t.total { t.total as int } else { t.revealed + step };
                if rev < t.total {
                    final(self).typewriter == Some(Typewriter { revealed: rev as usize, ..t })
                } else {
                    final(self).typewriter is None
                }
            }),
    {
        let mut tw = match self.typewriter {
            Some(t) => t,
            None => {
                return;
            },
        };
        if self.motion.is_off() {
            self.typewriter = None;
            self.dirty = true;
            return;
        }
        let step: usize = match self.motion {
            EffectiveMotion::Full => 1,
            _ => 3,
        };
        let next = tw.revealed.saturating_add(step);
        tw.revealed = if next < tw.total {
            next
        } else {
            tw.total
        };
        if tw.is_active() {
            self.typewriter = Some(tw);
        } else {
            self.typewriter = None;
        }
        self.dirty = true;
    }

    /// Move the transcript by a signed number of rows (up is positive).
    pub fn scroll_transcript(&mut self, delta: i32)
        requires
            delta > i32::MIN,
        ensures
            final(self).transcript_offset == crate::ui::scroll::apply_scroll_delta_spec(old(self).transcript_offset, delta),
            *final(self) == (App {
                transcript_offset: crate::ui::scroll::apply_scroll_delta_spec(old(self).transcript_offset, delta),
                ..*old(self)
            }),
            final(self).session == old(self).session,
            final(self).transcript == old(self).transcript,
    {
        self.transcript_offset = crate::ui::scroll::apply_scroll_delta(self.transcript_offset, delta);
    }

    /// The mouse wheel scrolls the transcript while it is visible.
    pub fn scroll_wheel(&mut self, up: bool) -> (r: bool)
        ensures
            r == (old(self).session.state == SessionState::Exploring || old(self).session.state.spec_is_ack()),
            !r ==> final(self).transcript_offset == old(self).transcript_offset,
            final(self).session == old(self).session,
    {
        if !crate::ui::scroll::is_transcript_scrollable(&self.session.state) {
            return false;
        }
        if up {
            self.scroll_transcript(3);
        } else {
            self.scroll_transcript(-3);
        }
        true
    }

    /// Clamp the scroll offset to what a transcript area of `width` columns
    /// and `height` rows can show.
    pub fn clamp_transcript_offset(&mut self, width: usize, height: usize)
        ensures
            final(self).transcript_offset <= old(self).transcript_offset,
            *final(self) == (App {
                transcript_offset: if old(self).transcript_offset == 0 {
                    0
                } else {
                    let total = transcript_total(
                        old(self).transcript@,
                        if width == 0 { 1nat } else { width as nat },
                        old(self).transcript@.len() as int,
                    );
                    let max = if total > height { total - height } else { 0 };
                    (if old(self).transcript_offset < max { old(self).transcript_offset as int } else { max }) as usize
                },
                ..*old(self)
            }),
            final(self).session == old(self).session,
            final(self).transcript == old(self).transcript,
    {
        if self.transcript_offset == 0 {
            return;
        }
        let w = if width == 0 {
            1
        } else {
            width
        };
        let mut total: usize = 0;
        let mut i: usize = 0;
        while i < self.transcript.len()
            invariant
                i <= self.transcript@.len(),
                self.transcript_offset == old(self).transcript_offset,
                *self == *old(self),
                w == (if width == 0 { 1nat } else { width as nat }),
                total as int == transcript_total(self.transcript@, w as nat, i as int),
            decreases self.transcript@.len() - i,
        {
            let text = self.transcript[i].text.as_str();
            if text.unicode_len() < usize::MAX {
                total = total.saturating_add(crate::ui::width::count_visual_lines(text, w));
            }
            i += 1;
        }
        self.transcript_offset = crate::ui::scroll::clamp_offset(self.transcript_offset, total, height);
    }
}

/// Topics of a chapter's characters, counted.
pub open spec fn topic_total(ccs: Seq<ChapterCharacter>) -> int
    decreases ccs.len(),
{
    if ccs.len() == 0 {
        0
    } else {
        topic_total(ccs.drop_last()) + ccs.last().topics@.len()
    }
}

/// How a map row names a checkpoint: its kind and the scene's name (the
/// scene id when unknown).
pub open spec fn row_label(e: ContentEngine, c: Checkpoint) -> Seq<char> {
    let kind = match c.kind {
        CheckpointKind::ChapterStart => "章节开始"@,
        CheckpointKind::BeforeJudgment => "审判前"@,
    };
    let scene = match lookup_key(e.scenes@, c.scene@) {
        Some(sc) => sc.name@,
        None => c.scene@,
    };
    kind + " · "@ + scene
}

/// The map rows of chapter `ch` among the first `n` checkpoints: position
/// and label.
pub open spec fn rows_upto(e: ContentEngine, cs: Seq<Checkpoint>, ch: Seq<char>, n: int) -> Seq<(usize, Seq<char>)>
    decreases n,
{
    if n <= 0 {
        Seq::empty()
    } else {
        let prev = rows_upto(e, cs, ch, n - 1);
        if cs[n - 1].chapter@ == ch {
            prev.push(((n - 1) as usize, row_label(e, cs[n - 1])))
        } else {
            prev
        }
    }
}

/// What a map group shows.
pub type GroupView = (Seq<char>, bool, bool, usize, Option<(usize, usize)>, Seq<(usize, Seq<char>)>);

pub open spec fn group_view(g: MapGroup) -> GroupView {
    (g.title@, g.ending, g.is_current, g.unseen_branches, g.topic_progress, g.checkpoints@.map_values(|r: MapRow| (r.flat_index, r.label@)))
}

/// The map group of a reached chapter: title (the id when unknown), ending
/// mark, current mark, branches to chapters not reached yet, topics asked
/// out of the chapter's topics (none when it has none), and its checkpoints.
pub open spec fn spec_group(e: ContentEngine, save: Save, ch: Seq<char>) -> GroupView {
    let reached = strs(save.discovered.chapters@);
    let chapter = lookup_key(e.chapters@, ch);
    let title = match chapter {
        Some(c) => c.title@,
        None => ch,
    };
    let ending = match chapter {
        Some(c) => c.ending,
        None => false,
    };
    let unseen = match chapter {
        Some(c) => spec_next_targets(c).filter(|t: Seq<char>| !reached.contains(t)).len(),
        None => 0,
    };
    let asked = if save.discovered.topics@.contains_key(ch) {
        save.discovered.topics@[ch]@.len() as int
    } else {
        0
    };
    let total_raw = match chapter {
        Some(c) => topic_total(c.characters@),
        None => 0,
    };
    let total = if total_raw > usize::MAX { usize::MAX as int } else { total_raw };
    let progress = if total > 0 {
        Some(((if asked < total { asked } else { total }) as usize, total as usize))
    } else {
        None
    };
    (title, ending, ch == save.current_chapter@, unseen as usize, progress, rows_upto(e, save.checkpoints@, ch, save.checkpoints@.len() as int))
}

/// The map panel: one group per reached chapter, in the order reached.
pub open spec fn spec_map_groups(e: ContentEngine, save: Save) -> Seq<GroupView> {
    strs(save.discovered.chapters@).map_values(|ch: Seq<char>| spec_group(e, save, ch))
}

impl<B: SaveBackend> App<B> {
    /// The checkpoint rows of a chapter.
    fn map_rows(&self, ch: &str) -> (r: Vec<MapRow>)
        ensures
            r@.map_values(|x: MapRow| (x.flat_index, x.label@)) == rows_upto(
                self.session.engine,
                self.session.save.checkpoints@,
                ch@,
                self.session.save.checkpoints@.len() as int,
            ),
    {
        let cs = &self.session.save.checkpoints;
        let mut rows: Vec<MapRow> = Vec::new();
        let mut i: usize = 0;
        while i < cs.len()
            invariant
                i <= cs@.len(),
                rows@.map_values(|x: MapRow| (x.flat_index, x.label@)) == rows_upto(self.session.engine, cs@, ch@, i as int),
            decreases cs@.len() - i,
        {
            let c = &cs[i];
            if crate::text::str_eq(c.chapter.as_str(), ch) {
                let kind = match c.kind {
                    CheckpointKind::ChapterStart => "章节开始",
                    CheckpointKind::BeforeJudgment => "审判前",
                };
                let scene = match self.session.engine.get_scene(c.scene.as_str()) {
                    Some(sc) => owned(sc.name.as_str()),
                    None => owned(c.scene.as_str()),
                };
                let ghost before = rows@.map_values(|x: MapRow| (x.flat_index, x.label@));
                rows.push(MapRow { flat_index: i, label: join3(kind, " · ", scene.as_str()) });
                assert(rows@.map_values(|x: MapRow| (x.flat_index, x.label@)) =~= before.push((i, row_label(self.session.engine, cs@[i as int]))));
            }
            i += 1;
        }
        rows
    }

    /// The map panel's groups.
    pub fn compute_map_groups(&self) -> (r: Vec<MapGroup>)
        ensures
            r@.map_values(|g: MapGroup| group_view(g)) == spec_map_groups(self.session.engine, self.session.save),
    {
        let save = &self.session.save;
        let engine = &self.session.engine;
        let ghost reached = strs(save.discovered.chapters@);
        let mut out: Vec<MapGroup> = Vec::new();
        let mut k: usize = 0;
        while k < save.discovered.chapters.len()
            invariant
                k <= save.discovered.chapters@.len(),
                reached == strs(save.discovered.chapters@),
                save == self.session.save,
                engine == self.session.engine,
                out@.map_values(|g: MapGroup| group_view(g)) == spec_map_groups(*engine, *save).take(k as int),
            decreases save.discovered.chapters@.len() - k,
        {
            let ch = save.discovered.chapters[k].as_str();
            let chapter = engine.get_chapter(ch);
            let title = match chapter {
                Some(c) => owned(c.title.as_str()),
                None => owned(ch),
            };
            let ending = match chapter {
                Some(c) => c.ending,
                None => false,
            };
            let is_current = crate::text::str_eq(ch, save.current_chapter.as_str());
            let targets = engine.next_targets(ch);
            let ghost ts = strs_ref(targets@);
            let ghost p = |t: Seq<char>| !reached.contains(t);
            let mut unseen: usize = 0;
            let mut j: usize = 0;
            while j < targets.len()
                invariant
                    j <= targets@.len(),
                    ts == strs_ref(targets@),
                    reached == strs(save.discovered.chapters@),
                    p == (|t: Seq<char>| !reached.contains(t)),
                    unseen == ts.take(j as int).filter(p).len(),
                decreases targets@.len() - j,
            {
                proof {
                    assert(ts.take(j + 1) =~= ts.take(j as int).push(ts[j as int]));
                    ts.take(j as int).lemma_filter_push(ts[j as int], p);
                }
                if !crate::save::schema::contains_str(&save.discovered.chapters, targets[j]) {
                    unseen = unseen + 1;
                }
                j += 1;
            }
            assert(ts.take(ts.len() as int) =~= ts);
            let asked = match save.discovered.topics.get(ch) {
                Some(v) => v.len(),
                None => 0,
            };
            let mut total: usize = 0;
            match chapter {
                Some(c) => {
                    let mut m: usize = 0;
                    while m < c.characters.len()
                        invariant
                            m <= c.characters@.len(),
                            total as int == (if topic_total(c.characters@.take(m as int)) > usize::MAX {
                                usize::MAX as int
                            } else {
                                topic_total(c.characters@.take(m as int))
                            }),
                        decreases c.characters@.len() - m,
                    {
                        proof {
                            assert(c.characters@.take(m + 1).drop_last() =~= c.characters@.take(m as int));
                        }
                        total = total.saturating_add(c.characters[m].topics.len());
                        m += 1;
                    }
                    assert(c.characters@.take(c.characters@.len() as int) =~= c.characters@);
                },
                None => {},
            }
            let topic_progress = if total > 0 {
                Some((if asked < total { asked } else { total }, total))
            } else {
                None
            };
            let checkpoints = self.map_rows(ch);
            let ghost before = out@.map_values(|g: MapGroup| group_view(g));
            out.push(MapGroup { title, ending, is_current, unseen_branches: unseen, topic_progress, checkpoints });
            proof {
                assert(spec_map_groups(*engine, *save).take(k + 1) =~= spec_map_groups(*engine, *save).take(k as int).push(
                    spec_group(*engine, *save, reached[k as int]),
                ));
                assert(out@.map_values(|g: MapGroup| group_view(g)) =~= before.push(group_view(out@.last())));
            }
            k += 1;
        }
        assert(spec_map_groups(*engine, *save).take(save.discovered.chapters@.len() as int) =~= spec_map_groups(*engine, *save));
        out
    }
}

impl<B: SaveBackend> App<B> {
    /// The scene panel's data: chapter title, scene name, the scene as the
    /// current eye sees it, and the characters present with their topics.
    fn scene_snapshot(&self) -> (r: (String, String, String, Vec<NpcInfo>))
        ensures
            r.0@ == match lookup_key(self.session.engine.chapters@, self.session.save.current_chapter@) {
                Some(c) => c.title@,
                None => "DarkBluff"@,
            },
            r.1@ == match lookup_key(self.session.engine.scenes@, self.session.save.current_scene@) {
                Some(sc) => sc.name@,
                None => "—"@,
            },
            r.2@ == match self.session.engine.spec_scene_description(
                self.session.save.current_chapter@,
                self.session.save.current_scene@,
                self.session.save.current_world,
            ) {
                Some(t) => t,
                None => "No description for this perspective."@,
            },
            r.3@.map_values(|n: NpcInfo| n.id@) == self.session.engine.spec_characters_in_scene(
                self.session.save.current_chapter@,
                self.session.save.current_scene@,
            ).map_values(|c: crate::content::models::Character| c.id@),
    {
        let save = &self.session.save;
        let engine = &self.session.engine;
        let ch = save.current_chapter.as_str();
        let scene = save.current_scene.as_str();
        let title = match engine.get_chapter(ch) {
            Some(c) => owned(c.title.as_str()),
            None => owned("DarkBluff"),
        };
        let scene_name = match engine.get_scene(scene) {
            Some(sc) => owned(sc.name.as_str()),
            None => owned("—"),
        };
        let scene_text = match engine.get_scene_description(ch, scene, save.current_world) {
            Some(t) => owned(t),
            None => owned("No description for this perspective."),
        };
        let chars = engine.get_characters_in_scene(ch, scene);
        let ghost cs = engine.spec_characters_in_scene(ch@, scene@);
        let mut npcs: Vec<NpcInfo> = Vec::new();
        let mut i: usize = 0;
        while i < chars.len()
            invariant
                i <= chars@.len(),
                chars@.map_values(|c: &crate::content::models::Character| *c) == cs,
                npcs@.map_values(|n: NpcInfo| n.id@) == cs.take(i as int).map_values(|c: crate::content::models::Character| c.id@),
            decreases chars@.len() - i,
        {
            let c = chars[i];
            assert(cs[i as int] == *c);
            let topics = engine.get_topics(ch, c.id.as_str());
            let mut shown: Vec<NpcTopic> = Vec::new();
            let mut k: usize = 0;
            while k < topics.len()
                invariant
                    k <= topics@.len(),
                decreases topics@.len() - k,
            {
                shown.push(NpcTopic { label: owned(topics[k].label.as_str()), available: topics[k].available });
                k += 1;
            }
            let ghost before = npcs@.map_values(|n: NpcInfo| n.id@);
            npcs.push(NpcInfo { name: owned(c.name.as_str()), id: owned(c.id.as_str()), topics: shown });
            proof {
                assert(npcs@.map_values(|n: NpcInfo| n.id@) =~= before.push(c.id@));
                assert(cs.take(i + 1) =~= cs.take(i as int).push(cs[i as int]));
                assert(cs.take(i + 1).map_values(|c: crate::content::models::Character| c.id@) =~= cs.take(i as int).map_values(
                    |c: crate::content::models::Character| c.id@,
                ).push(c.id@));
            }
            i += 1;
        }
        assert(cs.take(chars@.len() as int) =~= cs);
        (title, scene_name, scene_text, npcs)
    }

    /// Refresh the scene panel's data, and the map panel's while the
    /// checkpoint menu is open.
    pub fn refresh_scene(&mut self)
        ensures
            final(self).session == old(self).session,
            final(self).transcript == old(self).transcript,
            final(self).transcript_pushes == old(self).transcript_pushes,
            final(self).transcript_offset == old(self).transcript_offset,
            final(self).input == old(self).input,
            final(self).suggestions == old(self).suggestions,
            final(self).menu == old(self).menu,
            final(self).running == old(self).running,
            old(self).session.state == SessionState::ChoosingCheckpoint ==> final(self).cached_map@.map_values(
                |g: MapGroup| group_view(g),
            ) == spec_map_groups(old(self).session.engine, old(self).session.save),
            old(self).session.state != SessionState::ChoosingCheckpoint ==> final(self).cached_map@.len() == 0,
    {
        let (title, scene_name, scene_text, npcs) = self.scene_snapshot();
        self.cached_title = title;
        self.cached_scene_name = scene_name;
        self.cached_scene_text = scene_text;
        self.cached_npcs = npcs;
        self.cached_map = match self.session.state {
            SessionState::ChoosingCheckpoint => self.compute_map_groups(),
            _ => Vec::new(),
        };
    }

    /// Recompute the completion pop-up: only while the cursor is at the end
    /// of the line.
    pub fn recompute_suggestions(&mut self)
        ensures
            final(self).session == old(self).session,
            final(self).input == old(self).input,
            final(self).transcript == old(self).transcript,
            old(self).input@.0.len() != old(self).input@.1 ==> final(self).suggestions is None,
            old(self).input@.1 == old(self).input@.0.len() ==> crate::ui::suggest::pop_view(final(self).suggestions)
                == crate::ui::suggest::spec_suggestions(old(self).input@.0, old(self).session.engine, old(self).session.save),
    {
        self.suggestions = if self.input.cursor_at_end() {
            crate::ui::suggest::compute_suggestions(self.input.value(), &self.session.engine, &self.session.save)
        } else {
            None
        };
    }

    /// Move the pop-up's selection, clamped to its items.
    pub fn move_suggest(&mut self, delta: i32)
        ensures
            *final(self) == (App { suggestions: suggest_moved(old(self).suggestions, delta), ..*old(self) }),
            final(self).session == old(self).session,
            final(self).input == old(self).input,
    {
        match &mut self.suggestions {
            Some(sg) => {
                if sg.items.len() <= i32::MAX as usize && sg.selected <= i32::MAX as usize {
                    sg.move_selection(delta);
                }
            },
            None => {},
        }
    }

    /// Replace the line's trailing half token with the selected completion.
    pub fn complete_suggestion(&mut self)
        ensures
            completed(*old(self), *final(self)),
    {
        let insert = match &self.suggestions {
            Some(sg) => {
                if sg.selected < sg.items.len() {
                    owned(sg.items[sg.selected].insert.as_str())
                } else {
                    return;
                }
            },
            None => {
                return;
            },
        };
        let new_val = crate::ui::suggest::apply_completion(self.input.value(), insert.as_str());
        self.input.set_value(new_val);
        self.recompute_suggestions();
    }

    /// Submit the line: a command completion is applied first (Enter does
    /// not submit half a command); otherwise the line, without its leading
    /// slashes, goes to the session unless it is blank.
    pub fn submit_command(&mut self)
        requires
            old(self).session.inv(),
        ensures
            final(self).session.inv(),
            entered(*old(self), *final(self)),
    {
        let command_pop = match &self.suggestions {
            Some(sg) => match sg.kind {
                crate::ui::types::SuggestKind::Command => true,
                _ => false,
            },
            None => false,
        };
        if command_pop {
            self.complete_suggestion();
            return;
        }
        let line = self.input.submit();
        self.suggestions = None;
        let cmd = crate::ui::suggest::strip_slash(line.as_str());
        if crate::text::trim(cmd.as_str()).unicode_len() > 0 {
            let ghost mid = *self;
            let ghost t = cmd;
            self.dispatch(Input::Text(cmd));
            assert(dispatched(Input::Text(t), mid, *self));
        }
    }

    /// Move the menu cursor by `delta`, wrapping around.
    pub fn move_menu(&mut self, delta: i32)
        ensures
            *final(self) == (App { menu: menu_moved(old(self).menu, delta), ..*old(self) }),
            final(self).session == old(self).session,
            old(self).menu is Some && old(self).menu->0.options@.len() > 0 && old(self).menu->0.options@.len() <= i32::MAX
                ==> ({
                let m = old(self).menu->0;
                final(self).menu == Some(
                    ActiveMenu {
                        selected: ring_move(m.selected as int % m.options@.len() as int, delta as int, m.options@.len() as int) as usize,
                        ..m
                    },
                )
            }),
    {
        match &mut self.menu {
            Some(menu) => {
                let len = menu.options.len();
                if len > 0 && len <= i32::MAX as usize {
                    let cur = menu.selected % len;
                    let r = if delta >= 0 {
                        let step = (delta as usize) % len;
                        proof {
                            vstd::arithmetic::div_mod::lemma_add_mod_noop_right(cur as int, delta as int, len as int);
                        }
                        (cur + step) % len
                    } else {
                        let a = (-(delta as i64)) as usize;
                        let step = len - a % len;
                        proof {
                            vstd::arithmetic::div_mod::lemma_mod_multiples_vanish(1, cur as int - (a % len) as int, len as int);
                            vstd::arithmetic::div_mod::lemma_sub_mod_noop_right(cur as int, a as int, len as int);
                            assert(cur + step == len as int * 1 + (cur as int - (a % len) as int));
                            assert(cur as int - a as int == cur as int + delta as int);
                        }
                        (cur + step) % len
                    };
                    menu.selected = r;
                }
            },
            None => {},
        }
    }
}

impl<B: SaveBackend> App<B> {
    /// A key press: the notice clears; a running typewriter finishes at once
    /// (and, while a story waits for acknowledgement, the key does nothing
    /// more); Control-C quits; the notes panel takes keys while open;
    /// otherwise the session's state decides.
    pub fn handle_key(&mut self, key: Key)
        requires
            old(self).session.inv(),
        ensures
            final(self).session.inv(),
            skips_story(*old(self)) ==> final(self).session == old(self).session && final(self).typewriter is None,
            !skips_story(*old(self)) ==> exists|mid: App<B>| #[trigger] key_routed(key, mid, *final(self)) && mid == (App {
                notice: None,
                typewriter: mid.typewriter,
                dirty: mid.dirty,
                ..*old(self)
            }),
    {
        self.notice = None;
        let active = match &self.typewriter {
            Some(t) => t.is_active(),
            None => false,
        };
        if active {
            self.typewriter = None;
            self.dirty = true;
            if self.session.state.is_ack() {
                return;
            }
        }
        let ghost mid = *self;
        assert(mid == (App { notice: None, typewriter: mid.typewriter, dirty: mid.dirty, ..*old(self) }));
        if key == Key::Ctrl('c') {
            self.dispatch(Input::Quit);
            assert(key_routed(key, mid, *self));
            return;
        }
        if self.note_panel.is_some() {
            self.handle_note_key(key);
            assert(key_routed(key, mid, *self));
            return;
        }
        match self.session.state {
            SessionState::Title | SessionState::ChoosingSettings | SessionState::ChoosingAskCharacter
            | SessionState::ChoosingAskTopic | SessionState::ChoosingJudgeCharacter | SessionState::ChoosingMove
            | SessionState::ChoosingCheckpoint => self.handle_menu_key(key),
            SessionState::Confirming => self.handle_confirm_key(key),
            SessionState::ShowingIntro | SessionState::ShowingNarrative | SessionState::ShowingOutro
            | SessionState::Ending => self.handle_ack_key(key),
            SessionState::Exploring => self.handle_command_key(key),
        }
        assert(key_routed(key, mid, *self));
    }

    /// Keys in a menu: Esc cancels (on the title screen it saves and quits),
    /// Up/Down (or k/j) move the cursor around the ring, Enter picks the
    /// cursor's option and a digit picks by position.
    fn handle_menu_key(&mut self, key: Key)
        requires
            old(self).session.inv(),
        ensures
            final(self).session.inv(),
            menu_key(key, *old(self), *final(self)),
    {
        match key {
            Key::Esc => {
                match self.session.state {
                    SessionState::Title => self.dispatch(Input::Quit),
                    _ => self.dispatch(Input::Cancel),
                }
            },
            Key::Up | Key::Char('k') => self.move_menu(-1),
            Key::Down | Key::Char('j') => self.move_menu(1),
            Key::Enter => {
                let selected = match &self.menu {
                    Some(menu) => Some(menu.selected),
                    None => None,
                };
                match selected {
                    Some(i) => self.dispatch(Input::Select(Selection::Index(i))),
                    None => {},
                }
            },
            Key::Char(c) => {
                let n = match &self.menu {
                    Some(menu) => Some(menu.options.len()),
                    None => None,
                };
                match (n, digit_index(c)) {
                    (Some(n), Some(index)) => {
                        if index < n {
                            self.dispatch(Input::Select(Selection::Index(index)));
                        }
                    },
                    _ => {},
                }
            },
            _ => {},
        }
    }

    /// Keys on a confirmation: y or Enter confirm, n or Esc decline.
    fn handle_confirm_key(&mut self, key: Key)
        requires
            old(self).session.inv(),
        ensures
            final(self).session.inv(),
            confirm_key(key, *old(self), *final(self)),
    {
        match key {
            Key::Char('y') | Key::Char('Y') | Key::Enter => self.dispatch(Input::Confirm(true)),
            Key::Char('n') | Key::Char('N') | Key::Esc => self.dispatch(Input::Confirm(false)),
            _ => {},
        }
    }

    /// Keys while a story waits: page keys scroll the transcript (to read
    /// back before going on), Esc, Enter and any character continue.
    fn handle_ack_key(&mut self, key: Key)
        requires
            old(self).session.inv(),
        ensures
            final(self).session.inv(),
            ack_key(key, *old(self), *final(self)),
    {
        match key {
            Key::PageUp => self.scroll_transcript(crate::ui::scroll::PAGE_STEP),
            Key::PageDown => self.scroll_transcript(-crate::ui::scroll::PAGE_STEP),
            Key::Esc | Key::Enter | Key::Char(_) => self.dispatch(Input::Ack),
            _ => {},
        }
    }

    /// Keys in the notes panel: 1 to 4 switch tabs, Esc closes it.
    fn handle_note_key(&mut self, key: Key)
        ensures
            note_key(key, *old(self), *final(self)),
    {
        match key {
            Key::Esc => {
                self.note_panel = None;
                self.dirty = true;
            },
            Key::Char(c) => {
                match (NoteTab::from_digit(c), &mut self.note_panel) {
                    (Some(tab), Some(panel)) => {
                        panel.tab = tab;
                        self.dirty = true;
                    },
                    _ => {},
                }
            },
            _ => {},
        }
    }

    /// Keys on the command line: Esc clears it; with the pop-up open,
    /// Up/Down choose and Tab completes; Enter submits; page keys scroll;
    /// editing keys edit; a character is typed in.
    fn handle_command_key(&mut self, key: Key)
        requires
            old(self).session.inv(),
        ensures
            final(self).session.inv(),
            command_key(key, *old(self), *final(self)),
    {
        let palette_open = self.suggestions.is_some();
        match key {
            Key::Esc => {
                self.input = CommandInput::default();
                self.recompute_suggestions();
            },
            Key::Up => {
                if palette_open {
                    self.move_suggest(-1);
                }
            },
            Key::Down => {
                if palette_open {
                    self.move_suggest(1);
                }
            },
            Key::Tab => {
                if palette_open {
                    self.complete_suggestion();
                }
            },
            Key::Enter => self.submit_command(),
            Key::PageUp => self.scroll_transcript(crate::ui::scroll::PAGE_STEP),
            Key::PageDown => self.scroll_transcript(-crate::ui::scroll::PAGE_STEP),
            Key::Backspace | Key::Delete | Key::Left | Key::Right | Key::Home | Key::End => self.apply_edit(key),
            Key::Char(c) => {
                if self.input.value().unicode_len() < usize::MAX {
                    self.input.insert(c);
                    self.recompute_suggestions();
                }
            },
            Key::Ctrl(_) => {},
        }
    }

    /// An editing key, then the pop-up is recomputed.
    fn apply_edit(&mut self, key: Key)
        ensures
            final(self).session == old(self).session,
            !is_edit_key(key) ==> *final(self) == *old(self),
            is_edit_key(key) ==> final(self).input@ == edited(key, old(self).input@) && final(self).transcript
                == old(self).transcript && (final(self).input@.1 != final(self).input@.0.len()
                ==> final(self).suggestions is None) && (final(self).input@.1 == final(self).input@.0.len()
                ==> crate::ui::suggest::pop_view(final(self).suggestions) == crate::ui::suggest::spec_suggestions(
                final(self).input@.0,
                old(self).session.engine,
                old(self).session.save,
            )),
    {
        match key {
            Key::Backspace => self.input.backspace(),
            Key::Delete => self.input.delete(),
            Key::Left => self.input.move_left(),
            Key::Right => self.input.move_right(),
            Key::Home => self.input.jump_start(),
            Key::End => self.input.jump_end(),
            _ => {
                return;
            },
        }
        self.recompute_suggestions();
    }
}

} // verus!
