//! What a game session takes in and gives out.
//!
//! A renderer drives the session with [`Input`] and shows each [`Outcome`];
//! tests assert on them.

use vstd::prelude::*;

use crate::world::World;

verus! {

/// A menu option.
#[derive(Debug, Clone, PartialEq, Eq)]
pub struct MenuOption {
    pub id: String,
    pub label: String,
}

/// What a menu is for; a renderer may show kinds differently.
#[derive(Debug, Clone, Copy, PartialEq, Eq, Structural)]
pub enum MenuKind {
    Title,
    Settings,
    AskCharacter,
    AskTopic,
    JudgeCharacter,
    MoveDestination,
    Checkpoint,
}

/// An action that needs a second confirmation.
#[derive(Debug, Clone, PartialEq, Eq)]
pub enum ConfirmationAction {
    NewGame,
    Rollback { checkpoint_id: String },
}

/// Level of a message.
#[derive(Debug, Clone, Copy, PartialEq, Eq, Structural)]
pub enum MessageLevel {
    Info,
    Warning,
    Error,
}

/// A group of message lines.
#[derive(Debug, Clone, PartialEq, Eq)]
pub struct Message {
    pub level: MessageLevel,
    pub lines: Vec<String>,
}

impl Message {
    /// An informational message.
    pub fn info(lines: Vec<String>) -> (m: Message)
        ensures
            m.level == MessageLevel::Info,
            m.lines == lines,
    {
        Message { level: MessageLevel::Info, lines }
    }

    /// A warning.
    pub fn warning(lines: Vec<String>) -> (m: Message)
        ensures
            m.level == MessageLevel::Warning,
            m.lines == lines,
    {
        Message { level: MessageLevel::Warning, lines }
    }

    /// An error.
    pub fn error(lines: Vec<String>) -> (m: Message)
        ensures
            m.level == MessageLevel::Error,
            m.lines == lines,
    {
        Message { level: MessageLevel::Error, lines }
    }
}

/// A dialogue in the notes.
#[derive(Debug, Clone)]
pub struct NoteDialogue {
    pub chapter: String,
    pub character_id: String,
    pub character_name: String,
    pub topic_id: String,
    pub topic_label: String,
    pub world: World,
    pub text: String,
}

/// An intro or outro in the notes.
#[derive(Debug, Clone)]
pub struct NoteNarrative {
    pub chapter: String,
    pub title: String,
    pub is_outro: bool,
    pub text: String,
}

/// A judgment result in the notes.
#[derive(Debug, Clone)]
pub struct NoteJudgment {
    pub chapter: String,
    pub judgment_id: String,
    pub target_name: String,
    pub text: String,
}

/// An inner voice or memory fragment in the notes.
#[derive(Debug, Clone)]
pub struct NoteVoice {
    pub chapter: String,
    pub label: String,
    pub text: String,
}

/// The notes over the current chapter path.
#[derive(Debug, Clone, Default)]
pub struct NoteView {
    pub dialogues: Vec<NoteDialogue>,
    pub narratives: Vec<NoteNarrative>,
    pub judgments: Vec<NoteJudgment>,
    pub voices: Vec<NoteVoice>,
}

/// What the session gives out.
#[derive(Debug, Clone)]
pub enum Outcome {
    /// Message lines (hints, story).
    Message(Message),
    /// A dialogue's full text with notes.
    Dialogue { header: String, body: String, notes: Vec<String> },
    /// Open a menu.
    MenuRequested { kind: MenuKind, prompt: String, options: Vec<MenuOption> },
    /// Ask for a confirmation.
    ConfirmationRequested { action: ConfirmationAction, prompt: String },
    /// A chapter intro (waits for an acknowledgement).
    ChapterIntro { text: String },
    /// An ending chapter's outro (waits for an acknowledgement).
    ChapterOutro { text: String },
    /// A scene description, shown on entering or returning to a scene.
    SceneDescription { text: String },
    /// A narrative trigger's text (waits for an acknowledgement).
    Narrative { label: String, text: String },
    /// The notes.
    Notes(NoteView),
    /// The ending screen.
    EndingReached { title: String, found: usize, total: usize },
    /// Quit.
    QuitRequested,
    /// Input ignored in the current state.
    Ignored,
}

/// A menu choice: by position or by option id.
#[derive(Debug, Clone, PartialEq, Eq)]
pub enum Selection {
    Index(usize),
    Id(String),
}

/// What the session takes in.
#[derive(Debug, Clone)]
pub enum Input {
    /// A command line (while exploring).
    Text(String),
    /// A menu choice.
    Select(Selection),
    /// Cancel (Esc).
    Cancel,
    /// A confirmation answer.
    Confirm(bool),
    /// Continue past an intro, outro, narrative or ending.
    Ack,
    /// Quit through the normal path: the save is written first, and a failed
    /// write keeps the game open.
    Quit,
    /// Quit whatever happens to the save (for termination signals).
    ForceQuit,
}

/// Session state.
#[derive(Debug, Clone, Copy, PartialEq, Eq, Structural)]
pub enum SessionState {
    Title,
    ChoosingSettings,
    ShowingIntro,
    Exploring,
    ChoosingAskCharacter,
    ChoosingAskTopic,
    ChoosingJudgeCharacter,
    ChoosingMove,
    ChoosingCheckpoint,
    Confirming,
    ShowingNarrative,
    ShowingOutro,
    Ending,
}

} // verus!
