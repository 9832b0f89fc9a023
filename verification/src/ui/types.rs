//! Data shared by the views and the controller of a terminal front end.

use vstd::prelude::*;

use crate::engine::outcome::{MenuKind, MenuOption};

verus! {

/// Front-end options.
#[derive(Debug, Clone, Default)]
pub struct TuiOptions {
    /// Transitions off for this run.
    pub no_motion: bool,
    /// Save directory; the platform default when absent.
    pub save_dir: Option<String>,
}

/// One character shown in the scene panel.
#[derive(Debug, Clone)]
pub struct NpcInfo {
    pub name: String,
    pub id: String,
    pub topics: Vec<NpcTopic>,
}

/// One topic shown under a character.
#[derive(Debug, Clone)]
pub struct NpcTopic {
    pub label: String,
    pub available: bool,
}

/// A passing status shown beside the input line.
#[derive(Debug, Clone)]
pub struct StatusLine {
    pub kind: StatusKind,
    pub text: String,
}

/// Kind of a status.
#[derive(Debug, Clone, Copy, PartialEq, Eq, Structural)]
pub enum StatusKind {
    Info,
    Warn,
    Error,
    Hint,
}

/// The completion pop-up.
#[derive(Debug, Clone)]
pub struct Suggestions {
    pub kind: SuggestKind,
    pub items: Vec<Suggestion>,
    pub selected: usize,
}

/// What is being completed.
#[derive(Debug, Clone, Copy, PartialEq, Eq, Structural)]
pub enum SuggestKind {
    Command,
    Character,
    Scene,
    Topic,
}

/// One completion.
#[derive(Debug, Clone)]
pub struct Suggestion {
    pub display: String,
    pub desc: String,
    /// Text that replaces the trailing token when chosen (with its trailing
    /// space).
    pub insert: String,
}

impl Suggestions {
    /// A pop-up on the first item; none when there is nothing to offer.
    pub fn new(kind: SuggestKind, items: Vec<Suggestion>) -> (r: Option<Suggestions>)
        ensures
            r is None <==> items@.len() == 0,
            r matches Some(s) ==> s.kind == kind && s.items == items && s.selected == 0,
    {
        if items.len() == 0 {
            None
        } else {
            Some(Suggestions { kind, items, selected: 0 })
        }
    }

    /// Move the selection by `delta` items, clamped to the list.
    pub fn move_selection(&mut self, delta: i32)
        requires
            old(self).items@.len() <= i32::MAX,
            old(self).selected <= i32::MAX,
        ensures
            final(self).kind == old(self).kind,
            final(self).items == old(self).items,
            final(self).selected as int == {
                let last = if old(self).items@.len() > 0 { old(self).items@.len() - 1 } else { 0 };
                let s = old(self).selected + delta;
                if s < 0 {
                    0
                } else if s > last {
                    last
                } else {
                    s
                }
            },
    {
        let n = self.items.len();
        let last: i64 = if n > 0 {
            (n - 1) as i64
        } else {
            0
        };
        let mut s: i64 = self.selected as i64 + delta as i64;
        if s < 0 {
            s = 0;
        }
        if s > last {
            s = last;
        }
        self.selected = s as usize;
    }
}

/// A menu as the views draw it.
#[derive(Debug, Clone, Copy)]
pub struct MenuView<'a> {
    pub kind: MenuKind,
    pub options: &'a [MenuOption],
    pub selected: usize,
}

/// A chapter group of the map panel: title, marks, topic progress and its
/// checkpoints.
#[derive(Debug, Clone, Default)]
pub struct MapGroup {
    pub title: String,
    pub ending: bool,
    pub is_current: bool,
    /// Branches seen but not visited (shown as `???`).
    pub unseen_branches: usize,
    /// (topics asked, topics askable this chapter).
    pub topic_progress: Option<(usize, usize)>,
    pub checkpoints: Vec<MapRow>,
}

/// One selectable checkpoint of the map panel; `flat_index` is its position
/// in the engine's checkpoint menu.
#[derive(Debug, Clone)]
pub struct MapRow {
    pub flat_index: usize,
    pub label: String,
}

} // verus!
