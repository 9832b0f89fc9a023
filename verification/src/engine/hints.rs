//! First-chapter hints: short notes that teach `judge`, `gaze` and `map`
//! when the player first has a reason to use them. Each is given once per
//! session, and only while the player is still in the first chapter.

use vstd::prelude::*;

use crate::engine::state::Session;
use crate::save::backend::SaveBackend;
use crate::text::{owned, str_eq, strs};
use crate::world::World;

verus! {

/// Hint given after the first clue is collected.
pub open spec fn judge_hint() -> Seq<char> {
    "[提示] 有了线索，就可以用 judge 审判你怀疑的角色。"@
}

/// Hint given after three asks on the surface without looking through the
/// left eye.
pub open spec fn gaze_hint() -> Seq<char> {
    "[提示] 试试 gaze：换左眼看看影子世界，同一句话底下可能另有隐情。"@
}

/// Hint given after the first judgment.
pub open spec fn map_hint() -> Seq<char> {
    "[提示] 审判可以撤回：用 map 回到审判前的节点。"@
}

/// Asks on the surface after which the gaze hint is given.
pub const GAZE_HINT_ASKS: u32 = 3;

/// What the hints have seen so far.
#[derive(Debug, Clone, Copy, PartialEq, Eq, Structural)]
pub struct Hints {
    /// Asks made on the surface.
    pub surface_asks: u32,
    /// The player has used `gaze`.
    pub gazed: bool,
    pub judge_given: bool,
    pub gaze_given: bool,
    pub map_given: bool,
}

impl Hints {
    /// Nothing seen yet.
    pub fn new() -> (h: Hints)
        ensures
            h == (Hints { surface_asks: 0, gazed: false, judge_given: false, gaze_given: false, map_given: false }),
    {
        Hints { surface_asks: 0, gazed: false, judge_given: false, gaze_given: false, map_given: false }
    }
}

/// The hints after an ask in `world` that did or did not collect a new clue,
/// and the hint that ask earns, if any: the judge hint on the first new
/// clue; otherwise the gaze hint once three surface asks were made without
/// gazing.
pub open spec fn after_ask(h: Hints, world: World, collected_new: bool) -> (Hints, Option<Seq<char>>) {
    let asks = if world == World::Surface && h.surface_asks < u32::MAX {
        (h.surface_asks + 1) as u32
    } else {
        h.surface_asks
    };
    let h1 = Hints { surface_asks: asks, ..h };
    if collected_new && !h.judge_given {
        (Hints { judge_given: true, ..h1 }, Some(judge_hint()))
    } else if world == World::Surface && asks >= GAZE_HINT_ASKS && !h.gazed && !h.gaze_given {
        (Hints { gaze_given: true, ..h1 }, Some(gaze_hint()))
    } else {
        (h1, None)
    }
}

/// The hints after a judgment, and the hint it earns: the map hint on the
/// first judgment.
pub open spec fn after_judge(h: Hints) -> (Hints, Option<Seq<char>>) {
    if !h.map_given {
        (Hints { map_given: true, ..h }, Some(map_hint()))
    } else {
        (h, None)
    }
}

/// The view of an optional string.
pub open spec fn opt_str(o: Option<String>) -> Option<Seq<char>> {
    match o {
        Some(s) => Some(s@),
        None => None,
    }
}

impl<B: SaveBackend> Session<B> {
    /// The player is still in the first chapter: the path holds only the
    /// current chapter, and it is the root of the chapter graph.
    pub open spec fn spec_in_first_chapter(&self) -> bool {
        &&& self.save.chapter_path@.len() == 1
        &&& self.engine.root_chapter matches Some(root) && root@ == self.save.current_chapter@
    }

    pub(crate) fn in_first_chapter(&self) -> (r: bool)
        ensures
            r == self.spec_in_first_chapter(),
    {
        if self.save.chapter_path.len() != 1 {
            return false;
        }
        match self.engine.first_chapter_id() {
            Some(root) => str_eq(root, self.save.current_chapter.as_str()),
            None => false,
        }
    }

    /// The hint an ask earns (see [`after_ask`]); outside the first chapter
    /// no hint is given and nothing is counted.
    pub(crate) fn hint_after_ask(&mut self, world: World, collected_new: bool) -> (r: Option<String>)
        ensures
            old(self).spec_in_first_chapter() ==> (final(self).hints, opt_str(r)) == after_ask(
                old(self).hints,
                world,
                collected_new,
            ),
            !old(self).spec_in_first_chapter() ==> r is None && final(self).hints == old(self).hints,
            final(self).save == old(self).save,
            final(self).engine == old(self).engine,
            final(self).store == old(self).store,
            final(self).state == old(self).state,
            final(self).pending == old(self).pending,
    {
        if !self.in_first_chapter() {
            return None;
        }
        let surface = match world {
            World::Surface => true,
            World::Shadow => false,
        };
        if surface && self.hints.surface_asks < u32::MAX {
            self.hints.surface_asks = self.hints.surface_asks + 1;
        }
        if collected_new && !self.hints.judge_given {
            self.hints.judge_given = true;
            Some(owned("[提示] 有了线索，就可以用 judge 审判你怀疑的角色。"))
        } else if surface && self.hints.surface_asks >= GAZE_HINT_ASKS && !self.hints.gazed
            && !self.hints.gaze_given {
            self.hints.gaze_given = true;
            Some(owned("[提示] 试试 gaze：换左眼看看影子世界，同一句话底下可能另有隐情。"))
        } else {
            None
        }
    }

    /// The hint a judgment earns (see [`after_judge`]), in the first chapter
    /// only.
    pub(crate) fn hint_after_judge(&mut self) -> (r: Option<String>)
        ensures
            old(self).spec_in_first_chapter() ==> (final(self).hints, opt_str(r)) == after_judge(old(self).hints),
            !old(self).spec_in_first_chapter() ==> r is None && final(self).hints == old(self).hints,
            final(self).save == old(self).save,
            final(self).engine == old(self).engine,
            final(self).store == old(self).store,
            final(self).state == old(self).state,
            final(self).pending == old(self).pending,
    {
        if !self.in_first_chapter() {
            return None;
        }
        if !self.hints.map_given {
            self.hints.map_given = true;
            Some(owned("[提示] 审判可以撤回：用 map 回到审判前的节点。"))
        } else {
            None
        }
    }

    /// Using `gaze` makes the gaze hint pointless.
    pub(crate) fn note_gazed(&mut self)
        ensures
            final(self).hints == (Hints { gazed: true, ..old(self).hints }),
            final(self).save == old(self).save,
            final(self).engine == old(self).engine,
            final(self).store == old(self).store,
            final(self).state == old(self).state,
            final(self).pending == old(self).pending,
    {
        self.hints.gazed = true;
    }
}

} // verus!
