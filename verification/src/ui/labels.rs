//! Labels and decorations of the terminal front end: the title logo, the
//! title menu's English labels, world labels, and which outcomes bring the
//! transcript back to its bottom.

use vstd::prelude::*;

use crate::engine::outcome::Outcome;
use crate::save::schema::Motion;
use crate::text::{push_char, str_eq};
use crate::world::World;

verus! {

/// Columns of the logo drawn in the first colour (the `DARK` part).
pub const LOGO_DARK_COLS: usize = 36;

/// Row `row` of the block glyph of the `letter`-th letter of `DARKBLUFF`.
pub open spec fn spec_glyph(letter: int, row: int) -> Seq<char> {
    if letter == 0 && row == 0 {
        "██████  "@
    } else if letter == 0 && row == 1 {
        "██   ██ "@
    } else if letter == 0 && row == 2 {
        "██    ██"@
    } else if letter == 0 && row == 3 {
        "██    ██"@
    } else if letter == 0 && row == 4 {
        "██   ██ "@
    } else if letter == 0 && row == 5 {
        "██████  "@
    } else if letter == 1 && row == 0 {
        "   ██   "@
    } else if letter == 1 && row == 1 {
        "  ████  "@
    } else if letter == 1 && row == 2 {
        " ██  ██ "@
    } else if letter == 1 && row == 3 {
        "████████"@
    } else if letter == 1 && row == 4 {
        "██    ██"@
    } else if letter == 1 && row == 5 {
        "██    ██"@
    } else if letter == 2 && row == 0 {
        "██████  "@
    } else if letter == 2 && row == 1 {
        "██   ██ "@
    } else if letter == 2 && row == 2 {
        "██████  "@
    } else if letter == 2 && row == 3 {
        "██  ██  "@
    } else if letter == 2 && row == 4 {
        "██   ██ "@
    } else if letter == 2 && row == 5 {
        "██    ██"@
    } else if letter == 3 && row == 0 {
        "██   ██ "@
    } else if letter == 3 && row == 1 {
        "██  ██  "@
    } else if letter == 3 && row == 2 {
        "█████   "@
    } else if letter == 3 && row == 3 {
        "██  ██  "@
    } else if letter == 3 && row == 4 {
        "██   ██ "@
    } else if letter == 3 && row == 5 {
        "██   ██ "@
    } else if letter == 4 && row == 0 {
        "██████  "@
    } else if letter == 4 && row == 1 {
        "██   ██ "@
    } else if letter == 4 && row == 2 {
        "██   ██ "@
    } else if letter == 4 && row == 3 {
        "██████  "@
    } else if letter == 4 && row == 4 {
        "██   ██ "@
    } else if letter == 4 && row == 5 {
        "██████  "@
    } else if letter == 5 && row == 0 {
        "██      "@
    } else if letter == 5 && row == 1 {
        "██      "@
    } else if letter == 5 && row == 2 {
        "██      "@
    } else if letter == 5 && row == 3 {
        "██      "@
    } else if letter == 5 && row == 4 {
        "██      "@
    } else if letter == 5 && row == 5 {
        "████████"@
    } else if letter == 6 && row == 0 {
        "██    ██"@
    } else if letter == 6 && row == 1 {
        "██    ██"@
    } else if letter == 6 && row == 2 {
        "██    ██"@
    } else if letter == 6 && row == 3 {
        "██    ██"@
    } else if letter == 6 && row == 4 {
        "██    ██"@
    } else if letter == 6 && row == 5 {
        " ██████ "@
    } else if letter == 7 && row == 0 {
        "████████"@
    } else if letter == 7 && row == 1 {
        "██      "@
    } else if letter == 7 && row == 2 {
        "██      "@
    } else if letter == 7 && row == 3 {
        "██████  "@
    } else if letter == 7 && row == 4 {
        "██      "@
    } else if letter == 7 && row == 5 {
        "██      "@
    } else if letter == 8 && row == 0 {
        "████████"@
    } else if letter == 8 && row == 1 {
        "██      "@
    } else if letter == 8 && row == 2 {
        "██      "@
    } else if letter == 8 && row == 3 {
        "██████  "@
    } else if letter == 8 && row == 4 {
        "██      "@
    } else if letter == 8 && row == 5 {
        "██      "@
    } else {
        Seq::empty()
    }
}

fn glyph(letter: usize, row: usize) -> (r: &'static str)
    requires
        letter < 9,
        row < 6,
    ensures
        r@ == spec_glyph(letter as int, row as int),
{
    if letter == 0 && row == 0 {
        "██████  "
    } else if letter == 0 && row == 1 {
        "██   ██ "
    } else if letter == 0 && row == 2 {
        "██    ██"
    } else if letter == 0 && row == 3 {
        "██    ██"
    } else if letter == 0 && row == 4 {
        "██   ██ "
    } else if letter == 0 && row == 5 {
        "██████  "
    } else if letter == 1 && row == 0 {
        "   ██   "
    } else if letter == 1 && row == 1 {
        "  ████  "
    } else if letter == 1 && row == 2 {
        " ██  ██ "
    } else if letter == 1 && row == 3 {
        "████████"
    } else if letter == 1 && row == 4 {
        "██    ██"
    } else if letter == 1 && row == 5 {
        "██    ██"
    } else if letter == 2 && row == 0 {
        "██████  "
    } else if letter == 2 && row == 1 {
        "██   ██ "
    } else if letter == 2 && row == 2 {
        "██████  "
    } else if letter == 2 && row == 3 {
        "██  ██  "
    } else if letter == 2 && row == 4 {
        "██   ██ "
    } else if letter == 2 && row == 5 {
        "██    ██"
    } else if letter == 3 && row == 0 {
        "██   ██ "
    } else if letter == 3 && row == 1 {
        "██  ██  "
    } else if letter == 3 && row == 2 {
        "█████   "
    } else if letter == 3 && row == 3 {
        "██  ██  "
    } else if letter == 3 && row == 4 {
        "██   ██ "
    } else if letter == 3 && row == 5 {
        "██   ██ "
    } else if letter == 4 && row == 0 {
        "██████  "
    } else if letter == 4 && row == 1 {
        "██   ██ "
    } else if letter == 4 && row == 2 {
        "██   ██ "
    } else if letter == 4 && row == 3 {
        "██████  "
    } else if letter == 4 && row == 4 {
        "██   ██ "
    } else if letter == 4 && row == 5 {
        "██████  "
    } else if letter == 5 && row == 0 {
        "██      "
    } else if letter == 5 && row == 1 {
        "██      "
    } else if letter == 5 && row == 2 {
        "██      "
    } else if letter == 5 && row == 3 {
        "██      "
    } else if letter == 5 && row == 4 {
        "██      "
    } else if letter == 5 && row == 5 {
        "████████"
    } else if letter == 6 && row == 0 {
        "██    ██"
    } else if letter == 6 && row == 1 {
        "██    ██"
    } else if letter == 6 && row == 2 {
        "██    ██"
    } else if letter == 6 && row == 3 {
        "██    ██"
    } else if letter == 6 && row == 4 {
        "██    ██"
    } else if letter == 6 && row == 5 {
        " ██████ "
    } else if letter == 7 && row == 0 {
        "████████"
    } else if letter == 7 && row == 1 {
        "██      "
    } else if letter == 7 && row == 2 {
        "██      "
    } else if letter == 7 && row == 3 {
        "██████  "
    } else if letter == 7 && row == 4 {
        "██      "
    } else if letter == 7 && row == 5 {
        "██      "
    } else if letter == 8 && row == 0 {
        "████████"
    } else if letter == 8 && row == 1 {
        "██      "
    } else if letter == 8 && row == 2 {
        "██      "
    } else if letter == 8 && row == 3 {
        "██████  "
    } else if letter == 8 && row == 4 {
        "██      "
    } else if letter == 8 && row == 5 {
        "██      "
    } else {
        ""
    }
}

/// Row `row` of the logo: the nine glyphs joined by single spaces.
pub open spec fn spec_logo_row(row: int) -> Seq<char> {
    Seq::new(9, |i: int| spec_glyph(i, row) + if i < 8 { seq![' '] } else { Seq::empty() }).flatten()
}

/// The six rows of the block logo `DARKBLUFF`.
pub fn logo() -> (r: Vec<String>)
    ensures
        r@.len() == 6,
        forall|row: int| 0 <= row < 6 ==> #[trigger] r@[row]@ == spec_logo_row(row),
{
    let mut rows: Vec<String> = Vec::new();
    let mut row: usize = 0;
    while row < 6
        invariant
            row <= 6,
            rows@.len() == row,
            forall|k: int| 0 <= k < row ==> #[trigger] rows@[k]@ == spec_logo_row(k),
        decreases 6 - row,
    {
        let mut line = String::new();
        let mut i: usize = 0;
        while i < 9
            invariant
                i <= 9,
                row < 6,
                line@ == Seq::new(i as nat, |k: int| spec_glyph(k, row as int) + if k < 8 { seq![' '] } else { Seq::empty() }).flatten(),
            decreases 9 - i,
        {
            let ghost before = line@;
            line.append(glyph(i, row));
            if i + 1 < 9 {
                push_char(&mut line, ' ');
            }
            proof {
                let f = |k: int| spec_glyph(k, row as int) + if k < 8 { seq![' '] } else { Seq::empty() };
                assert(Seq::new((i + 1) as nat, f) =~= Seq::new(i as nat, f).push(f(i as int)));
                Seq::new(i as nat, f).lemma_flatten_push(f(i as int));
                assert(line@ =~= before + f(i as int));
            }
            i += 1;
        }
        rows.push(line);

        row += 1;
    }
    rows
}

/// English name of a world.
pub fn world_label(world: World) -> (r: &'static str)
    ensures
        r@ == match world {
            World::Surface => "Surface"@,
            World::Shadow => "Shadow"@,
        },
{
    match world {
        World::Surface => "Surface",
        World::Shadow => "Shadow",
    }
}

/// English label of a title menu option: by option id, a motion option by
/// its motion; an unknown id keeps its label.
pub open spec fn spec_title_label(id: Seq<char>, label: Seq<char>) -> Seq<char> {
    if id == "new_game"@ {
        "New Game"@
    } else if id == "continue"@ {
        "Continue"@
    } else if id == "settings"@ {
        "Settings"@
    } else if id == "quit"@ {
        "Quit"@
    } else {
        match Motion::spec_from_menu_id(id) {
            Some(m) => match m {
                Motion::Full => "Motion: Full"@,
                Motion::Reduced => "Motion: Reduced"@,
                Motion::Off => "Motion: Off"@,
            },
            None => label,
        }
    }
}

/// English label of a title menu option.
pub fn title_option_label<'a>(id: &str, label: &'a str) -> (r: &'a str)
    ensures
        r@ == spec_title_label(id@, label@),
{
    if str_eq(id, "new_game") {
        "New Game"
    } else if str_eq(id, "continue") {
        "Continue"
    } else if str_eq(id, "settings") {
        "Settings"
    } else if str_eq(id, "quit") {
        "Quit"
    } else {
        match Motion::from_menu_id(id) {
            Some(motion) => motion.en_label(),
            None => label,
        }
    }
}

/// Outcomes that push new text into the transcript and bring it back to its
/// bottom. A scene description is background (also shown in the scene
/// panel) and leaves the reading position alone.
pub fn outcome_snaps_to_bottom(outcome: &Outcome) -> (r: bool)
    ensures
        r == (outcome is Dialogue || outcome is ChapterIntro || outcome is ChapterOutro || outcome is Narrative
            || outcome is EndingReached || outcome is Message),
{
    match outcome {
        Outcome::Dialogue { .. } | Outcome::ChapterIntro { .. } | Outcome::ChapterOutro { .. }
        | Outcome::Narrative { .. } | Outcome::EndingReached { .. } | Outcome::Message(..) => true,
        _ => false,
    }
}

} // verus!
