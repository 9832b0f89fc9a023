//! The command line being edited: a text and a cursor counted in characters.

use vstd::prelude::*;

use crate::text::{owned, push_char};

verus! {

/// What `unicode_width::UnicodeWidthStr::width` gives for a text.
pub uninterp spec fn unicode_str_width(s: Seq<char>) -> usize;

/// Display width of a text: `UnicodeWidthStr::width`, whose result depends
/// on the text alone (it is not always the sum of the character widths:
/// some sequences, such as emoji ligatures, count differently).
#[verifier::external_body]
pub(crate) fn str_width(s: &str) -> (r: usize)
    ensures
        r == unicode_str_width(s@),
{
    unicode_width::UnicodeWidthStr::width(s)
}

/// The command line after typing `c`: inserted at the cursor, which moves
/// past it.
pub open spec fn spec_insert(v: (Seq<char>, nat), c: char) -> (Seq<char>, nat) {
    (v.0.insert(v.1 as int, c), v.1 + 1)
}

/// The command line after Backspace: the character before the cursor is
/// removed; nothing happens at the start.
pub open spec fn spec_backspace(v: (Seq<char>, nat)) -> (Seq<char>, nat) {
    if v.1 == 0 {
        v
    } else {
        (v.0.remove(v.1 - 1), (v.1 - 1) as nat)
    }
}

/// Backspace right after typing a character takes the command line back to
/// what it was, cursor included.
pub proof fn lemma_backspace_undoes_insert(v: (Seq<char>, nat), c: char)
    requires
        v.1 <= v.0.len(),
    ensures
        spec_backspace(spec_insert(v, c)) == v,
{
    assert(v.0.insert(v.1 as int, c).remove(v.1 as int) =~= v.0);
}

/// The command line: its text and the cursor position, in characters.
#[derive(Debug)]
pub struct CommandInput {
    value: String,
    cursor: usize,
}

impl View for CommandInput {
    type V = (Seq<char>, nat);

    closed spec fn view(&self) -> (Seq<char>, nat) {
        (self.value@, self.cursor as nat)
    }
}

impl Default for CommandInput {
    fn default() -> (r: CommandInput)
        ensures
            r@ == (Seq::<char>::empty(), 0nat),
    {
        CommandInput { value: String::new(), cursor: 0 }
    }
}

impl CommandInput {
    #[verifier::type_invariant]
    spec fn inv(self) -> bool {
        self.cursor <= self.value@.len()
    }

    /// The text; the cursor always lies within it.
    pub fn value(&self) -> (r: &str)
        ensures
            r@ == self@.0,
            self@.1 <= r@.len(),
    {
        proof {
            use_type_invariant(self);
        }
        self.value.as_str()
    }

    /// Columns before the cursor (where a terminal draws it).
    pub fn display_cursor(&self) -> (r: u16)
        ensures
            r == unicode_str_width(self@.0.take(self@.1 as int)) as u16,
    {
        proof {
            use_type_invariant(self);
        }
        let head = self.value.as_str().substring_char(0, self.cursor);
        let w = str_width(head);
        w as u16
    }

    /// The cursor is at the end (completion only opens there).
    pub fn cursor_at_end(&self) -> (r: bool)
        ensures
            r == (self@.1 == self@.0.len()),
            self@.1 <= self@.0.len(),
    {
        proof {
            use_type_invariant(self);
        }
        self.cursor == self.value.unicode_len()
    }

    /// Replace the text and put the cursor at its end.
    pub fn set_value(&mut self, v: String)
        ensures
            final(self)@ == (v@, v@.len()),
    {
        let n = v.unicode_len();
        *self = CommandInput { value: v, cursor: n };
    }

    /// Insert a character at the cursor and move past it.
    pub fn insert(&mut self, c: char)
        requires
            old(self)@.0.len() < usize::MAX,
        ensures
            final(self)@ == spec_insert(old(self)@, c),
    {
        proof {
            use_type_invariant(&*self);
        }
        let n = self.value.unicode_len();
        let k = self.cursor;
        let mut v = owned(self.value.as_str().substring_char(0, k));
        push_char(&mut v, c);
        v.append(self.value.as_str().substring_char(k, n));
        assert(v@ =~= self.value@.insert(k as int, c));
        *self = CommandInput { value: v, cursor: k + 1 };
    }

    fn remove_at(&mut self, k: usize, new_cursor: usize)
        requires
            k < old(self)@.0.len(),
            new_cursor <= k,
        ensures
            final(self)@ == (old(self)@.0.remove(k as int), new_cursor as nat),
    {
        let n = self.value.unicode_len();
        let mut v = owned(self.value.as_str().substring_char(0, k));
        v.append(self.value.as_str().substring_char(k + 1, n));
        assert(v@ =~= self.value@.remove(k as int));
        *self = CommandInput { value: v, cursor: new_cursor };
    }

    /// Remove the character before the cursor.
    pub fn backspace(&mut self)
        ensures
            final(self)@ == spec_backspace(old(self)@),
    {
        proof {
            use_type_invariant(&*self);
        }
        if self.cursor == 0 {
            return;
        }
        let k = self.cursor - 1;
        self.remove_at(k, k);
    }

    /// Remove the character at the cursor.
    pub fn delete(&mut self)
        ensures
            old(self)@.1 >= old(self)@.0.len() ==> final(self)@ == old(self)@,
            old(self)@.1 < old(self)@.0.len() ==> final(self)@ == (old(self)@.0.remove(old(self)@.1 as int), old(self)@.1),
    {
        if self.cursor >= self.value.unicode_len() {
            return;
        }
        let k = self.cursor;
        self.remove_at(k, k);
    }

    /// Cursor one character left, stopping at the start.
    pub fn move_left(&mut self)
        ensures
            final(self)@ == (old(self)@.0, if old(self)@.1 > 0 { (old(self)@.1 - 1) as nat } else { 0 }),
    {
        proof {
            use_type_invariant(&*self);
        }
        if self.cursor > 0 {
            self.cursor = self.cursor - 1;
        }
    }

    /// Cursor one character right, stopping at the end.
    pub fn move_right(&mut self)
        ensures
            final(self)@ == (old(self)@.0, if old(self)@.1 < old(self)@.0.len() { old(self)@.1 + 1 } else { old(self)@.0.len() }),
    {
        proof {
            use_type_invariant(&*self);
        }
        let n = self.value.unicode_len();
        if self.cursor < n {
            self.cursor = self.cursor + 1;
        } else {
            self.cursor = n;
        }
    }

    pub fn jump_start(&mut self)
        ensures
            final(self)@ == (old(self)@.0, 0nat),
    {
        self.cursor = 0;
    }

    pub fn jump_end(&mut self)
        ensures
            final(self)@ == (old(self)@.0, old(self)@.0.len()),
    {
        self.cursor = self.value.unicode_len();
    }

    /// Hand the text over and clear the line.
    pub fn submit(&mut self) -> (r: String)
        ensures
            r@ == old(self)@.0,
            final(self)@ == (Seq::<char>::empty(), 0nat),
    {
        let v = owned(self.value.as_str());
        *self = CommandInput { value: String::new(), cursor: 0 };
        v
    }
}

} // verus!
