//! Display-width text helpers: wrapping and truncation by terminal columns,
//! safe for wide (CJK) characters.
//!
//! A character's width comes from the `unicode-width` crate; a control
//! character, which has no width there, counts as zero columns.

use vstd::prelude::*;

use crate::text::{owned, push_char};

verus! {

/// What `unicode_width::UnicodeWidthChar::width` gives for a character.
pub uninterp spec fn unicode_char_width(c: char) -> Option<usize>;

/// Display width of a character: `UnicodeWidthChar::width`, whose result
/// depends on the character alone; `None` for a control character.
#[verifier::external_body]
fn char_width_opt(c: char) -> (r: Option<usize>)
    ensures
        r == unicode_char_width(c),
{
    unicode_width::UnicodeWidthChar::width(c)
}

/// Columns a character takes (a control character takes none).
pub open spec fn cw(c: char) -> nat {
    match unicode_char_width(c) {
        Some(w) => w as nat,
        None => 0,
    }
}

/// Columns a character takes.
pub fn char_width(c: char) -> (r: usize)
    ensures
        r == cw(c),
{
    match char_width_opt(c) {
        Some(w) => w,
        None => 0,
    }
}

/// Columns of the first `k` characters.
pub open spec fn width_upto(s: Seq<char>, k: int) -> nat
    decreases k,
{
    if k <= 0 {
        0
    } else {
        width_upto(s, k - 1) + cw(s[k - 1])
    }
}

/// How many leading characters fit in `limit` columns: the first position
/// at which one more character would exceed the limit, or the whole length.
pub open spec fn fit_from(s: Seq<char>, limit: nat, k: int) -> int
    decreases s.len() - k,
{
    if k < 0 || k >= s.len() {
        s.len() as int
    } else if width_upto(s, k + 1) > limit {
        k
    } else {
        fit_from(s, limit, k + 1)
    }
}

/// The columns left for text when an ellipsis may be appended.
pub open spec fn text_limit(max_w: nat, ellipsis: bool) -> nat {
    if ellipsis {
        if max_w >= 1 {
            (max_w - 1) as nat
        } else {
            0
        }
    } else {
        max_w
    }
}

/// The leading characters that fit, followed by `…` when `ellipsis` is on
/// and some characters were cut.
pub open spec fn spec_truncate(s: Seq<char>, max_w: nat, ellipsis: bool) -> Seq<char> {
    let k = fit_from(s, text_limit(max_w, ellipsis), 0);
    s.take(k) + if ellipsis && k < s.len() {
        seq!['…']
    } else {
        Seq::empty()
    }
}

/// Cut `s` to `max_w` columns; with `ellipsis`, one column is kept for a
/// trailing `…` that marks the cut.
pub fn truncate_core(s: &str, max_w: usize, ellipsis: bool) -> (r: String)
    ensures
        r@ == spec_truncate(s@, max_w as nat, ellipsis),
{
    let n = s.unicode_len();
    let limit: usize = if ellipsis {
        if max_w >= 1 {
            max_w - 1
        } else {
            0
        }
    } else {
        max_w
    };
    let mut out = String::new();
    let mut w: usize = 0;
    let mut i: usize = 0;
    while i < n
        invariant
            n == s@.len(),
            i <= n,
            limit == text_limit(max_w as nat, ellipsis),
            w == width_upto(s@, i as int),
            w <= limit,
            out@ == s@.take(i as int),
            fit_from(s@, limit as nat, 0) == fit_from(s@, limit as nat, i as int),
        decreases n - i,
    {
        let ch = s.get_char(i);
        let c = char_width(ch);
        if c > limit - w {
            assert(width_upto(s@, i + 1) > limit);
            if ellipsis {
                push_char(&mut out, '…');
            }
            return out;
        }
        push_char(&mut out, ch);
        assert(out@ =~= s@.take(i + 1));
        w = w + c;
        i += 1;
    }
    assert(s@.take(n as int) =~= s@);
    assert(out@ =~= spec_truncate(s@, max_w as nat, ellipsis));
    out
}

/// Cut to `max_w` columns, with a trailing `…` when something was cut.
pub fn truncate_s(s: &str, max_w: usize) -> (r: String)
    ensures
        r@ == spec_truncate(s@, max_w as nat, true),
{
    truncate_core(s, max_w, true)
}

/// The first `max_w` columns, without ellipsis (for typewriter reveal).
pub fn truncate_by_width(s: &str, max_w: usize) -> (r: String)
    ensures
        r@ == spec_truncate(s@, max_w as nat, false),
{
    truncate_core(s, max_w, false)
}

/// State of greedy wrapping after some characters: the finished lines, the
/// line being filled and its width.
pub open spec fn wrap_state(s: Seq<char>, max_w: nat, k: int) -> (Seq<Seq<char>>, Seq<char>, nat)
    decreases k,
{
    if k <= 0 {
        (Seq::empty(), Seq::empty(), 0)
    } else {
        let (lines, cur, w) = wrap_state(s, max_w, k - 1);
        let c = s[k - 1];
        if w + cw(c) > max_w && cur.len() > 0 {
            (lines.push(cur), seq![c], cw(c))
        } else {
            (lines, cur.push(c), w + cw(c))
        }
    }
}

/// Greedy wrapping by columns: a character that would overflow the line
/// starts a new one (a line always holds at least one character); with no
/// width, the text stays one line; the result has at least one line.
pub open spec fn spec_wrap(s: Seq<char>, max_w: nat) -> Seq<Seq<char>> {
    if max_w == 0 {
        seq![s]
    } else {
        let (lines, cur, _w) = wrap_state(s, max_w, s.len() as int);
        let all = if cur.len() > 0 {
            lines.push(cur)
        } else {
            lines
        };
        if all.len() == 0 {
            seq![Seq::empty()]
        } else {
            all
        }
    }
}

/// Wrap `s` into lines of at most `max_w` columns.
pub fn wrap_by_width(s: &str, max_w: usize) -> (r: Vec<String>)
    ensures
        r@.map_values(|l: String| l@) == spec_wrap(s@, max_w as nat),
{
    if max_w == 0 {
        let mut v: Vec<String> = Vec::new();
        v.push(owned(s));
        assert(v@.map_values(|l: String| l@) =~= seq![s@]);
        return v;
    }
    let n = s.unicode_len();
    let mut out: Vec<String> = Vec::new();
    let mut cur = String::new();
    let mut w: usize = 0;
    let mut i: usize = 0;
    while i < n
        invariant
            n == s@.len(),
            i <= n,
            max_w > 0,
            wrap_state(s@, max_w as nat, i as int) == (out@.map_values(|l: String| l@), cur@, w as nat),
            cur@.len() == 0 ==> w == 0,
        decreases n - i,
    {
        let ch = s.get_char(i);
        let c = char_width(ch);
        let over = if w > max_w {
            true
        } else {
            c > max_w - w
        };
        let ghost lines0 = out@.map_values(|l: String| l@);
        if over && cur.unicode_len() > 0 {
            let done = cur;
            out.push(done);
            cur = String::new();
            push_char(&mut cur, ch);
            w = c;
            assert(out@.map_values(|l: String| l@) =~= lines0.push(done@));
        } else {
            push_char(&mut cur, ch);
            w = w + c;
        }
        i += 1;
    }
    let ghost lines1 = out@.map_values(|l: String| l@);
    if cur.unicode_len() > 0 {
        out.push(cur);
        assert(out@.map_values(|l: String| l@) =~= lines1.push(cur@));
    }
    if out.len() == 0 {
        out.push(String::new());
        assert(out@.map_values(|l: String| l@) =~= seq![Seq::<char>::empty()]);
    }
    out
}

/// Line count and current line width of greedy wrapping after some
/// characters (counting only, as the typewriter needs).
pub open spec fn count_state(s: Seq<char>, max_w: nat, k: int) -> (nat, nat)
    decreases k,
{
    if k <= 0 {
        (1, 0)
    } else {
        let (lines, w) = count_state(s, max_w, k - 1);
        let c = cw(s[k - 1]);
        if w + c > max_w && w > 0 {
            (lines + 1, c)
        } else {
            (lines, w + c)
        }
    }
}

/// How many visual lines `s` takes at `max_w` columns: one for an empty text
/// or no width.
pub open spec fn spec_count_lines(s: Seq<char>, max_w: nat) -> nat {
    if max_w == 0 || s.len() == 0 {
        1
    } else {
        count_state(s, max_w, s.len() as int).0
    }
}

/// How many visual lines `s` takes at `max_w` columns.
pub fn count_visual_lines(s: &str, max_w: usize) -> (r: usize)
    requires
        s@.len() < usize::MAX,
    ensures
        r == spec_count_lines(s@, max_w as nat),
{
    let n = s.unicode_len();
    if max_w == 0 || n == 0 {
        return 1;
    }
    let mut lines: usize = 1;
    let mut w: usize = 0;
    let mut i: usize = 0;
    while i < n
        invariant
            n == s@.len(),
            n < usize::MAX,
            i <= n,
            max_w > 0,
            count_state(s@, max_w as nat, i as int) == (lines as nat, w as nat),
            1 <= lines <= i + 1,
        decreases n - i,
    {
        let c = char_width(s.get_char(i));
        let over = if w > max_w {
            true
        } else {
            c > max_w - w
        };
        if over && w > 0 {
            lines = lines + 1;
            w = c;
        } else {
            w = w + c;
        }
        i += 1;
    }
    lines
}

} // verus!
