//! What a terminal front end draws, as plain values: panel titles, the
//! hints under each state, the visible window of the transcript with the
//! typewriter's partial reveal, the map and notes panels as styled lines.
//! A front end only lays these out and colours them.

use vstd::prelude::*;

use crate::engine::outcome::{ConfirmationAction, MenuKind, SessionState};
use crate::ui::input::{str_width, unicode_str_width};
use crate::ui::markdown::{styled_view, LineStyle, StyledLine};
use crate::ui::types::SuggestKind;
use crate::ui::app::{group_view, shows_menu, Animation, AnimationKind, App, EffectiveMotion, GroupView, NotePanel, NoteTab, Notice, Typewriter};
use crate::ui::types::{NpcInfo, Suggestions};
use crate::ui::input::CommandInput;
use crate::ui::labels::{spec_title_label, title_option_label};
use crate::engine::outcome::MenuOption;
use crate::save::backend::SaveBackend;
use crate::text::strs_ref;
use crate::ui::markdown::{render, spec_render};
use crate::ui::types::{MapGroup, MapRow};
use crate::engine::outcome::NoteView;
use crate::ui::labels::world_label;
use crate::world::World;
use crate::ui::width::{
    count_visual_lines, spec_count_lines, spec_truncate, spec_wrap, truncate_by_width, wrap_by_width,
};
use crate::text::{dec, join, join3, join4, owned, usize_str};

verus! {

/// Narrowest terminal the main layout is drawn in.
pub const MIN_WIDTH: u16 = 86;

/// Lowest terminal the main layout is drawn in.
pub const MIN_HEIGHT: u16 = 24;

/// The terminal is too small for the main layout.
pub fn too_small(width: u16, height: u16) -> (r: bool)
    ensures
        r == (width < MIN_WIDTH || height < MIN_HEIGHT),
{
    width < MIN_WIDTH || height < MIN_HEIGHT
}

/// Title of the transcript panel: with `↑N` while scrolled `N` rows up.
pub open spec fn spec_transcript_title(offset: usize) -> Seq<char> {
    if offset > 0 {
        "对话记录 ↑"@ + dec(offset as nat)
    } else {
        "对话记录"@
    }
}

pub fn transcript_title(offset: usize) -> (r: String)
    ensures
        r@ == spec_transcript_title(offset),
{
    if offset > 0 {
        join("对话记录 ↑", usize_str(offset).as_str())
    } else {
        owned("对话记录")
    }
}

/// Title of the scene panel: the scene's name once a game is under way.
pub open spec fn spec_scene_title(state: SessionState, scene_name: Seq<char>) -> Seq<char> {
    if state == SessionState::Title {
        "场景"@
    } else {
        "场景 · "@ + scene_name
    }
}

pub fn scene_title(state: &SessionState, scene_name: &str) -> (r: String)
    ensures
        r@ == spec_scene_title(*state, scene_name@),
{
    match state {
        SessionState::Title => owned("场景"),
        _ => join("场景 · ", scene_name),
    }
}

/// The hint in the input box: its label and the keys it lists; nothing
/// while exploring, where the command line is shown instead.
pub open spec fn spec_input_hint(state: SessionState) -> Option<(Seq<char>, Seq<char>)> {
    if state == SessionState::Exploring {
        None
    } else if state == SessionState::Confirming {
        Some(("确认"@, "y / Enter 确认 · n / Esc 取消"@))
    } else if state.spec_is_ack() {
        Some(("继续"@, "按 Enter 继续 · 滚轮/PageUp 滚动"@))
    } else {
        Some(("选择"@, "↑/↓ 选择 · Enter 确认 · Esc 取消 · 数字键跳转"@))
    }
}

pub fn input_hint(state: &SessionState) -> (r: Option<(&'static str, &'static str)>)
    ensures
        match r {
            Some((l, h)) => spec_input_hint(*state) == Some((l@, h@)),
            None => spec_input_hint(*state) is None,
        },
{
    match state {
        SessionState::Exploring => None,
        SessionState::Confirming => Some(("确认", "y / Enter 确认 · n / Esc 取消")),
        SessionState::ShowingIntro | SessionState::ShowingNarrative | SessionState::ShowingOutro
        | SessionState::Ending => Some(("继续", "按 Enter 继续 · 滚轮/PageUp 滚动")),
        _ => Some(("选择", "↑/↓ 选择 · Enter 确认 · Esc 取消 · 数字键跳转")),
    }
}

/// Title of a menu pop-up.
pub open spec fn spec_menu_title(kind: MenuKind) -> Seq<char> {
    match kind {
        MenuKind::Title => "标题"@,
        MenuKind::Settings => "设置"@,
        MenuKind::AskCharacter => "询问角色"@,
        MenuKind::AskTopic => "选择话题"@,
        MenuKind::JudgeCharacter => "审判"@,
        MenuKind::MoveDestination => "前往"@,
        MenuKind::Checkpoint => "检查点"@,
    }
}

pub fn menu_title(kind: MenuKind) -> (r: &'static str)
    ensures
        r@ == spec_menu_title(kind),
{
    match kind {
        MenuKind::Title => "标题",
        MenuKind::Settings => "设置",
        MenuKind::AskCharacter => "询问角色",
        MenuKind::AskTopic => "选择话题",
        MenuKind::JudgeCharacter => "审判",
        MenuKind::MoveDestination => "前往",
        MenuKind::Checkpoint => "检查点",
    }
}

/// Title of the completion pop-up.
pub open spec fn spec_suggest_title(kind: SuggestKind) -> Seq<char> {
    match kind {
        SuggestKind::Command => "指令"@,
        SuggestKind::Character => "角色"@,
        SuggestKind::Scene => "场景"@,
        SuggestKind::Topic => "话题"@,
    }
}

pub fn suggest_title(kind: SuggestKind) -> (r: &'static str)
    ensures
        r@ == spec_suggest_title(kind),
{
    match kind {
        SuggestKind::Command => "指令",
        SuggestKind::Character => "角色",
        SuggestKind::Scene => "场景",
        SuggestKind::Topic => "话题",
    }
}

/// The question of the confirmation dialog.
pub open spec fn spec_confirm_prompt(action: ConfirmationAction) -> Seq<char> {
    match action {
        ConfirmationAction::NewGame => "开始新游戏将覆盖现有存档。继续吗？"@,
        ConfirmationAction::Rollback { checkpoint_id } => "回滚到检查点 "@ + checkpoint_id@
            + "？这将丢弃其后的进度（已发现的记忆保留）。继续吗？"@,
    }
}

pub fn confirm_prompt(action: &ConfirmationAction) -> (r: String)
    ensures
        r@ == spec_confirm_prompt(*action),
{
    match action {
        ConfirmationAction::NewGame => owned("开始新游戏将覆盖现有存档。继续吗？"),
        ConfirmationAction::Rollback { checkpoint_id } => crate::text::join3(
            "回滚到检查点 ",
            checkpoint_id.as_str(),
            "？这将丢弃其后的进度（已发现的记忆保留）。继续吗？",
        ),
    }
}

/// How a topic is listed under a character: a locked one is starred.
pub open spec fn spec_topic_text(label: Seq<char>, available: bool) -> Seq<char> {
    if available {
        label
    } else {
        label + "*"@
    }
}

pub fn topic_text(label: &str, available: bool) -> (r: String)
    ensures
        r@ == spec_topic_text(label@, available),
{
    if available {
        owned(label)
    } else {
        join(label, "*")
    }
}

// ----- the transcript window -----

/// Texts of transcript lines.
pub open spec fn texts(lines: Seq<StyledLine>) -> Seq<Seq<char>> {
    lines.map_values(|l: StyledLine| l.text@)
}

/// Scanning back from line `j` with `cum` rows counted: the first line
/// (from the end) at which the rows reach `need`; 0 when they never do.
pub open spec fn window_start_from(ts: Seq<Seq<char>>, width: nat, need: nat, j: int, cum: nat) -> int
    decreases j,
{
    if j <= 0 {
        0
    } else {
        let c = cum + spec_count_lines(ts[j - 1], width);
        if c >= need {
            j - 1
        } else {
            window_start_from(ts, width, need, j - 1, c)
        }
    }
}

/// The first transcript line to lay out so that the rows from it to the
/// end cover a window of `height` rows scrolled `offset` rows up.
pub open spec fn spec_window_start(ts: Seq<Seq<char>>, width: nat, height: usize, offset: usize) -> int {
    let need = if height + offset > usize::MAX { usize::MAX as nat } else { (height + offset) as nat };
    window_start_from(ts, width, need, ts.len() as int, 0)
}

pub fn find_window_start(lines: &[StyledLine], width: usize, height: usize, offset: usize) -> (r: usize)
    requires
        forall|k: int| 0 <= k < lines@.len() ==> #[trigger] lines@[k].text@.len() < usize::MAX,
    ensures
        r as int == spec_window_start(texts(lines@), width as nat, height, offset),
        r <= lines@.len(),
{
    let ghost ts = texts(lines@);
    let need = height.saturating_add(offset);
    let mut cum: usize = 0;
    let mut j: usize = lines.len();
    while j > 0
        invariant
            ts == texts(lines@),
            j <= lines@.len(),
            cum < need || (j == lines@.len() && cum == 0),
            forall|k: int| 0 <= k < lines@.len() ==> #[trigger] lines@[k].text@.len() < usize::MAX,
            spec_window_start(ts, width as nat, height, offset) == window_start_from(
                ts,
                width as nat,
                need as nat,
                j as int,
                cum as nat,
            ),
        decreases j,
    {
        let n = count_visual_lines(lines[j - 1].text.as_str(), width);
        assert(ts[j - 1] == lines@[j - 1].text@);
        let c = cum.saturating_add(n);
        if c >= need {
            return j - 1;
        }
        cum = c;
        j -= 1;
    }
    0
}

/// Rows taken by transcript lines `i..` at `width` columns.
pub open spec fn rows_from(ts: Seq<Seq<char>>, width: nat, i: int) -> nat
    decreases ts.len() - i,
{
    if i < 0 || i >= ts.len() {
        0
    } else {
        spec_count_lines(ts[i], width) + rows_from(ts, width, i + 1)
    }
}

proof fn lemma_window_start_from(ts: Seq<Seq<char>>, width: nat, need: nat, j: int, cum: nat)
    requires
        0 <= j <= ts.len(),
        cum == rows_from(ts, width, j),
        forall|k: int| j <= k < ts.len() ==> #[trigger] rows_from(ts, width, k) < need,
    ensures
        ({
            let r = window_start_from(ts, width, need, j, cum);
            &&& 0 <= r <= j
            &&& r == 0 || rows_from(ts, width, r) >= need
            &&& forall|k: int| r < k < ts.len() ==> #[trigger] rows_from(ts, width, k) < need
        }),
    decreases j,
{
    if j > 0 {
        let c = cum + spec_count_lines(ts[j - 1], width);
        assert(rows_from(ts, width, j - 1) == c);
        if c < need {
            lemma_window_start_from(ts, width, need, j - 1, c);
        }
    }
}

/// The window starts at the last line from which the rows reach the
/// height plus the scroll offset (or at the first line when all of them do
/// not): the visible window is always filled, and no line above it is laid
/// out for nothing.
pub proof fn lemma_window_start_is_last_covering(ts: Seq<Seq<char>>, width: nat, height: usize, offset: usize)
    ensures
        ({
            let need = if height + offset > usize::MAX { usize::MAX as nat } else { (height + offset) as nat };
            let r = spec_window_start(ts, width, height, offset);
            &&& 0 <= r <= ts.len()
            &&& r == 0 || rows_from(ts, width, r) >= need
            &&& forall|k: int| r < k < ts.len() ==> #[trigger] rows_from(ts, width, k) < need
        }),
{
    let need = if height + offset > usize::MAX { usize::MAX as nat } else { (height + offset) as nat };
    lemma_window_start_from(ts, width, need, ts.len() as int, 0);
}

/// The visible rows: `height` rows ending `offset` rows above the last.
pub open spec fn spec_window_range(total: usize, height: usize, offset: usize) -> (usize, usize) {
    let end = if total >= offset { (total - offset) as usize } else { 0usize };
    let begin = if end >= height { (end - height) as usize } else { 0usize };
    (begin, end)
}

pub fn window_range(total: usize, height: usize, offset: usize) -> (r: (usize, usize))
    ensures
        r == spec_window_range(total, height, offset),
        r.0 <= r.1 <= total,
{
    let end = total.saturating_sub(offset);
    let begin = end.saturating_sub(height);
    (begin, end)
}

/// The typewriter's partial reveal of a line's wrapped chunks: each chunk
/// shows as many columns as remain of `reveal`, which it then uses up.
pub open spec fn reveal_chunks(chunks: Seq<Seq<char>>, reveal: nat, k: int) -> (Seq<Seq<char>>, nat)
    decreases k,
{
    if k <= 0 {
        (Seq::empty(), reveal)
    } else {
        let (prev, left) = reveal_chunks(chunks, reveal, k - 1);
        let w = unicode_str_width(chunks[k - 1]) as nat;
        let show = if left < w { left } else { w };
        (prev.push(spec_truncate(chunks[k - 1], show, false)), (left - show) as nat)
    }
}

/// Line `i` of `n` is being revealed by a typewriter over the last `lines`
/// lines (of which the first `skip` show at once).
pub open spec fn line_mode(tw: Option<Typewriter>, n: int, i: int) -> bool {
    match tw {
        Some(t) => {
            let from_tail = n - i;
            t.lines > 0 && from_tail <= t.lines && !(from_tail > t.lines - t.skip)
        },
        None => false,
    }
}

/// The rows of transcript lines `start..i`, with the reveal left after them.
pub open spec fn rows_upto(
    lines: Seq<StyledLine>,
    tw: Option<Typewriter>,
    start: int,
    width: nat,
    i: int,
) -> (Seq<(Seq<char>, LineStyle)>, nat)
    decreases i - start,
{
    let first_reveal: nat = match tw {
        Some(t) => t.revealed as nat,
        None => usize::MAX as nat,
    };
    if i <= start {
        (Seq::empty(), first_reveal)
    } else {
        let (prev, reveal) = rows_upto(lines, tw, start, width, i - 1);
        let l = lines[i - 1];
        let chunks = spec_wrap(l.text@, width);
        if line_mode(tw, lines.len() as int, i - 1) {
            let (shown, left) = reveal_chunks(chunks, reveal, chunks.len() as int);
            (prev + shown.map_values(|c: Seq<char>| (c, l.style)), left)
        } else {
            (prev + chunks.map_values(|c: Seq<char>| (c, l.style)), reveal)
        }
    }
}

/// The rows of the transcript from line `start` at `width` columns.
pub open spec fn spec_transcript_rows(
    lines: Seq<StyledLine>,
    tw: Option<Typewriter>,
    start: int,
    width: nat,
) -> Seq<(Seq<char>, LineStyle)> {
    rows_upto(lines, tw, start, width, lines.len() as int).0
}

proof fn lemma_reveal_chunks_len(chunks: Seq<Seq<char>>, r: nat, k: int)
    requires
        0 <= k,
    ensures
        reveal_chunks(chunks, r, k).0.len() == k,
    decreases k,
{
    if k > 0 {
        lemma_reveal_chunks_len(chunks, r, k - 1);
    }
}

proof fn lemma_rows_upto_len(lines: Seq<StyledLine>, tw: Option<Typewriter>, start: int, width: nat, i: int)
    ensures
        rows_upto(lines, tw, start, width, i).0.len() == rows_upto(lines, None, start, width, i).0.len(),
    decreases i - start,
{
    if i > start {
        lemma_rows_upto_len(lines, tw, start, width, i - 1);
        let chunks = spec_wrap(lines[i - 1].text@, width);
        let reveal = rows_upto(lines, tw, start, width, i - 1).1;
        lemma_reveal_chunks_len(chunks, reveal, chunks.len() as int);
    }
}

/// The typewriter changes what the rows show, never how many there are:
/// the transcript does not jump while text is being revealed.
pub proof fn lemma_typewriter_keeps_row_count(
    lines: Seq<StyledLine>,
    tw: Option<Typewriter>,
    start: int,
    width: nat,
)
    ensures
        spec_transcript_rows(lines, tw, start, width).len() == spec_transcript_rows(lines, None, start, width).len(),
{
    lemma_rows_upto_len(lines, tw, start, width, lines.len() as int);
}

pub open spec fn rows_view(rows: Seq<StyledLine>) -> Seq<(Seq<char>, LineStyle)> {
    rows.map_values(|l: StyledLine| styled_view(l))
}

fn push_chunks(rows: &mut Vec<StyledLine>, chunks: Vec<String>, style: LineStyle)
    ensures
        rows_view(final(rows)@) == rows_view(old(rows)@) + chunks@.map_values(|c: String| c@).map_values(
            |c: Seq<char>| (c, style),
        ),
{
    let ghost start = rows_view(rows@);
    let ghost cv = chunks@.map_values(|c: String| c@);
    let mut k: usize = 0;
    while k < chunks.len()
        invariant
            k <= chunks@.len(),
            cv == chunks@.map_values(|c: String| c@),
            rows_view(rows@) == start + cv.take(k as int).map_values(|c: Seq<char>| (c, style)),
        decreases chunks@.len() - k,
    {
        let ghost before = rows_view(rows@);
        rows.push(StyledLine { text: owned(chunks[k].as_str()), style });
        assert(rows_view(rows@) =~= before.push((cv[k as int], style)));
        assert(cv.take(k + 1).map_values(|c: Seq<char>| (c, style)) =~= cv.take(k as int).map_values(
            |c: Seq<char>| (c, style),
        ).push((cv[k as int], style)));
        k += 1;
    }
    assert(cv.take(chunks@.len() as int) =~= cv);
}

/// Lay out transcript lines from `start` at `width` columns: each line
/// wraps into rows; under a running typewriter its lines show only the
/// columns revealed so far (the leading lines it skips show in full).
pub fn transcript_rows(lines: &[StyledLine], tw: Option<Typewriter>, start: usize, width: usize) -> (r: Vec<
    StyledLine,
>)
    requires
        start <= lines@.len(),
    ensures
        rows_view(r@) == spec_transcript_rows(lines@, tw, start as int, width as nat),
{
    let n = lines.len();
    let (tw_lines, tw_skip, revealed) = match tw {
        Some(t) => (t.lines, t.skip, t.revealed),
        None => (0usize, 0usize, usize::MAX),
    };
    let mut left: usize = revealed;
    let mut rows: Vec<StyledLine> = Vec::new();
    let mut i: usize = start;
    while i < n
        invariant
            n == lines@.len(),
            start <= i <= n,
            tw matches Some(t) ==> tw_lines == t.lines && tw_skip == t.skip,
            tw is None ==> tw_lines == 0,
            (rows_view(rows@), left as nat) == rows_upto(lines@, tw, start as int, width as nat, i as int),
        decreases n - i,
    {
        let l = &lines[i];
        let from_tail = n - i;
        let in_tw = tw_lines > 0 && from_tail <= tw_lines;
        let in_skip = in_tw && tw_lines - from_tail < tw_skip;
        assert((in_tw && !in_skip) == line_mode(tw, n as int, i as int));
        let chunks = wrap_by_width(l.text.as_str(), width);
        let ghost cv = chunks@.map_values(|c: String| c@);
        if in_tw && !in_skip {
            let ghost prev = rows_view(rows@);
            let ghost r0 = left as nat;
            let mut k: usize = 0;
            while k < chunks.len()
                invariant
                    k <= chunks@.len(),
                    cv == chunks@.map_values(|c: String| c@),
                    rows_view(rows@) == prev + reveal_chunks(cv, r0, k as int).0.map_values(
                        |c: Seq<char>| (c, l.style),
                    ),
                    left as nat == reveal_chunks(cv, r0, k as int).1,
                decreases chunks@.len() - k,
            {
                let ghost before = rows_view(rows@);
                let cw = str_width(chunks[k].as_str());
                let show = if cw > left { left } else { cw };
                left = left - show;
                let t = truncate_by_width(chunks[k].as_str(), show);
                rows.push(StyledLine { text: t, style: l.style });
                assert(rows_view(rows@) =~= before.push((spec_truncate(cv[k as int], show as nat, false), l.style)));
                let ghost rc = reveal_chunks(cv, r0, k as int).0;
                assert(reveal_chunks(cv, r0, k + 1).0 == rc.push(spec_truncate(cv[k as int], show as nat, false)));
                assert(rc.push(spec_truncate(cv[k as int], show as nat, false)).map_values(
                    |c: Seq<char>| (c, l.style),
                ) =~= rc.map_values(|c: Seq<char>| (c, l.style)).push(
                    (spec_truncate(cv[k as int], show as nat, false), l.style),
                ));
                k += 1;
            }
        } else {
            push_chunks(&mut rows, chunks, l.style);
        }
        i += 1;
    }
    rows
}


// ----- the map panel -----

/// The rows of one checkpoint under its chapter: numbered from 1, the
/// selected one marked and drawn bold.
pub open spec fn checkpoint_line(row: (usize, Seq<char>), selected: usize) -> (Seq<char>, LineStyle) {
    let is_sel = row.0 == selected;
    let prefix = if is_sel { "    ▶ "@ } else { "      "@ };
    (prefix + dec(row.0 as nat + 1) + ". "@ + row.1, if is_sel { LineStyle::Selected } else { LineStyle::Subtle })
}

/// The lines of one chapter of the map: its title (`▶` for the current
/// chapter, `★` for an ending), its topic progress, its unexplored
/// branches, its checkpoints and a blank line.
pub open spec fn group_lines(g: GroupView, selected: usize) -> Seq<(Seq<char>, LineStyle)> {
    let (title, ending, current, unseen, progress, rows) = g;
    let head = (if current { "▶"@ } else { " "@ }) + " "@ + title + if ending { "  ★"@ } else { Seq::empty() };
    let prog = match progress {
        Some((x, y)) => seq![("    话题 "@ + dec(x as nat) + "/"@ + dec(y as nat), LineStyle::Subtle)],
        None => Seq::empty(),
    };
    let branches = if unseen > 0 {
        seq![("    ???  "@ + dec(unseen as nat) + " 个未探索分支"@, LineStyle::Faint)]
    } else {
        Seq::empty()
    };
    seq![(head, LineStyle::Heading)] + prog + branches + rows.map_values(
        |r: (usize, Seq<char>)| checkpoint_line(r, selected),
    ) + seq![(Seq::<char>::empty(), LineStyle::Plain)]
}

pub open spec fn groups_lines_upto(gs: Seq<GroupView>, selected: usize, n: int) -> Seq<(Seq<char>, LineStyle)>
    decreases n,
{
    if n <= 0 {
        Seq::empty()
    } else {
        groups_lines_upto(gs, selected, n - 1) + group_lines(gs[n - 1], selected)
    }
}

/// The map panel's lines; a note when no chapter has been reached.
pub open spec fn spec_map_lines(gs: Seq<GroupView>, selected: usize) -> Seq<(Seq<char>, LineStyle)> {
    if gs.len() == 0 {
        seq![("还没有可以回到的节点。"@, LineStyle::Subtle)]
    } else {
        groups_lines_upto(gs, selected, gs.len() as int)
    }
}

fn line(text: String, style: LineStyle) -> (r: StyledLine)
    ensures
        styled_view(r) == (text@, style),
{
    StyledLine { text, style }
}

fn push_one(out: &mut Vec<StyledLine>, text: String, style: LineStyle)
    ensures
        rows_view(final(out)@) == rows_view(old(out)@).push((text@, style)),
{
    out.push(StyledLine { text, style });
    assert(rows_view(out@) =~= rows_view(old(out)@).push((text@, style)));
}

fn push_group(out: &mut Vec<StyledLine>, g: &MapGroup, selected: usize)
    requires
        forall|k: int| 0 <= k < g.checkpoints@.len() ==> #[trigger] g.checkpoints@[k].flat_index < usize::MAX,
    ensures
        rows_view(final(out)@) == rows_view(old(out)@) + group_lines(group_view(*g), selected),
{
    let ghost start = rows_view(out@);
    let marker = if g.is_current { "▶" } else { " " };
    let star = if g.ending { "  ★" } else { "" };
    proof {
        reveal_strlit("  ★");
        reveal_strlit("");
    }
    push_one(out, join4(marker, " ", g.title.as_str(), star), LineStyle::Heading);
    let ghost after_head = rows_view(out@);
    match g.topic_progress {
        Some((x, y)) => {
            push_one(out, join4("    话题 ", usize_str(x).as_str(), "/", usize_str(y).as_str()), LineStyle::Subtle);
        },
        None => {},
    }
    let ghost after_prog = rows_view(out@);
    if g.unseen_branches > 0 {
        push_one(out, join3("    ???  ", usize_str(g.unseen_branches).as_str(), " 个未探索分支"), LineStyle::Faint);
    }
    let ghost after_branches = rows_view(out@);
    let ghost rv = g.checkpoints@.map_values(|r: MapRow| (r.flat_index, r.label@));
    let mut k: usize = 0;
    while k < g.checkpoints.len()
        invariant
            k <= g.checkpoints@.len(),
            forall|k: int| 0 <= k < g.checkpoints@.len() ==> #[trigger] g.checkpoints@[k].flat_index < usize::MAX,
            rv == g.checkpoints@.map_values(|r: MapRow| (r.flat_index, r.label@)),
            rows_view(out@) == after_branches + rv.take(k as int).map_values(
                |r: (usize, Seq<char>)| checkpoint_line(r, selected),
            ),
        decreases g.checkpoints@.len() - k,
    {
        let row = &g.checkpoints[k];
        let is_sel = row.flat_index == selected;
        let prefix = if is_sel { "    ▶ " } else { "      " };
        let style = if is_sel { LineStyle::Selected } else { LineStyle::Subtle };
        let ghost before = rows_view(out@);
        let num = usize_str(row.flat_index + 1);
        push_one(out, join4(prefix, num.as_str(), ". ", row.label.as_str()), style);
        assert(rv.take(k + 1).map_values(|r: (usize, Seq<char>)| checkpoint_line(r, selected)) =~= rv.take(
            k as int,
        ).map_values(|r: (usize, Seq<char>)| checkpoint_line(r, selected)).push(checkpoint_line(rv[k as int], selected)));
        k += 1;
    }
    assert(rv.take(g.checkpoints@.len() as int) =~= rv);
    push_one(out, String::new(), LineStyle::Plain);
    assert(rows_view(out@) =~= start + group_lines(group_view(*g), selected));
}

/// The map panel: the reached chapters with their checkpoints, `selected`
/// being the checkpoint menu's cursor.
pub fn map_lines(groups: &[MapGroup], selected: usize) -> (r: Vec<StyledLine>)
    requires
        forall|i: int, k: int|
            0 <= i < groups@.len() && 0 <= k < groups@[i].checkpoints@.len() ==> #[trigger] groups@[i].checkpoints@[k].flat_index
                < usize::MAX,
    ensures
        rows_view(r@) == spec_map_lines(groups@.map_values(|g: MapGroup| group_view(g)), selected),
{
    let ghost gs = groups@.map_values(|g: MapGroup| group_view(g));
    let mut out: Vec<StyledLine> = Vec::new();
    if groups.len() == 0 {
        push_one(&mut out, owned("还没有可以回到的节点。"), LineStyle::Subtle);
        return out;
    }
    let mut i: usize = 0;
    while i < groups.len()
        invariant
            i <= groups@.len(),
            gs == groups@.map_values(|g: MapGroup| group_view(g)),
            rows_view(out@) == groups_lines_upto(gs, selected, i as int),
            forall|i: int, k: int|
                0 <= i < groups@.len() && 0 <= k < groups@[i].checkpoints@.len() ==> #[trigger] groups@[i].checkpoints@[k].flat_index
                    < usize::MAX,
        decreases groups@.len() - i,
    {
        assert(forall|k: int| 0 <= k < groups@[i as int].checkpoints@.len() ==> #[trigger] groups@[i as int].checkpoints@[k].flat_index < usize::MAX);
        push_group(&mut out, &groups[i], selected);
        i += 1;
    }
    out
}

// ----- the notes panel -----

impl NoteTab {
    pub open spec fn spec_label(self) -> Seq<char> {
        match self {
            NoteTab::Narrative => "叙事"@,
            NoteTab::Dialogue => "对话"@,
            NoteTab::Judgment => "审判"@,
            NoteTab::Voice => "心声"@,
        }
    }

    /// The tab's name.
    pub fn label(self) -> (r: &'static str)
        ensures
            r@ == self.spec_label(),
    {
        match self {
            NoteTab::Narrative => "叙事",
            NoteTab::Dialogue => "对话",
            NoteTab::Judgment => "审判",
            NoteTab::Voice => "心声",
        }
    }
}

/// The tab bar: `1. 叙事` to `4. 心声`, each with whether it is open.
pub open spec fn spec_tab_labels(open: NoteTab) -> Seq<(Seq<char>, bool)> {
    seq![
        tab_label(0, NoteTab::Narrative, open),
        tab_label(1, NoteTab::Dialogue, open),
        tab_label(2, NoteTab::Judgment, open),
        tab_label(3, NoteTab::Voice, open),
    ]
}

/// Tab `t` at position `i` (from 0), and whether it is the open one.
pub open spec fn tab_label(i: int, t: NoteTab, open: NoteTab) -> (Seq<char>, bool) {
    (dec((i + 1) as nat) + ". "@ + t.spec_label(), t == open)
}

fn tab_pair(i: usize, t: NoteTab, open: NoteTab) -> (r: (String, bool))
    requires
        i < 4,
    ensures
        (r.0@, r.1) == tab_label(i as int, t, open),
{
    (join3(usize_str(i + 1).as_str(), ". ", t.label()), t == open)
}

pub fn tab_labels(open: NoteTab) -> (r: Vec<(String, bool)>)
    ensures
        r@.map_values(|p: (String, bool)| (p.0@, p.1)) == spec_tab_labels(open),
{
    let mut out: Vec<(String, bool)> = Vec::new();
    out.push(tab_pair(0, NoteTab::Narrative, open));
    out.push(tab_pair(1, NoteTab::Dialogue, open));
    out.push(tab_pair(2, NoteTab::Judgment, open));
    out.push(tab_pair(3, NoteTab::Voice, open));
    assert(out@.map_values(|p: (String, bool)| (p.0@, p.1)) =~= spec_tab_labels(open));
    out
}

/// One entry of the notes: a heading, the text rendered, a blank line.
pub open spec fn entry_lines(head: Seq<char>, style: LineStyle, text: Seq<char>) -> Seq<(Seq<char>, LineStyle)> {
    seq![(head, style)] + spec_render(text) + seq![(Seq::<char>::empty(), LineStyle::Plain)]
}

pub open spec fn entries_upto(es: Seq<(Seq<char>, LineStyle, Seq<char>)>, n: int) -> Seq<(Seq<char>, LineStyle)>
    decreases n,
{
    if n <= 0 {
        Seq::empty()
    } else {
        entries_upto(es, n - 1) + entry_lines(es[n - 1].0, es[n - 1].1, es[n - 1].2)
    }
}

pub open spec fn world_name(w: World) -> Seq<char> {
    match w {
        World::Surface => "Surface"@,
        World::Shadow => "Shadow"@,
    }
}

/// The entries of a tab: intros and outros under `[开场]`/`[结局]` and the
/// chapter title; dialogues under character, topic and world; judgments
/// under their target; voices under their label.
pub open spec fn tab_entries(v: NoteView, tab: NoteTab) -> Seq<(Seq<char>, LineStyle, Seq<char>)> {
    match tab {
        NoteTab::Narrative => v.narratives@.map_values(
            |n: crate::engine::outcome::NoteNarrative| (
                "["@ + (if n.is_outro { "结局"@ } else { "开场"@ }) + "] "@ + n.title@,
                LineStyle::Heading,
                n.text@,
            ),
        ),
        NoteTab::Dialogue => v.dialogues@.map_values(
            |d: crate::engine::outcome::NoteDialogue| (
                d.character_name@ + " · "@ + d.topic_label@ + " ["@ + world_name(d.world) + "]"@,
                LineStyle::Accent,
                d.text@,
            ),
        ),
        NoteTab::Judgment => v.judgments@.map_values(
            |j: crate::engine::outcome::NoteJudgment| ("审判 · "@ + j.target_name@, LineStyle::Emphasis, j.text@),
        ),
        NoteTab::Voice => v.voices@.map_values(
            |x: crate::engine::outcome::NoteVoice| ("▌ "@ + x.label@, LineStyle::Emphasis, x.text@),
        ),
    }
}

pub open spec fn spec_note_lines(v: NoteView, tab: NoteTab) -> Seq<(Seq<char>, LineStyle)> {
    let es = tab_entries(v, tab);
    entries_upto(es, es.len() as int)
}

fn push_entry(out: &mut Vec<StyledLine>, head: String, style: LineStyle, text: &str)
    ensures
        rows_view(final(out)@) == rows_view(old(out)@) + entry_lines(head@, style, text@),
{
    let ghost start = rows_view(out@);
    push_one(out, head, style);
    let body = render(text);
    let ghost mid = rows_view(out@);
    let mut k: usize = 0;
    while k < body.len()
        invariant
            k <= body@.len(),
            rows_view(body@) == spec_render(text@),
            rows_view(out@) == mid + rows_view(body@).take(k as int),
        decreases body@.len() - k,
    {
        push_one(out, owned(body[k].text.as_str()), body[k].style);
        assert(rows_view(body@).take(k + 1) =~= rows_view(body@).take(k as int).push(rows_view(body@)[k as int]));
        k += 1;
    }
    assert(rows_view(body@).take(body@.len() as int) =~= rows_view(body@));
    push_one(out, String::new(), LineStyle::Plain);
    assert(rows_view(out@) =~= start + entry_lines(head@, style, text@));
}

/// The lines of a tab of the notes panel.
pub fn note_lines(view: &NoteView, tab: NoteTab) -> (r: Vec<StyledLine>)
    ensures
        rows_view(r@) == spec_note_lines(*view, tab),
{
    let ghost es = tab_entries(*view, tab);
    let mut out: Vec<StyledLine> = Vec::new();
    match tab {
        NoteTab::Narrative => {
            let mut i: usize = 0;
            while i < view.narratives.len()
                invariant
                    i <= view.narratives@.len(),
                    es == tab_entries(*view, tab),
                    tab == NoteTab::Narrative,
                    rows_view(out@) == entries_upto(es, i as int),
                decreases view.narratives@.len() - i,
            {
                let n = &view.narratives[i];
                let tag = if n.is_outro { "结局" } else { "开场" };
                push_entry(&mut out, join4("[", tag, "] ", n.title.as_str()), LineStyle::Heading, n.text.as_str());
                i += 1;
            }
        },
        NoteTab::Dialogue => {
            let mut i: usize = 0;
            while i < view.dialogues.len()
                invariant
                    i <= view.dialogues@.len(),
                    es == tab_entries(*view, tab),
                    tab == NoteTab::Dialogue,
                    rows_view(out@) == entries_upto(es, i as int),
                decreases view.dialogues@.len() - i,
            {
                let d = &view.dialogues[i];
                let head = join4(
                    join3(d.character_name.as_str(), " · ", d.topic_label.as_str()).as_str(),
                    " [",
                    world_label(d.world),
                    "]",
                );
                push_entry(&mut out, head, LineStyle::Accent, d.text.as_str());
                i += 1;
            }
        },
        NoteTab::Judgment => {
            let mut i: usize = 0;
            while i < view.judgments.len()
                invariant
                    i <= view.judgments@.len(),
                    es == tab_entries(*view, tab),
                    tab == NoteTab::Judgment,
                    rows_view(out@) == entries_upto(es, i as int),
                decreases view.judgments@.len() - i,
            {
                let j = &view.judgments[i];
                push_entry(&mut out, join("审判 · ", j.target_name.as_str()), LineStyle::Emphasis, j.text.as_str());
                i += 1;
            }
        },
        NoteTab::Voice => {
            let mut i: usize = 0;
            while i < view.voices.len()
                invariant
                    i <= view.voices@.len(),
                    es == tab_entries(*view, tab),
                    tab == NoteTab::Voice,
                    rows_view(out@) == entries_upto(es, i as int),
                decreases view.voices@.len() - i,
            {
                let x = &view.voices[i];
                push_entry(&mut out, join("▌ ", x.label.as_str()), LineStyle::Emphasis, x.text.as_str());
                i += 1;
            }
        },
    }
    out
}


// ----- the title screen -----

/// The title menu's rows: the English label of each option, the selected
/// one behind `▶`.
pub open spec fn spec_home_rows(options: Seq<MenuOption>, selected: usize) -> Seq<(Seq<char>, bool)> {
    options.map(
        |i: int, o: MenuOption| (
            (if i == selected { "▶ "@ } else { "  "@ }) + spec_title_label(o.id@, o.label@),
            i == selected,
        ),
    )
}

pub fn home_rows(options: &[MenuOption], selected: usize) -> (r: Vec<(String, bool)>)
    ensures
        r@.map_values(|p: (String, bool)| (p.0@, p.1)) == spec_home_rows(options@, selected),
{
    let ghost want = spec_home_rows(options@, selected);
    let mut out: Vec<(String, bool)> = Vec::new();
    let mut i: usize = 0;
    while i < options.len()
        invariant
            i <= options@.len(),
            want == spec_home_rows(options@, selected),
            out@.map_values(|p: (String, bool)| (p.0@, p.1)) == want.take(i as int),
        decreases options@.len() - i,
    {
        let sel = i == selected;
        let marker = if sel { "▶ " } else { "  " };
        let text = join(marker, title_option_label(options[i].id.as_str(), options[i].label.as_str()));
        let ghost before = out@.map_values(|p: (String, bool)| (p.0@, p.1));
        out.push((text, sel));
        assert(want[i as int] == (text@, sel));
        assert(out@.map_values(|p: (String, bool)| (p.0@, p.1)) =~= before.push((text@, sel)));
        assert(want.take(i + 1) =~= want.take(i as int).push(want[i as int]));
        i += 1;
    }
    assert(want.take(options@.len() as int) =~= want);
    out
}

// ----- one frame -----

/// The open menu as the view draws it.
pub struct MenuView<'a> {
    pub kind: MenuKind,
    pub options: &'a [MenuOption],
    pub selected: usize,
}

/// Everything one frame shows.
pub struct ViewState<'a> {
    pub title: &'a str,
    pub scene_name: &'a str,
    pub world: World,
    pub scene_text: &'a str,
    pub npcs: &'a [NpcInfo],
    /// (endings reached, endings in all).
    pub endings: (usize, usize),
    pub state: SessionState,
    pub input: &'a CommandInput,
    pub transcript: &'a [StyledLine],
    pub offset: usize,
    pub menu: Option<MenuView<'a>>,
    pub confirmation: Option<&'a ConfirmationAction>,
    pub suggestions: Option<&'a Suggestions>,
    pub note: Option<&'a NotePanel>,
    pub notice: Option<&'a Notice>,
    pub map: Option<&'a [MapGroup]>,
    pub no_motion: bool,
    pub animation: Option<AnimationKind>,
    pub typewriter: Option<Typewriter>,
}

impl<B: SaveBackend> App<B> {
    /// What the next frame shows: the menu only in a menu state, the
    /// confirmation only while confirming, completions only while
    /// exploring, the map only while choosing a checkpoint (and when it has
    /// something), the typewriter only while it runs.
    pub fn view_state(&self) -> (v: ViewState<'_>)
        ensures
            v.title@ == self.cached_title@,
            v.scene_name@ == self.cached_scene_name@,
            v.scene_text@ == self.cached_scene_text@,
            v.npcs@ == self.cached_npcs@,
            v.world == self.session.save.current_world,
            v.endings.0 == self.session.save.discovered.endings@.len(),
            v.endings.1 as int == self.session.engine.endings_upto(self.session.engine.chapters@.len() as int).len(),
            v.state == self.session.state,
            *v.input == self.input,
            v.transcript@ == self.transcript@,
            v.offset == self.transcript_offset,
            match v.menu {
                Some(m) => shows_menu(self.session.state) && (self.menu matches Some(a) && m.kind == a.kind
                    && m.options@ == a.options@ && m.selected == a.selected),
                None => !shows_menu(self.session.state) || self.menu is None,
            },
            match v.confirmation {
                Some(c) => self.session.state == SessionState::Confirming && self.confirmation == Some(*c),
                None => self.session.state != SessionState::Confirming || self.confirmation is None,
            },
            match v.suggestions {
                Some(s) => self.session.state == SessionState::Exploring && (self.suggestions matches Some(x)
                    && *s == x),
                None => self.session.state != SessionState::Exploring || self.suggestions is None,
            },
            match v.note {
                Some(n) => self.note_panel matches Some(p) && *n == p,
                None => self.note_panel is None,
            },
            match v.notice {
                Some(n) => self.notice matches Some(x) && *n == x,
                None => self.notice is None,
            },
            match v.map {
                Some(m) => self.session.state == SessionState::ChoosingCheckpoint && m@.len() > 0 && m@
                    == self.cached_map@,
                None => self.session.state != SessionState::ChoosingCheckpoint || self.cached_map@.len() == 0,
            },
            v.no_motion == (self.motion == EffectiveMotion::Off),
            v.animation == match self.animation {
                Some(a) => Some(a.kind),
                None => None::<AnimationKind>,
            },
            v.typewriter == match self.typewriter {
                Some(t) => if t.revealed < t.total { Some(t) } else { None },
                None => None,
            },
    {
        let state = self.session.state;
        let found = self.session.save.discovered.endings.len();
        let ids = self.session.engine.ending_chapter_ids();
        let total = ids.len();
        proof {
            assert(strs_ref(ids@).len() == ids@.len());
        }
        let menu = if shows_menu_exec(&state) {
            match &self.menu {
                Some(m) => Some(MenuView { kind: m.kind, options: m.options.as_slice(), selected: m.selected }),
                None => None,
            }
        } else {
            None
        };
        let confirmation = match state {
            SessionState::Confirming => self.confirmation.as_ref(),
            _ => None,
        };
        let suggestions = match state {
            SessionState::Exploring => self.suggestions.as_ref(),
            _ => None,
        };
        let map = match state {
            SessionState::ChoosingCheckpoint => {
                if self.cached_map.len() > 0 {
                    Some(self.cached_map.as_slice())
                } else {
                    None
                }
            },
            _ => None,
        };
        let animation = match &self.animation {
            Some(a) => Some(a.kind),
            None => None,
        };
        let typewriter = match self.typewriter {
            Some(t) => if t.is_active() { Some(t) } else { None },
            None => None,
        };
        ViewState {
            title: self.cached_title.as_str(),
            scene_name: self.cached_scene_name.as_str(),
            world: self.session.save.current_world,
            scene_text: self.cached_scene_text.as_str(),
            npcs: self.cached_npcs.as_slice(),
            endings: (found, total),
            state,
            input: &self.input,
            transcript: self.transcript.as_slice(),
            offset: self.transcript_offset,
            menu,
            confirmation,
            suggestions,
            note: self.note_panel.as_ref(),
            notice: self.notice.as_ref(),
            map,
            no_motion: self.motion.is_off(),
            animation,
            typewriter,
        }
    }
}

fn shows_menu_exec(state: &SessionState) -> (r: bool)
    ensures
        r == shows_menu(*state),
{
    match state {
        SessionState::Title | SessionState::ChoosingSettings | SessionState::ChoosingAskCharacter
        | SessionState::ChoosingAskTopic | SessionState::ChoosingJudgeCharacter | SessionState::ChoosingMove
        | SessionState::ChoosingCheckpoint => true,
        _ => false,
    }
}

} // verus!
