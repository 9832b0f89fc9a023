use darkbluff::engine::outcome::{
    ConfirmationAction, MenuKind, Message, NoteView, Outcome, SessionState,
};
use darkbluff::ui::command::{all, args_for, desc_for, is_known};
use darkbluff::ui::input::CommandInput;
use darkbluff::ui::labels::{
    logo, outcome_snaps_to_bottom, title_option_label, world_label, LOGO_DARK_COLS,
};
use darkbluff::ui::scroll::{apply_scroll_delta, clamp_offset, is_transcript_scrollable};
use darkbluff::ui::suggest::{apply_completion, command_suggestions, filter_opts, strip_slash};
use darkbluff::ui::types::{SuggestKind, Suggestion, Suggestions};
use darkbluff::ui::width::{
    char_width, count_visual_lines, truncate_by_width, truncate_s, wrap_by_width,
};
use darkbluff::world::World;
use darkbluff::ui::markdown::{narrative_quote, quote_block, render, strip_md_prefix, LineStyle, StyledLine};
use darkbluff::ui::view::{
    confirm_prompt, find_window_start, home_rows, input_hint, map_lines, menu_title, note_lines, scene_title,
    suggest_title, tab_labels, too_small, topic_text, transcript_rows, transcript_title, window_range,
};
use darkbluff::ui::app::{NoteTab, Typewriter};
use darkbluff::ui::types::{MapGroup, MapRow};
use darkbluff::engine::outcome::{MenuOption, NoteDialogue, NoteNarrative};

#[test]
fn snaps_to_bottom_excludes_scene_description() {
    let snap = [
        Outcome::Dialogue { header: "h".into(), body: "b".into(), notes: vec![] },
        Outcome::ChapterIntro { text: "t".into() },
        Outcome::ChapterOutro { text: "t".into() },
        Outcome::Narrative { label: "l".into(), text: "t".into() },
        Outcome::EndingReached { title: "t".into(), found: 0, total: 1 },
        Outcome::Message(Message::info(vec!["x".into()])),
    ];
    let no_snap = [
        Outcome::SceneDescription { text: "t".into() },
        Outcome::MenuRequested { kind: MenuKind::Title, prompt: "p".into(), options: vec![] },
        Outcome::ConfirmationRequested { action: ConfirmationAction::NewGame, prompt: "p".into() },
        Outcome::Ignored,
    ];
    for o in snap {
        assert!(outcome_snaps_to_bottom(&o), "{o:?} should snap");
    }
    for o in no_snap {
        assert!(!outcome_snaps_to_bottom(&o), "{o:?} should not snap");
    }
}

#[test]
fn notes_and_quit_do_not_snap() {
    let notes = Outcome::Notes(NoteView::default());
    assert!(!outcome_snaps_to_bottom(&notes));
    assert!(!outcome_snaps_to_bottom(&Outcome::QuitRequested));
}

#[test]
fn scroll_delta_positive_grows_saturating() {
    assert_eq!(apply_scroll_delta(5, 3), 8);
    assert_eq!(apply_scroll_delta(usize::MAX, 10), usize::MAX);
}

#[test]
fn scroll_delta_negative_shrinks_saturating() {
    assert_eq!(apply_scroll_delta(5, -3), 2);
    assert_eq!(apply_scroll_delta(1, -5), 0);
    assert_eq!(apply_scroll_delta(0, -3), 0);
}

#[test]
fn clamp_offset_within_and_over_bounds() {
    assert_eq!(clamp_offset(0, 40, 18), 0);
    assert_eq!(clamp_offset(10, 40, 18), 10);
    assert_eq!(clamp_offset(22, 40, 18), 22);
    assert_eq!(clamp_offset(999, 40, 18), 22);
    assert_eq!(clamp_offset(3, 5, 18), 0);
}

#[test]
fn transcript_scrollable_only_in_exploring_and_ack_states() {
    let scrollable = [
        SessionState::Exploring,
        SessionState::ShowingIntro,
        SessionState::ShowingNarrative,
        SessionState::ShowingOutro,
        SessionState::Ending,
    ];
    let not_scrollable = [
        SessionState::Title,
        SessionState::ChoosingSettings,
        SessionState::ChoosingAskCharacter,
        SessionState::ChoosingAskTopic,
        SessionState::ChoosingJudgeCharacter,
        SessionState::ChoosingMove,
        SessionState::ChoosingCheckpoint,
        SessionState::Confirming,
    ];
    for s in scrollable {
        assert!(is_transcript_scrollable(&s), "{s:?} should scroll");
    }
    for s in not_scrollable {
        assert!(!is_transcript_scrollable(&s), "{s:?} should not scroll");
    }
}

#[test]
fn ack_states_wait_for_continue() {
    assert!(SessionState::ShowingIntro.is_ack());
    assert!(SessionState::ShowingNarrative.is_ack());
    assert!(SessionState::ShowingOutro.is_ack());
    assert!(SessionState::Ending.is_ack());
    assert!(!SessionState::Exploring.is_ack());
}

#[test]
fn strip_slash_removes_all_leading_slashes() {
    assert_eq!(strip_slash("/ask"), "ask");
    assert_eq!(strip_slash("//ask"), "ask");
    assert_eq!(strip_slash("  ///ask wolf"), "ask wolf");
    assert_eq!(strip_slash("ask"), "ask");
}

#[test]
fn apply_completion_replaces_trailing_token() {
    assert_eq!(apply_completion("/as", "/ask "), "/ask ");
    assert_eq!(apply_completion("/ask wo", "wolf "), "/ask wolf ");
    assert_eq!(apply_completion("/ask ", "wolf "), "/ask wolf ");
}

#[test]
fn filter_opts_matches_id_or_label() {
    let cands: Vec<(String, String)> =
        vec![("wolf".into(), "灰狼".into()), ("crow".into(), "乌鸦".into())];
    assert_eq!(filter_opts(cands.clone(), "wo").len(), 1);
    assert_eq!(filter_opts(cands.clone(), "灰").len(), 1);
    assert!(filter_opts(cands.clone(), "zzz").is_empty());
}

#[test]
fn filter_opts_builds_display_and_insert() {
    let cands: Vec<(String, String)> = vec![("wolf".into(), "灰狼".into())];
    let r = filter_opts(cands, "");
    assert_eq!(r.len(), 1);
    assert_eq!(r[0].display, "灰狼 · wolf");
    assert_eq!(r[0].desc, "");
    assert_eq!(r[0].insert, "wolf ");
}

#[test]
fn command_suggestions_by_prefix() {
    let sg = command_suggestions("a").expect("ask");
    assert_eq!(sg.kind, SuggestKind::Command);
    assert_eq!(sg.items.len(), 1);
    assert_eq!(sg.items[0].display, "/ask");
    assert_eq!(sg.items[0].insert, "/ask ");
    assert!(command_suggestions("zz").is_none());
    assert_eq!(command_suggestions("").map(|s| s.items.len()), Some(8));
}

#[test]
fn suggestion_selection_is_clamped() {
    let items = vec![
        Suggestion { display: "a".into(), desc: String::new(), insert: "a ".into() },
        Suggestion { display: "b".into(), desc: String::new(), insert: "b ".into() },
    ];
    let mut s = Suggestions::new(SuggestKind::Scene, items).unwrap();
    assert_eq!(s.selected, 0);
    s.move_selection(5);
    assert_eq!(s.selected, 1);
    s.move_selection(-9);
    assert_eq!(s.selected, 0);
    assert!(Suggestions::new(SuggestKind::Scene, vec![]).is_none());
}

#[test]
fn maps_known_title_option_ids_to_english() {
    assert_eq!(title_option_label("new_game", "新游戏"), "New Game");
    assert_eq!(title_option_label("continue", "继续"), "Continue");
    assert_eq!(title_option_label("settings", "设置"), "Settings");
    assert_eq!(title_option_label("motion_full", "动画：完整"), "Motion: Full");
    assert_eq!(title_option_label("motion_reduced", "动画：减少"), "Motion: Reduced");
    assert_eq!(title_option_label("motion_off", "动画：关闭"), "Motion: Off");
    assert_eq!(title_option_label("quit", "退出"), "Quit");
}

#[test]
fn falls_back_to_label_for_unknown_id() {
    assert_eq!(title_option_label("settings", "Settings"), "Settings");
    assert_eq!(title_option_label("other", "其他"), "其他");
}

#[test]
fn world_labels_in_english() {
    assert_eq!(world_label(World::Surface), "Surface");
    assert_eq!(world_label(World::Shadow), "Shadow");
}

#[test]
fn logo_has_six_rows_of_nine_glyphs() {
    let rows = logo();
    assert_eq!(rows.len(), 6);
    assert!(rows[0].starts_with("██████"));
    assert_eq!(LOGO_DARK_COLS, 36);
}

#[test]
fn wrap_ascii_into_chunks() {
    assert_eq!(wrap_by_width("abcdef", 3), vec!["abc".to_string(), "def".to_string()]);
}

#[test]
fn wrap_cjk_by_display_width() {
    assert_eq!(wrap_by_width("一二三", 4), vec!["一二".to_string(), "三".to_string()]);
}

#[test]
fn wrap_zero_width_passthrough() {
    assert_eq!(wrap_by_width("abc", 0), vec!["abc".to_string()]);
}

#[test]
fn truncate_appends_ellipsis() {
    assert_eq!(truncate_s("abcdef", 4), "abc…");
}

#[test]
fn truncate_keeps_short_input() {
    assert_eq!(truncate_s("ab", 10), "ab");
}

#[test]
fn truncate_by_width_cjk_no_ellipsis() {
    assert_eq!(truncate_by_width("一二三四", 5), "一二");
    assert_eq!(truncate_by_width("abc", 10), "abc");
    assert_eq!(truncate_by_width("一二", 3), "一");
}

#[test]
fn count_visual_lines_wraps_by_display_width() {
    assert_eq!(count_visual_lines("abcdef", 3), 2);
    assert_eq!(count_visual_lines("一二三", 4), 2);
    assert_eq!(count_visual_lines("", 10), 1);
    assert_eq!(count_visual_lines("abc", 0), 1);
}

#[test]
fn char_widths_follow_unicode() {
    assert_eq!(char_width('a'), 1);
    assert_eq!(char_width('一'), 2);
    assert_eq!(char_width('\u{7}'), 0);
}

#[test]
fn command_input_edits_at_cursor() {
    let mut inp = CommandInput::default();
    inp.insert('a');
    inp.insert('c');
    inp.move_left();
    inp.insert('b');
    assert_eq!(inp.value(), "abc");
    assert!(!inp.cursor_at_end());
    inp.jump_end();
    assert!(inp.cursor_at_end());
    inp.backspace();
    assert_eq!(inp.value(), "ab");
    inp.jump_start();
    inp.delete();
    assert_eq!(inp.value(), "b");
    assert_eq!(inp.display_cursor(), 0);
    inp.move_right();
    assert_eq!(inp.display_cursor(), 1);
    let out = inp.submit();
    assert_eq!(out, "b");
    assert_eq!(inp.value(), "");
}

#[test]
fn command_input_cursor_counts_columns() {
    let mut inp = CommandInput::default();
    inp.set_value("一二".to_string());
    assert!(inp.cursor_at_end());
    assert_eq!(inp.display_cursor(), 4);
}

#[test]
fn command_metadata_table() {
    let metas = all();
    assert_eq!(metas.len(), 8);
    assert_eq!(metas[0].name, "ask");
    assert_eq!(desc_for("ask"), "询问在场角色");
    assert_eq!(desc_for("nope"), "");
    assert_eq!(args_for("nope"), "");
    assert!(is_known("gaze"));
    assert!(!is_known("dance"));
}

// ----- markdown rendering -----

fn texts(out: &[StyledLine]) -> Vec<&str> {
    out.iter().map(|s| s.text.as_str()).collect()
}

#[test]
fn render_styles_headings_lists_and_paragraphs() {
    let out = render("# Title\n\nbody\n\n- item");
    assert_eq!(texts(&out), vec!["Title", "body", "• item"]);
    assert_eq!(out[0].style, LineStyle::Heading);
    assert_eq!(out[1].style, LineStyle::Text);
    assert_eq!(out[2].style, LineStyle::Subtle);
}

#[test]
fn render_skips_blank_lines() {
    assert_eq!(texts(&render("\n\na\n\n\nb\n")), vec!["a", "b"]);
}

#[test]
fn render_strips_all_heading_levels() {
    for input in ["# h", "## h", "### h"] {
        assert_eq!(render(input)[0].text, "h");
    }
}

#[test]
fn narrative_quote_strips_markdown_heading() {
    let q = narrative_quote("旁白", "# 走不出去\n\n你朝桥对面走。");
    let rendered: Vec<String> = render(&q).into_iter().map(|s| s.text).collect();
    assert_eq!(rendered[0], "│ 〔旁白〕走不出去");
    assert!(rendered.iter().any(|l| l.contains("你朝桥对面走。")));
}

#[test]
fn quote_block_prefixes_every_line_and_strips_markers() {
    assert_eq!(quote_block("# a\n- b\nc"), "> a\n> b\n> c");
    assert_eq!(strip_md_prefix("## x"), "x");
    assert_eq!(strip_md_prefix("* y"), "y");
}

#[test]
fn render_quote_lines_get_a_bar() {
    let out = render("> quoted");
    assert_eq!(out[0].text, "│ quoted");
}

// ----- what a frame shows -----

fn sl(text: &str) -> StyledLine {
    StyledLine { text: text.to_string(), style: LineStyle::Text }
}

#[test]
fn panel_titles_and_hints() {
    assert_eq!(transcript_title(0), "对话记录");
    assert_eq!(transcript_title(7), "对话记录 ↑7");
    assert_eq!(scene_title(&SessionState::Title, "酒馆"), "场景");
    assert_eq!(scene_title(&SessionState::Exploring, "酒馆"), "场景 · 酒馆");
    assert_eq!(input_hint(&SessionState::Exploring), None);
    assert_eq!(input_hint(&SessionState::Confirming), Some(("确认", "y / Enter 确认 · n / Esc 取消")));
    assert_eq!(input_hint(&SessionState::ShowingIntro), Some(("继续", "按 Enter 继续 · 滚轮/PageUp 滚动")));
    assert_eq!(input_hint(&SessionState::ChoosingMove).unwrap().0, "选择");
    assert_eq!(menu_title(MenuKind::MoveDestination), "前往");
    assert_eq!(suggest_title(SuggestKind::Topic), "话题");
    assert_eq!(confirm_prompt(&ConfirmationAction::NewGame), "开始新游戏将覆盖现有存档。继续吗？");
    assert_eq!(
        confirm_prompt(&ConfirmationAction::Rollback { checkpoint_id: "ckpt_c1_start".into() }),
        "回滚到检查点 ckpt_c1_start？这将丢弃其后的进度（已发现的记忆保留）。继续吗？"
    );
    assert_eq!(topic_text("秘密", false), "秘密*");
    assert_eq!(topic_text("行踪", true), "行踪");
    assert!(too_small(85, 30) && too_small(100, 23) && !too_small(86, 24));
}

#[test]
fn window_start_covers_height_plus_offset() {
    let lines = vec![sl("aaaa"), sl("bb"), sl("cccccc"), sl("d")];
    // at width 2: rows 2, 1, 3, 1 from the top
    assert_eq!(find_window_start(&lines, 2, 2, 0), 2);
    assert_eq!(find_window_start(&lines, 2, 4, 0), 2);
    assert_eq!(find_window_start(&lines, 2, 5, 0), 1);
    assert_eq!(find_window_start(&lines, 2, 5, 2), 0);
    assert_eq!(find_window_start(&lines, 2, 50, 0), 0);
    assert_eq!(window_range(10, 4, 0), (6, 10));
    assert_eq!(window_range(10, 4, 8), (0, 2));
    assert_eq!(window_range(3, 4, 5), (0, 0));
}

#[test]
fn typewriter_reveals_only_what_is_revealed() {
    let lines = vec![sl("old"), sl("header"), sl("abcdef")];
    let all = transcript_rows(&lines, None, 0, 4);
    let texts: Vec<&str> = all.iter().map(|l| l.text.as_str()).collect();
    assert_eq!(texts, vec!["old", "head", "er", "abcd", "ef"]);
    let tw = Typewriter { lines: 2, skip: 1, revealed: 5, total: 6 };
    let rows = transcript_rows(&lines, Some(tw), 0, 4);
    let texts: Vec<&str> = rows.iter().map(|l| l.text.as_str()).collect();
    assert_eq!(texts, vec!["old", "head", "er", "abcd", "e"]);
    let tw = Typewriter { lines: 2, skip: 1, revealed: 0, total: 6 };
    let rows = transcript_rows(&lines, Some(tw), 1, 4);
    let texts: Vec<&str> = rows.iter().map(|l| l.text.as_str()).collect();
    assert_eq!(texts, vec!["head", "er", "", ""]);
}

#[test]
fn map_panel_lines() {
    assert_eq!(map_lines(&[], 0)[0].text, "还没有可以回到的节点。");
    let g = MapGroup {
        title: "首章".into(),
        ending: false,
        is_current: true,
        unseen_branches: 1,
        topic_progress: Some((2, 5)),
        checkpoints: vec![
            MapRow { flat_index: 0, label: "章节开始 · 酒馆".into() },
            MapRow { flat_index: 1, label: "审判前 · 酒馆".into() },
        ],
    };
    let e = MapGroup {
        title: "真相".into(),
        ending: true,
        is_current: false,
        unseen_branches: 0,
        topic_progress: None,
        checkpoints: vec![],
    };
    let out = map_lines(&[g, e], 1);
    let texts: Vec<&str> = out.iter().map(|l| l.text.as_str()).collect();
    assert_eq!(
        texts,
        vec![
            "▶ 首章",
            "    话题 2/5",
            "    ???  1 个未探索分支",
            "      1. 章节开始 · 酒馆",
            "    ▶ 2. 审判前 · 酒馆",
            "",
            "  真相  ★",
            "",
        ]
    );
    assert_eq!(out[4].style, LineStyle::Selected);
    assert_eq!(out[3].style, LineStyle::Subtle);
}

#[test]
fn notes_panel_tabs_and_lines() {
    let tabs = tab_labels(NoteTab::Judgment);
    assert_eq!(
        tabs,
        vec![
            ("1. 叙事".to_string(), false),
            ("2. 对话".to_string(), false),
            ("3. 审判".to_string(), true),
            ("4. 心声".to_string(), false),
        ]
    );
    let view = NoteView {
        dialogues: vec![NoteDialogue {
            chapter: "c1".into(),
            character_id: "wolf".into(),
            character_name: "灰狼".into(),
            topic_id: "whereabouts".into(),
            topic_label: "行踪".into(),
            world: World::Shadow,
            text: "不在。".into(),
        }],
        narratives: vec![NoteNarrative { chapter: "c1".into(), title: "首章".into(), is_outro: false, text: "# 开场\n\n夜。".into() }],
        judgments: vec![],
        voices: vec![],
    };
    let d: Vec<String> = note_lines(&view, NoteTab::Dialogue).into_iter().map(|l| l.text).collect();
    assert_eq!(d, vec!["灰狼 · 行踪 [Shadow]".to_string(), "不在。".to_string(), "".to_string()]);
    let n = note_lines(&view, NoteTab::Narrative);
    assert_eq!(n[0].text, "[开场] 首章");
    assert_eq!(n[1].text, "开场");
    assert_eq!(n[1].style, LineStyle::Heading);
    assert!(note_lines(&view, NoteTab::Voice).is_empty());
}

#[test]
fn title_screen_rows() {
    let options = vec![
        MenuOption { id: "new_game".into(), label: "新游戏".into() },
        MenuOption { id: "motion_off".into(), label: "动画：关闭".into() },
        MenuOption { id: "other".into(), label: "别的".into() },
    ];
    assert_eq!(
        home_rows(&options, 1),
        vec![
            ("  New Game".to_string(), false),
            ("▶ Motion: Off".to_string(), true),
            ("  别的".to_string(), false),
        ]
    );
}
