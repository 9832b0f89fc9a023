use darkbluff::content::models::Chapter;
use darkbluff::content::condition::FactSet;
use darkbluff::engine::commands::{
    command_summary, help_for, help_overview, parse, Command, ParseOutcome, COMMAND_NAMES,
};
use darkbluff::engine::condition::{build_factset, chapter_complete, required_judgments_complete};
use darkbluff::engine::outcome::{Message, MessageLevel};
use darkbluff::save::schema::{JudgmentMade, Save};

#[test]
fn empty_input_ignored() {
    assert_eq!(parse(""), ParseOutcome::Empty);
    assert_eq!(parse("   \t  "), ParseOutcome::Empty);
}

#[test]
fn parses_all_no_arg_commands() {
    assert_eq!(parse("gaze"), ParseOutcome::Parsed(Command::Gaze));
    assert_eq!(parse("map"), ParseOutcome::Parsed(Command::ShowMap));
    assert_eq!(parse("note"), ParseOutcome::Parsed(Command::Note));
    assert_eq!(parse("quit"), ParseOutcome::Parsed(Command::Quit));
}

#[test]
fn parses_ask_variants() {
    assert_eq!(parse("ask"), ParseOutcome::Parsed(Command::Ask { target: None, topic: None }));
    assert_eq!(
        parse("ask wolf"),
        ParseOutcome::Parsed(Command::Ask { target: Some("wolf".into()), topic: None })
    );
    assert_eq!(
        parse("ask wolf whereabouts"),
        ParseOutcome::Parsed(Command::Ask { target: Some("wolf".into()), topic: Some("whereabouts".into()) })
    );
}

#[test]
fn parses_judge_move_help() {
    assert_eq!(parse("judge wolf"), ParseOutcome::Parsed(Command::Judge { target: Some("wolf".into()) }));
    assert_eq!(parse("move market"), ParseOutcome::Parsed(Command::Move { dest: Some("market".into()) }));
    assert_eq!(parse("help ask"), ParseOutcome::Parsed(Command::Help { cmd: Some("ask".into()) }));
    assert_eq!(parse("help"), ParseOutcome::Parsed(Command::Help { cmd: None }));
}

#[test]
fn case_insensitive() {
    match parse("ASK Wolf WHEREABOUTS") {
        ParseOutcome::Parsed(Command::Ask { target, topic }) => {
            assert_eq!(target.as_deref(), Some("wolf"));
            assert_eq!(topic.as_deref(), Some("whereabouts"));
        }
        _ => panic!(),
    }
    assert_eq!(parse("GAZE"), ParseOutcome::Parsed(Command::Gaze));
}

#[test]
fn tolerates_multiple_whitespace() {
    assert_eq!(
        parse("  ask    wolf   whereabouts  "),
        ParseOutcome::Parsed(Command::Ask { target: Some("wolf".into()), topic: Some("whereabouts".into()) })
    );
}

#[test]
fn unknown_command() {
    assert_eq!(parse("fly"), ParseOutcome::Unknown("fly".into()));
    assert_eq!(parse("xyzzy moon"), ParseOutcome::Unknown("xyzzy moon".into()));
}

#[test]
fn unknown_command_keeps_trimmed_text() {
    assert_eq!(parse("  Fly  Away "), ParseOutcome::Unknown("Fly  Away".into()));
}

#[test]
fn no_arg_commands_reject_extra_args() {
    assert_eq!(parse("gaze moon"), ParseOutcome::TooManyArguments("gaze".into()));
    assert_eq!(parse("map now"), ParseOutcome::TooManyArguments("map".into()));
    assert_eq!(parse("quit please"), ParseOutcome::TooManyArguments("quit".into()));
    assert_eq!(parse("NOTE x"), ParseOutcome::TooManyArguments("note".into()));
}

#[test]
fn extra_args_ignored_for_param_commands() {
    match parse("ask wolf whereabouts now") {
        ParseOutcome::Parsed(Command::Ask { target, topic }) => {
            assert_eq!(target.as_deref(), Some("wolf"));
            assert_eq!(topic.as_deref(), Some("whereabouts"));
        }
        _ => panic!(),
    }
    match parse("help ask extra") {
        ParseOutcome::Parsed(Command::Help { cmd }) => assert_eq!(cmd.as_deref(), Some("ask")),
        _ => panic!(),
    }
}

#[test]
fn command_names_complete() {
    assert_eq!(COMMAND_NAMES.len(), 8);
    assert!(COMMAND_NAMES.contains(&"ask"));
    assert!(COMMAND_NAMES.contains(&"quit"));
}

#[test]
fn help_texts() {
    let lines = help_overview();
    assert_eq!(lines.len(), 10);
    assert_eq!(lines[0], "可用指令：");
    assert_eq!(lines[1], "  ask   — 从在场角色收集信息；不指定话题时弹出话题菜单");
    assert_eq!(lines[2], "  judge — 审判某角色（章级操作），触发审判剧情；无参数则列出本章未审判角色");
    assert_eq!(lines[9], "输入 help [指令] 查看该指令详细用法。");
    assert_eq!(command_summary("quit"), Some("自动保存后退出"));
    assert_eq!(command_summary("fly"), None);
    let quit = help_for("quit").unwrap();
    assert_eq!(quit, vec!["quit — 退出游戏", "语法：quit", "  自动保存后退出。"]);
    assert_eq!(help_for("ask").unwrap().len(), 6);
    assert!(help_for("fly").is_none());
}

fn facts(items: &[&str]) -> FactSet {
    let mut f = FactSet::new();
    for i in items {
        f.insert(i.to_string());
    }
    f
}

#[test]
fn required_judgments_complete_explicit() {
    let req = vec!["j1".to_string(), "j2".to_string()];
    assert!(!required_judgments_complete(Some(&req[..]), &facts(&["j1"]), &[]));
    assert!(required_judgments_complete(Some(&req[..]), &facts(&["j1", "j2", "extra"]), &[]));
}

#[test]
fn required_judgments_complete_implicit_all() {
    let all = vec!["j1".to_string(), "j2".to_string()];
    assert!(!required_judgments_complete(None, &facts(&["j1"]), &all));
    assert!(required_judgments_complete(None, &facts(&["j1", "j2"]), &all));
}

#[test]
fn build_factset_merges_chapter_path() {
    let mut save = Save::new_game("c1", "s", "t".into());
    save.chapter_path.push("c2".into());
    save.clues_mut("c1").push("clue_a".into());
    save.clues_mut("c2").push("clue_b".into());
    save.judgments_mut("c1").push(JudgmentMade { judgment: "judge_wolf".into(), result_snapshot: "x".into() });
    let fs = build_factset(&save);
    assert!(fs.contains("clue_a"));
    assert!(fs.contains("clue_b"));
    assert!(fs.contains("judge_wolf"));
}

#[test]
fn factset_ignores_chapters_off_the_path_but_keeps_triggers() {
    let mut save = Save::new_game("c1", "s", "t".into());
    save.clues_mut("elsewhere").push("stray".into());
    save.discovered.add_trigger("voice");
    let fs = build_factset(&save);
    assert!(!fs.contains("stray"));
    assert!(fs.contains("voice"));
}

#[test]
fn chapter_complete_uses_required_list() {
    let ch = Chapter {
        id: "c1".into(),
        title: "t".into(),
        order: 0,
        ending: false,
        intro: None,
        outro: None,
        scenes: vec![],
        starting_scene: "s".into(),
        characters: vec![],
        required_judgments: Some(vec!["j1".into()]),
        next: None,
        narrative: vec![],
    };
    let all = vec!["j1".to_string(), "j2".to_string()];
    assert!(chapter_complete(&ch, &facts(&["j1"]), &all));
    let mut ch2 = ch.clone();
    ch2.required_judgments = None;
    assert!(!chapter_complete(&ch2, &facts(&["j1"]), &all));
}

#[test]
fn message_levels() {
    let m = Message::warning(vec!["w".into()]);
    assert_eq!(m.level, MessageLevel::Warning);
    assert_eq!(m.lines, vec!["w".to_string()]);
    assert_eq!(Message::info(vec![]).level, MessageLevel::Info);
    assert_eq!(Message::error(vec![]).level, MessageLevel::Error);
}
