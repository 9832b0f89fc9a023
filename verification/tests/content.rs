#![allow(deprecated)]
use darkbluff::ui::types::SuggestKind;
use darkbluff::ui::suggest::compute_suggestions;
use darkbluff::save::schema::{Checkpoint, CheckpointKind, CkptState, Save};
use darkbluff::engine::logic::{ask_topic_options, move_options, reconcile_save, unjudged_character_options};

use darkbluff::content::checker::{check, CheckReport, Issue, Severity};
use darkbluff::cli::{check_output, missing_default_data_dir, play_refusal};
use darkbluff::content::condition::{eval, topic_visible, FactSet};
use darkbluff::content::engine::ContentEngine;
use darkbluff::content::loader::{
    parse_scene_override_name, strip_md_ext, strip_yaml_ext, ContentDecoder, InMemorySource,
};
use darkbluff::content::models::{
    parse_dialogue_source, Branch, Chapter, ChapterCharacter, Character, Clue, Condition,
    ExitAttempt, Judgment, NarrativeItem, NextConfig, Scene, SceneDescription, Topic,
};
use darkbluff::error::AppError;
use darkbluff::world::World;
use darkbluff::engine::outcome::{Input, Outcome, Selection, SessionState};
use darkbluff::engine::state::Session;
use darkbluff::save::backend::SaveBackend;
use darkbluff::save::memory::MemoryStore;
use darkbluff::save::store::{resolve_load, LoadResult};
use darkbluff::save::schema::Motion;
use darkbluff::engine::outcome::{MenuKind, Message};
use darkbluff::ui::app::{App, Key, NoteTab, MAX_TRANSCRIPT};
use darkbluff::ui::markdown::LineStyle;

/// YAML records decoded through `serde_yml::Value`.
struct Yaml;

type V = serde_yml::Value;

fn parse(text: &str) -> Result<V, AppError> {
    serde_yml::from_str::<V>(text).map_err(|e| AppError::Yaml(e.to_string()))
}

fn field<'a>(v: &'a V, k: &str) -> Option<&'a V> {
    match v.get(k) {
        Some(x) if !x.is_null() => Some(x),
        _ => None,
    }
}

fn string(v: &V, k: &str) -> Result<String, AppError> {
    field(v, k)
        .and_then(|x| x.as_str())
        .map(|s| s.to_string())
        .ok_or_else(|| AppError::Yaml(format!("missing string field {k}")))
}

fn opt_string(v: &V, k: &str) -> Option<String> {
    field(v, k).and_then(|x| x.as_str()).map(|s| s.to_string())
}

fn string_list(v: &V) -> Vec<String> {
    v.as_sequence()
        .map(|s| s.iter().filter_map(|x| x.as_str().map(|t| t.to_string())).collect())
        .unwrap_or_default()
}

fn opt_list(v: &V, k: &str) -> Option<Vec<String>> {
    field(v, k).map(string_list)
}

fn list(v: &V, k: &str) -> Vec<String> {
    opt_list(v, k).unwrap_or_default()
}

fn flag(v: &V, k: &str) -> bool {
    field(v, k).and_then(|x| x.as_bool()).unwrap_or(false)
}

fn items(v: &V, k: &str) -> Vec<V> {
    field(v, k).and_then(|x| x.as_sequence()).map(|s| s.to_vec()).unwrap_or_default()
}

/// A list of ids in a condition: every item must be a plain id.
fn id_list(v: &V, k: &str) -> Result<Option<Vec<String>>, AppError> {
    match field(v, k) {
        None => Ok(None),
        Some(x) => {
            let seq = x.as_sequence().ok_or_else(|| AppError::Yaml(format!("{k} must be a list")))?;
            let mut out = Vec::new();
            for item in seq {
                let id = item.as_str().ok_or_else(|| AppError::Yaml(format!("{k} items must be ids")))?;
                out.push(id.to_string());
            }
            Ok(Some(out))
        }
    }
}

fn condition(v: &V) -> Result<Condition, AppError> {
    if let Some(s) = v.as_str() {
        return Ok(Condition::Fact(s.to_string()));
    }
    if !v.is_mapping() {
        return Err(AppError::Yaml("condition must be an id or a mapping".into()));
    }
    let not = match field(v, "not") {
        None => None,
        Some(x) => Some(x.as_str().ok_or_else(|| AppError::Yaml("not takes one id".into()))?.to_string()),
    };
    Condition::from_keys(id_list(v, "all_of")?, id_list(v, "any_of")?, not)
}

fn world(s: &str) -> Result<World, AppError> {
    match s {
        "surface" => Ok(World::Surface),
        "shadow" => Ok(World::Shadow),
        _ => Err(AppError::Yaml(format!("unknown world {s}"))),
    }
}

impl ContentDecoder for Yaml {
    fn scene(&self, text: &str) -> Result<Scene, AppError> {
        let v = parse(text)?;
        let d = field(&v, "description").ok_or_else(|| AppError::Yaml("description".into()))?;
        Ok(Scene {
            id: string(&v, "id")?,
            name: string(&v, "name")?,
            connections: list(&v, "connections"),
            one_way_connections: list(&v, "one_way_connections"),
            description: SceneDescription { surface: string(d, "surface")?, shadow: string(d, "shadow")? },
            exit_attempt: match field(&v, "exit_attempt") {
                Some(e) => Some(ExitAttempt { text: string(e, "text")? }),
                None => None,
            },
        })
    }

    fn character(&self, text: &str) -> Result<Character, AppError> {
        let v = parse(text)?;
        Ok(Character { id: string(&v, "id")?, name: string(&v, "name")? })
    }

    fn chapter(&self, text: &str) -> Result<Chapter, AppError> {
        let v = parse(text)?;
        let mut characters = Vec::new();
        for c in items(&v, "characters") {
            let mut topics = Vec::new();
            for t in items(&c, "topics") {
                topics.push(Topic {
                    id: string(&t, "id")?,
                    label: string(&t, "label")?,
                    available: flag(&t, "available"),
                    unlock_after: match field(&t, "unlock_after") {
                        Some(u) => Some(condition(u)?),
                        None => None,
                    },
                });
            }
            characters.push(ChapterCharacter { id: string(&c, "id")?, appears_in: opt_list(&c, "appears_in"), topics });
        }
        let next = match field(&v, "next") {
            Some(n) => {
                let mut branches = Vec::new();
                for b in items(n, "branches") {
                    let w = field(&b, "when").ok_or_else(|| AppError::Yaml("when".into()))?;
                    branches.push(Branch { when: condition(w)?, target: string(&b, "target")? });
                }
                Some(NextConfig { default: string(n, "default")?, branches })
            }
            None => None,
        };
        let mut narrative = Vec::new();
        for n in items(&v, "narrative") {
            narrative.push(NarrativeItem {
                id: string(&n, "id")?,
                label: string(&n, "label")?,
                when: match field(&n, "when") {
                    Some(w) => Some(condition(w)?),
                    None => None,
                },
                text: string(&n, "text")?,
            });
        }
        Ok(Chapter {
            id: string(&v, "id")?,
            title: string(&v, "title")?,
            order: field(&v, "order").and_then(|x| x.as_i64()).unwrap_or(0),
            ending: flag(&v, "ending"),
            intro: opt_string(&v, "intro"),
            outro: opt_string(&v, "outro"),
            scenes: list(&v, "scenes"),
            starting_scene: string(&v, "starting_scene")?,
            characters,
            required_judgments: opt_list(&v, "required_judgments"),
            next,
            narrative,
        })
    }

    fn judgments(&self, text: &str) -> Result<Vec<Judgment>, AppError> {
        let v = parse(text)?;
        let mut out = Vec::new();
        for j in v.as_sequence().map(|s| s.to_vec()).unwrap_or_default() {
            out.push(Judgment { id: string(&j, "id")?, target: string(&j, "target")?, result: string(&j, "result")? });
        }
        Ok(out)
    }

    fn clues(&self, text: &str) -> Result<Vec<Clue>, AppError> {
        let v = parse(text)?;
        let mut out = Vec::new();
        for c in v.as_sequence().map(|s| s.to_vec()).unwrap_or_default() {
            out.push(Clue { id: string(&c, "id")?, source: string(&c, "source")?, world: world(&string(&c, "world")?)? });
        }
        Ok(out)
    }
}

fn load(src: &InMemorySource) -> ContentEngine {
    ContentEngine::load(src, &Yaml).expect("load")
}

fn facts(items: &[&str]) -> FactSet {
    let mut f = FactSet::new();
    for i in items {
        f.insert(i.to_string());
    }
    f
}

// ----- conditions -----

#[test]
fn eval_variants() {
    let f = facts(&["a", "b"]);
    assert!(eval(&Condition::Fact("a".into()), &f));
    assert!(!eval(&Condition::Fact("z".into()), &f));
    assert!(eval(&Condition::AllOf(vec!["a".into(), "b".into()]), &f));
    assert!(!eval(&Condition::AllOf(vec!["a".into(), "z".into()]), &f));
    assert!(eval(&Condition::AnyOf(vec!["a".into(), "z".into()]), &f));
    assert!(eval(&Condition::Not("z".into()), &f));
    assert!(!eval(&Condition::Not("a".into()), &f));
}

#[test]
fn eval_empty_set_conventions() {
    let f = facts(&[]);
    assert!(eval(&Condition::AllOf(vec![]), &f));
    assert!(!eval(&Condition::AnyOf(vec![]), &f));
}

#[test]
fn topic_visible_rules() {
    let avail = Topic { id: "t".into(), label: "L".into(), available: true, unlock_after: None };
    assert!(topic_visible(&avail, &facts(&[])));

    let locked = Topic {
        id: "t".into(),
        label: "L".into(),
        available: false,
        unlock_after: Some(Condition::AllOf(vec!["a".into(), "b".into()])),
    };
    assert!(!topic_visible(&locked, &facts(&["a"])));
    assert!(topic_visible(&locked, &facts(&["a", "b"])));

    let permanent = Topic { id: "t".into(), label: "L".into(), available: false, unlock_after: None };
    assert!(!topic_visible(&permanent, &facts(&["anything"])));
}

#[test]
fn condition_keys_need_exactly_one_form() {
    assert_eq!(
        Condition::from_keys(Some(vec!["a".into()]), None, None).unwrap(),
        Condition::AllOf(vec!["a".into()])
    );
    assert_eq!(Condition::from_keys(None, None, Some("x".into())).unwrap(), Condition::Not("x".into()));
    assert!(matches!(
        Condition::from_keys(Some(vec![]), Some(vec![]), None),
        Err(AppError::Yaml(_))
    ));
    assert!(Condition::from_keys(None, None, None).is_err());
}

// ----- loader -----

#[test]
fn in_memory_list_and_read() {
    let src = InMemorySource::new()
        .insert("chapters/c1/chapter.yaml", "id: c1\n")
        .insert("chapters/c1/dialogues/wolf.md", "## t\n\n### [surface]\n\nx\n");
    let names = src.list_dir("chapters").unwrap();
    assert_eq!(names, vec!["c1"]);
    let dlg = src.list_dir("chapters/c1/dialogues").unwrap();
    assert_eq!(dlg, vec!["wolf.md"]);
    assert!(src.path_exists("chapters/c1/chapter.yaml"));
    assert!(src.path_exists("chapters/c1/dialogues"));
    assert!(!src.path_exists("chapters/c2"));
    assert!(src.read("chapters/c1/dialogues/wolf.md").unwrap().contains("## t"));
}

#[test]
fn strip_helpers() {
    assert_eq!(strip_yaml_ext("tavern.yaml"), Some("tavern"));
    assert_eq!(strip_md_ext("wolf.md"), Some("wolf"));
    assert!(strip_yaml_ext("x.txt").is_none());
}

#[test]
fn parse_scene_override() {
    assert_eq!(parse_scene_override_name("tavern.surface.md"), Some(("tavern".into(), World::Surface)));
    assert_eq!(parse_scene_override_name("alley.shadow.md"), Some(("alley".into(), World::Shadow)));
    assert!(parse_scene_override_name("tavern.md").is_none());
}

#[test]
fn missing_file_read_fails() {
    let src = InMemorySource::new().insert("a.md", "x");
    assert!(src.read("b.md").is_err());
    assert_eq!(src.list_dir("nothing").unwrap(), Vec::<String>::new());
}

#[test]
fn parse_dialogue_source_ok() {
    assert_eq!(parse_dialogue_source("wolf.whereabouts"), Some(("wolf", "whereabouts")));
}

#[test]
fn parse_dialogue_source_bad() {
    assert_eq!(parse_dialogue_source("nope"), None);
    assert_eq!(parse_dialogue_source(".topic"), None);
    assert_eq!(parse_dialogue_source("wolf."), None);
    assert_eq!(parse_dialogue_source("a.b.c"), None);
}

// ----- checker -----

fn valid_source() -> InMemorySource {
    InMemorySource::new()
        .insert(
            "scenes/s.yaml",
            "id: s\nname: 场景\ndescription:\n  surface: text/scenes/s.surface.md\n  shadow: text/scenes/s.shadow.md\n",
        )
        .insert("text/scenes/s.surface.md", "表面。")
        .insert("text/scenes/s.shadow.md", "影子。")
        .insert("characters/wolf.yaml", "id: wolf\nname: 灰狼\n")
        .insert(
            "chapters/c1/chapter.yaml",
            "id: c1\ntitle: 首\nscenes: [s]\nstarting_scene: s\ncharacters:\n  - id: wolf\n    topics:\n      - id: whereabouts\n        label: 行踪\n        available: true\nrequired_judgments: [judge_wolf]\nnext:\n  default: c2\n",
        )
        .insert("chapters/c1/judgments.yaml", "- id: judge_wolf\n  target: wolf\n  result: results/wolf.md\n")
        .insert("chapters/c1/clues.yaml", "- id: wolf_alibi\n  source: wolf.whereabouts\n  world: surface\n")
        .insert(
            "chapters/c1/dialogues/wolf.md",
            "## whereabouts\n\n### [surface]\n\n我在场。\n\n### [shadow]\n\n我不在。\n",
        )
        .insert("chapters/c1/results/wolf.md", "灰狼受审。")
        .insert(
            "chapters/c2/chapter.yaml",
            "id: c2\ntitle: 终\nending: true\nscenes: [s]\nstarting_scene: s\ncharacters:\n  - id: wolf\n    topics: []\nrequired_judgments: [judge_wolf_final]\noutro: outro.md\n",
        )
        .insert("chapters/c2/judgments.yaml", "- id: judge_wolf_final\n  target: wolf\n  result: results/wolf.md\n")
        .insert("chapters/c2/results/wolf.md", "终章审判。")
        .insert("chapters/c2/outro.md", "结局。")
}

fn check_source(src: &InMemorySource) -> CheckReport {
    let eng = load(src);
    check(&eng)
}

fn err_msgs(report: &CheckReport) -> Vec<String> {
    report.errors().iter().map(|i| i.message.clone()).collect()
}

#[test]
fn valid_dataset_has_no_errors() {
    let r = check_source(&valid_source());
    assert!(!r.has_errors(), "unexpected errors: {:?}", err_msgs(&r));
}

#[test]
fn detects_topic_missing_in_dialogue() {
    let src = valid_source().insert(
        "chapters/c1/chapter.yaml",
        "id: c1\ntitle: 首\nscenes: [s]\nstarting_scene: s\ncharacters:\n  - id: wolf\n    topics:\n      - id: ghost\n        label: 幽灵话题\n        available: true\nrequired_judgments: [judge_wolf]\nnext:\n  default: c2\n",
    );
    let r = check_source(&src);
    assert!(err_msgs(&r).iter().any(|m| m.contains("ghost") && m.contains("对话文件")));
}

#[test]
fn detects_invalid_next_target() {
    let src = valid_source().insert(
        "chapters/c1/chapter.yaml",
        "id: c1\ntitle: 首\nscenes: [s]\nstarting_scene: s\ncharacters:\n  - id: wolf\n    topics:\n      - id: whereabouts\n        label: 行踪\n        available: true\nrequired_judgments: [judge_wolf]\nnext:\n  default: nowhere\n",
    );
    let r = check_source(&src);
    assert!(err_msgs(&r).iter().any(|m| m.contains("跳转目标不存在")));
}

#[test]
fn detects_judgment_target_not_in_characters() {
    let src = valid_source()
        .insert("chapters/c1/judgments.yaml", "- id: judge_wolf\n  target: ghost\n  result: results/wolf.md\n");
    let r = check_source(&src);
    assert!(err_msgs(&r).iter().any(|m| m.contains("target") && m.contains("ghost")));
}

#[test]
fn detects_no_judgments() {
    let src = valid_source().insert("chapters/c1/judgments.yaml", "[]\n");
    let r = check_source(&src);
    assert!(err_msgs(&r).iter().any(|m| m.contains("至少定义一个审判点")));
}

#[test]
fn detects_clue_world_mismatch_real() {
    let src = valid_source()
        .insert("characters/crow.yaml", "id: crow\nname: 乌鸦\n")
        .insert(
            "chapters/c1/chapter.yaml",
            "id: c1\ntitle: 首\nscenes: [s]\nstarting_scene: s\ncharacters:\n  - id: wolf\n    topics:\n      - id: whereabouts\n        label: 行踪\n        available: true\n  - id: crow\n    appears_in: [s]\n    topics:\n      - id: victim\n        label: 受害者\n        available: true\nrequired_judgments: [judge_wolf]\nnext:\n  default: c2\n",
        )
        .insert(
            "chapters/c1/clues.yaml",
            "- id: wolf_alibi\n  source: wolf.whereabouts\n  world: surface\n- id: bad\n  source: crow.victim\n  world: shadow\n",
        )
        .insert("chapters/c1/dialogues/crow.md", "## victim\n\n### [surface]\n\n受害者。\n");
    let r = check_source(&src);
    assert!(err_msgs(&r).iter().any(|m| m.contains("bad") && m.contains("world")));
}

#[test]
fn detects_unknown_condition_id() {
    let src = valid_source().insert(
        "chapters/c1/chapter.yaml",
        "id: c1\ntitle: 首\nscenes: [s]\nstarting_scene: s\ncharacters:\n  - id: wolf\n    topics:\n      - id: whereabouts\n        label: 行踪\n        available: true\n      - id: secret\n        label: 秘密\n        available: false\n        unlock_after: no_such_clue\nrequired_judgments: [judge_wolf]\nnext:\n  default: c2\n",
    );
    let r = check_source(&src);
    assert!(err_msgs(&r).iter().any(|m| m.contains("未知 id") && m.contains("no_such_clue")));
}

#[test]
fn detects_cycle() {
    let src = valid_source()
        .insert(
            "chapters/c1/chapter.yaml",
            "id: c1\ntitle: 首\nscenes: [s]\nstarting_scene: s\nrequired_judgments: [judge_wolf]\nnext:\n  default: c2\n",
        )
        .insert(
            "chapters/c2/chapter.yaml",
            "id: c2\ntitle: 终\nscenes: [s]\nstarting_scene: s\nrequired_judgments: [judge_wolf]\nnext:\n  default: c1\n",
        );
    let r = check_source(&src);
    assert!(err_msgs(&r).iter().any(|m| m.contains("环")));
}

#[test]
fn detects_multiple_roots() {
    let src = valid_source()
        .insert("characters/fox.yaml", "id: fox\nname: 狐\n")
        .insert(
            "chapters/c3/chapter.yaml",
            "id: c3\ntitle: 孤立终\nending: true\nscenes: [s]\nstarting_scene: s\nrequired_judgments: [judge_fox]\n",
        )
        .insert("chapters/c3/judgments.yaml", "- id: judge_fox\n  target: fox\n  result: results/fox.md\n")
        .insert("chapters/c3/results/fox.md", "狐受审。");
    let r = check_source(&src);
    assert!(err_msgs(&r).iter().any(|m| m.contains("根节点")));
}

#[test]
fn detects_ending_with_next() {
    let src = valid_source().insert(
        "chapters/c2/chapter.yaml",
        "id: c2\ntitle: 终\nending: true\nscenes: [s]\nstarting_scene: s\nrequired_judgments: [judge_wolf]\nnext:\n  default: c1\n",
    );
    let r = check_source(&src);
    assert!(err_msgs(&r).iter().any(|m| m.contains("终章") && m.contains("next")));
}

#[test]
fn detects_non_ending_without_next() {
    let src = valid_source().insert(
        "chapters/c2/chapter.yaml",
        "id: c2\ntitle: 终\nscenes: [s]\nstarting_scene: s\nrequired_judgments: [judge_wolf]\n",
    );
    let r = check_source(&src);
    assert!(err_msgs(&r).iter().any(|m| m.contains("必须提供 next")));
}

#[test]
fn detects_outro_on_non_ending() {
    let src = valid_source().insert(
        "chapters/c1/chapter.yaml",
        "id: c1\ntitle: 首\nscenes: [s]\nstarting_scene: s\nrequired_judgments: [judge_wolf]\nnext:\n  default: c2\noutro: outro.md\n",
    );
    let r = check_source(&src);
    assert!(err_msgs(&r).iter().any(|m| m.contains("outro")));
}

#[test]
fn detects_missing_scene_description() {
    let src = InMemorySource::new()
        .insert(
            "scenes/s.yaml",
            "id: s\nname: 场景\ndescription:\n  surface: text/scenes/s.surface.md\n  shadow: text/scenes/s.shadow.md\n",
        )
        .insert("text/scenes/s.surface.md", "表面。")
        .insert("characters/wolf.yaml", "id: wolf\nname: 灰狼\n")
        .insert(
            "chapters/c1/chapter.yaml",
            "id: c1\ntitle: 首\nscenes: [s]\nstarting_scene: s\ncharacters:\n  - id: wolf\n    topics:\n      - id: whereabouts\n        label: 行踪\n        available: true\nrequired_judgments: [judge_wolf]\nnext:\n  default: c2\n",
        )
        .insert("chapters/c1/judgments.yaml", "- id: judge_wolf\n  target: wolf\n  result: results/wolf.md\n")
        .insert("chapters/c1/clues.yaml", "- id: wolf_alibi\n  source: wolf.whereabouts\n  world: surface\n")
        .insert("chapters/c1/dialogues/wolf.md", "## whereabouts\n\n### [surface]\n\n我在场。\n")
        .insert("chapters/c1/results/wolf.md", "灰狼受审。")
        .insert(
            "chapters/c2/chapter.yaml",
            "id: c2\ntitle: 终\nending: true\nscenes: [s]\nstarting_scene: s\nrequired_judgments: [judge_wolf]\noutro: outro.md\n",
        )
        .insert("chapters/c2/judgments.yaml", "- id: judge_wolf\n  target: wolf\n  result: results/wolf.md\n")
        .insert("chapters/c2/results/wolf.md", "终章审判。")
        .insert("chapters/c2/outro.md", "结局。");
    let r = check_source(&src);
    assert!(err_msgs(&r).iter().any(|m| m.contains("缺少 shadow 描述")));
}

#[test]
fn detects_dead_end_oneway() {
    let src = InMemorySource::new()
        .insert(
            "scenes/tavern.yaml",
            "id: tavern\nname: 酒馆\nconnections: [market]\none_way_connections: [cellar]\ndescription:\n  surface: ts.surface.md\n  shadow: ts.shadow.md\n",
        )
        .insert("scenes/market.yaml", "id: market\nname: 集市\ndescription:\n  surface: ms.surface.md\n  shadow: ms.shadow.md\n")
        .insert("scenes/cellar.yaml", "id: cellar\nname: 地窖\ndescription:\n  surface: cs.surface.md\n  shadow: cs.shadow.md\n")
        .insert("ts.surface.md", "a")
        .insert("ts.shadow.md", "b")
        .insert("ms.surface.md", "a")
        .insert("ms.shadow.md", "b")
        .insert("cs.surface.md", "a")
        .insert("cs.shadow.md", "b")
        .insert("characters/wolf.yaml", "id: wolf\nname: 灰狼\n")
        .insert(
            "chapters/c1/chapter.yaml",
            "id: c1\ntitle: 首\nscenes: [tavern, market]\nstarting_scene: tavern\ncharacters:\n  - id: wolf\n    topics:\n      - id: t\n        label: 话题\n        available: true\nrequired_judgments: [judge_wolf]\nnext:\n  default: c2\n",
        )
        .insert("chapters/c1/judgments.yaml", "- id: judge_wolf\n  target: wolf\n  result: results/wolf.md\n")
        .insert("chapters/c1/dialogues/wolf.md", "## t\n\n### [surface]\n\nx\n")
        .insert("chapters/c1/results/wolf.md", "审判。")
        .insert(
            "chapters/c2/chapter.yaml",
            "id: c2\ntitle: 终\nending: true\nscenes: [tavern]\nstarting_scene: tavern\nrequired_judgments: [judge_wolf]\n",
        )
        .insert("chapters/c2/judgments.yaml", "- id: judge_wolf\n  target: wolf\n  result: results/wolf.md\n")
        .insert("chapters/c2/results/wolf.md", "终审。");
    let r = check_source(&src);
    assert!(err_msgs(&r).iter().any(|m| m.contains("死胡同")));
}

#[test]
fn cross_chapter_clue_is_advice_not_error() {
    let src = InMemorySource::new()
        .insert("scenes/s.yaml", "id: s\nname: 场景\ndescription:\n  surface: s.surface.md\n  shadow: s.shadow.md\n")
        .insert("s.surface.md", "a")
        .insert("s.shadow.md", "b")
        .insert("characters/wolf.yaml", "id: wolf\nname: 灰狼\n")
        .insert("characters/crow.yaml", "id: crow\nname: 乌鸦\n")
        .insert(
            "chapters/c1/chapter.yaml",
            "id: c1\ntitle: 首\nscenes: [s]\nstarting_scene: s\ncharacters:\n  - id: wolf\n    topics:\n      - id: whereabouts\n        label: 行踪\n        available: true\nrequired_judgments: [judge_wolf]\nnext:\n  default: c2\n",
        )
        .insert("chapters/c1/judgments.yaml", "- id: judge_wolf\n  target: wolf\n  result: r.md\n")
        .insert("chapters/c1/clues.yaml", "- id: shared\n  source: wolf.whereabouts\n  world: surface\n")
        .insert("chapters/c1/dialogues/wolf.md", "## whereabouts\n\n### [surface]\n\nx\n### [shadow]\n\ny\n")
        .insert("chapters/c1/r.md", "审判。")
        .insert(
            "chapters/c2/chapter.yaml",
            "id: c2\ntitle: 二\nscenes: [s]\nstarting_scene: s\ncharacters:\n  - id: crow\n    topics:\n      - id: secret\n        label: 秘密\n        available: false\n        unlock_after: shared\nrequired_judgments: [judge_crow]\nnext:\n  default: c3\n",
        )
        .insert("chapters/c2/judgments.yaml", "- id: judge_crow\n  target: crow\n  result: r.md\n")
        .insert("chapters/c2/dialogues/crow.md", "## secret\n\n### [surface]\n\nz\n### [shadow]\n\nw\n")
        .insert("chapters/c2/r.md", "审判。")
        .insert(
            "chapters/c3/chapter.yaml",
            "id: c3\ntitle: 终\nending: true\nscenes: [s]\nstarting_scene: s\ncharacters:\n  - id: crow\n    topics: []\nrequired_judgments: [judge_crow_final]\n",
        )
        .insert("chapters/c3/judgments.yaml", "- id: judge_crow_final\n  target: crow\n  result: r.md\n")
        .insert("chapters/c3/r.md", "终审。");
    let r = check_source(&src);
    assert!(!r.has_errors(), "errors: {:?}", err_msgs(&r));
    assert!(r.issues.iter().any(|i| i.message.contains("shared") && i.severity == Severity::Advice));
}

#[test]
fn check_reports_exact_cycle_message_once() {
    let src = valid_source().insert(
        "chapters/c2/chapter.yaml",
        "id: c2\ntitle: 终\nscenes: [s]\nstarting_scene: s\nrequired_judgments: [judge_wolf_final]\nnext:\n  default: c2\n",
    );
    let r = check_source(&src);
    let cycles: Vec<String> = err_msgs(&r).into_iter().filter(|m| m.contains("环")).collect();
    assert_eq!(cycles, vec!["章节图存在环（涉及节点 c1），next 指针不得构成循环".to_string()]);
}

#[test]
fn duplicate_and_reserved_ids_are_errors() {
    let src = valid_source()
        .insert("characters/dup.yaml", "id: s\nname: 同名\n")
        .insert("characters/bad.yaml", "id: __x\nname: 保留\n");
    let r = check_source(&src);
    let errs = err_msgs(&r);
    assert!(errs.iter().any(|m| m == "id 全局重复：s 出现 2 次"));
    assert!(errs.iter().any(|m| m.starts_with("角色 id \"__x\" 占用了引擎保留命名空间")));
}

#[test]
fn severity_labels_and_split() {
    assert_eq!(Severity::Error.label(), "error");
    assert_eq!(Severity::Warning.label(), "warning");
    assert_eq!(Severity::Advice.label(), "advice");
    assert!(Severity::Error.is_error());
    assert!(!Severity::Advice.is_error());
    let r = check_source(&valid_source().insert("chapters/c1/judgments.yaml", "[]\n"));
    assert_eq!(r.errors().len() + r.warnings().len(), r.issues.len());
}

fn trigger_source() -> InMemorySource {
    InMemorySource::new()
        .insert(
            "scenes/alley.yaml",
            "id: alley\nname: 后巷\nconnections: [tavern]\nexit_attempt:\n  text: leave.md\ndescription:\n  surface: alley.surface.md\n  shadow: alley.shadow.md\n",
        )
        .insert(
            "scenes/tavern.yaml",
            "id: tavern\nname: 酒馆\nconnections: [alley]\ndescription:\n  surface: tavern.surface.md\n  shadow: tavern.shadow.md\n",
        )
        .insert("alley.surface.md", "后巷表面。")
        .insert("alley.shadow.md", "后巷影子。")
        .insert("tavern.surface.md", "酒馆表面。")
        .insert("tavern.shadow.md", "酒馆影子。")
        .insert("leave.md", "路还在，往前走，回过神来又站在巷口。")
        .insert("characters/wolf.yaml", "id: wolf\nname: 灰狼\n")
        .insert(
            "chapters/c1/chapter.yaml",
            "id: c1\ntitle: 首章\nscenes: [alley, tavern]\nstarting_scene: alley\ncharacters:\n  - id: wolf\n    appears_in: [tavern]\n    topics:\n      - id: hello\n        label: 打招呼\n        available: true\n      - id: secret\n        label: 隐藏\n        available: false\n        unlock_after: voice_open\nnarrative:\n  - id: voice_open\n    label: 心声\n    text: voice_open.md\n  - id: fragment_after_judge\n    label: 记忆碎片\n    when: judge_wolf\n    text: fragment.md\nrequired_judgments: [judge_wolf]\nnext:\n  default: c2\n",
        )
        .insert("chapters/c1/judgments.yaml", "- id: judge_wolf\n  target: wolf\n  result: r.md\n")
        .insert(
            "chapters/c1/dialogues/wolf.md",
            "## hello\n\n### [surface]\n\n你好。\n\n## secret\n\n### [surface]\n\n秘密。\n",
        )
        .insert("chapters/c1/r.md", "审判剧情。")
        .insert("chapters/c1/voice_open.md", "（脑中响起一个声音。）")
        .insert("chapters/c1/fragment.md", "（一闪而过的画面。）")
        .insert(
            "chapters/c2/chapter.yaml",
            "id: c2\ntitle: 终章\nending: true\nscenes: [tavern]\nstarting_scene: tavern\ncharacters:\n  - id: wolf\n    topics: []\nrequired_judgments: [judge_wolf_final]\n",
        )
        .insert("chapters/c2/judgments.yaml", "- id: judge_wolf_final\n  target: wolf\n  result: r.md\n")
        .insert("chapters/c2/r.md", "终审。")
}

#[test]
fn dataset_is_valid() {
    let engine = load(&trigger_source());
    let errors: Vec<String> = check(&engine).errors().iter().map(|i| i.message.clone()).collect();
    assert!(errors.is_empty(), "trigger dataset has check errors: {errors:?}");
}

#[test]
fn engine_answers_queries_of_loaded_content() {
    let e = load(&trigger_source());
    assert_eq!(e.first_chapter_id(), Some("c1"));
    assert!(e.scene_has_exit_attempt("alley"));
    assert_eq!(e.scene_exit_attempt_text("alley"), Some("路还在，往前走，回过神来又站在巷口。"));
    assert_eq!(e.get_dialogue("c1", "wolf", "hello", World::Surface), Some("你好。"));
    assert_eq!(e.get_dialogue("c1", "wolf", "hello", World::Shadow), None);
    assert_eq!(e.get_reachable_scenes("alley"), vec!["tavern"]);
    assert_eq!(e.ending_chapter_ids(), vec!["c2"]);
    assert_eq!(e.get_scene_description("c1", "tavern", World::Shadow), Some("酒馆影子。"));
}

// ----- menu candidates and reconciliation -----


fn build() -> (ContentEngine, Save) {
    let src = InMemorySource::new()
        .insert("scenes/tavern.yaml", "id: tavern\nname: 酒馆\nconnections: [market]\ndescription:\n  surface: ts.surface.md\n  shadow: ts.shadow.md\n")
        .insert("scenes/market.yaml", "id: market\nname: 集市\ndescription:\n  surface: ms.surface.md\n  shadow: ms.shadow.md\n")
        .insert("ts.surface.md", "酒馆表面。")
        .insert("ts.shadow.md", "酒馆影子。")
        .insert("ms.surface.md", "集市表面。")
        .insert("ms.shadow.md", "集市影子。")
        .insert("characters/wolf.yaml", "id: wolf\nname: 灰狼\n")
        .insert("chapters/c1/chapter.yaml", "id: c1\ntitle: 首\nscenes: [tavern, market]\nstarting_scene: tavern\ncharacters:\n  - id: wolf\n    appears_in: [tavern]\n    topics:\n      - id: whereabouts\n        label: 行踪\n        available: true\n      - id: secret\n        label: 秘密\n        available: false\n        unlock_after:\n          all_of: [wolf_alibi]\nrequired_judgments: [judge_wolf]\nnext:\n  default: c2\n")
        .insert("chapters/c1/judgments.yaml", "- id: judge_wolf\n  target: wolf\n  result: r.md\n")
        .insert("chapters/c1/clues.yaml", "- id: wolf_alibi\n  source: wolf.whereabouts\n  world: surface\n")
        .insert("chapters/c1/dialogues/wolf.md", "## whereabouts\n\n### [surface]\n\n在场。\n\n### [shadow]\n\n不在。\n\n## secret\n\n### [surface]\n\n秘密。\n")
        .insert("chapters/c1/r.md", "审判。")
        .insert("chapters/c2/chapter.yaml", "id: c2\ntitle: 终\nending: true\nscenes: [tavern]\nstarting_scene: tavern\ncharacters:\n  - id: wolf\n    topics: []\nrequired_judgments: [judge_wolf_final]\n")
        .insert("chapters/c2/judgments.yaml", "- id: judge_wolf_final\n  target: wolf\n  result: r.md\n")
        .insert("chapters/c2/r.md", "终审。");
    let engine = load(&src);
    let save = Save::new_game("c1", "tavern", "t".into());
    (engine, save)
}

#[test]
fn ask_topics_filters_unlocked_and_world() {
    let (e, mut s) = build();
    let opts = ask_topic_options(&e, &s, "wolf");
    assert_eq!(opts.len(), 1);
    assert_eq!(opts[0].0, "whereabouts");
    s.clues_mut("c1").push("wolf_alibi".into());
    let opts2 = ask_topic_options(&e, &s, "wolf");
    assert_eq!(opts2.len(), 2);
}

#[test]
fn ask_topics_hide_topics_missing_in_world() {
    let (e, mut s) = build();
    s.clues_mut("c1").push("wolf_alibi".into());
    s.current_world = World::Shadow;
    let opts = ask_topic_options(&e, &s, "wolf");
    assert_eq!(opts, vec![("whereabouts".to_string(), "行踪".to_string())]);
}

#[test]
fn unjudged_lists_wolf() {
    let (e, s) = build();
    let opts = unjudged_character_options(&e, &s);
    assert_eq!(opts.len(), 1);
    assert_eq!(opts[0].0, "wolf");
}

#[test]
fn move_options_from_tavern() {
    let (e, s) = build();
    let opts = move_options(&e, &s);
    assert_eq!(opts.len(), 1);
    assert_eq!(opts[0].0, "market");
}

#[test]
fn reconcile_falls_back_current_chapter() {
    let (e, _) = build();
    let mut save = Save::new_game("c1", "tavern", "t".into());
    save.chapter_path = vec!["c1".into(), "deleted_chapter".into()];
    save.current_chapter = "deleted_chapter".into();
    let warns = reconcile_save(&mut save, &e);
    assert_eq!(save.current_chapter, "c1");
    assert_eq!(save.chapter_path, vec!["c1".to_string()]);
    assert!(warns.iter().any(|w| w.contains("当前章节已失效")));
}

#[test]
fn reconcile_resets_invalid_scene() {
    let (e, _) = build();
    let mut save = Save::new_game("c1", "tavern", "t".into());
    save.current_scene = "gone_scene".into();
    let warns = reconcile_save(&mut save, &e);
    assert_eq!(save.current_scene, "tavern");
    assert_eq!(save.current_world, World::Surface);
    assert!(warns.iter().any(|w| w.contains("当前场景已失效")));
}

#[test]
fn reconcile_drops_invalid_checkpoints() {
    let (e, _) = build();
    let mut save = Save::new_game("c1", "tavern", "t".into());
    save.checkpoints.push(Checkpoint {
        id: "bad".into(),
        chapter: "deleted".into(),
        scene: "x".into(),
        world: World::Surface,
        kind: CheckpointKind::ChapterStart,
        timestamp: "t".into(),
        state: CkptState::default(),
    });
    save.checkpoints.push(Checkpoint {
        id: "good".into(),
        chapter: "c1".into(),
        scene: "tavern".into(),
        world: World::Surface,
        kind: CheckpointKind::ChapterStart,
        timestamp: "t".into(),
        state: CkptState::default(),
    });
    let warns = reconcile_save(&mut save, &e);
    assert_eq!(save.checkpoints.len(), 1);
    assert_eq!(save.checkpoints[0].id, "good");
    assert!(warns.iter().any(|w| w.contains("检查点")));
}

#[test]
fn reconcile_keeps_discovered_intact() {
    let (e, _) = build();
    let mut save = Save::new_game("c1", "tavern", "t".into());
    save.discovered.add_ending("c_truth");
    save.discovered.add_topic("c1", "wolf", "whereabouts");
    reconcile_save(&mut save, &e);
    assert!(save.discovered.endings.contains(&"c_truth".to_string()));
    assert!(save.discovered.topics.contains_key("c1"));
}

#[test]
fn reconcile_with_nothing_left_warns_twice() {
    let (e, _) = build();
    let mut save = Save::new_game("gone", "tavern", "t".into());
    let warns = reconcile_save(&mut save, &e);
    assert_eq!(
        warns,
        vec![
            "部分已访问的章节因内容更新而失效，已忽略。".to_string(),
            "存档中没有可达章节，内容可能已大幅更新。".to_string(),
            "当前章节已失效，已回退到最近的有效章节。".to_string(),
        ]
    );
    assert_eq!(save.current_chapter, "gone");
    assert!(save.chapter_path.is_empty());
}

// ----- completion over a loaded engine -----


#[test]
fn completion_lists_engine_candidates() {
    let (e, s) = build();
    let sg = compute_suggestions("/a", &e, &s).expect("command completion");
    assert_eq!(sg.kind, SuggestKind::Command);
    assert!(sg.items.iter().any(|i| i.display == "/ask"));
    assert!(!sg.items.iter().any(|i| i.display == "/move"));
    let sg = compute_suggestions("/ask ", &e, &s).expect("characters");
    assert_eq!(sg.kind, SuggestKind::Character);
    assert!(sg.items.iter().any(|i| i.insert == "wolf "));
    let sg = compute_suggestions("/ask wolf ", &e, &s).expect("topics");
    assert_eq!(sg.kind, SuggestKind::Topic);
    assert_eq!(sg.items.len(), 1);
    assert_eq!(sg.items[0].insert, "whereabouts ");
    let sg = compute_suggestions("/move ", &e, &s).expect("scenes");
    assert_eq!(sg.kind, SuggestKind::Scene);
    assert!(sg.items.iter().any(|i| i.insert == "market "));
    let sg = compute_suggestions("/judge ", &e, &s).expect("judge");
    assert!(sg.items.iter().any(|i| i.insert == "wolf "));
    assert!(compute_suggestions("", &e, &s).is_none());
    assert!(compute_suggestions("xyz", &e, &s).is_none());
}

// ----- game sessions -----

fn session_source() -> InMemorySource {
    InMemorySource::new()
        .insert("scenes/tavern.yaml", "id: tavern\nname: 酒馆\nconnections: [market]\ndescription:\n  surface: ts.surface.md\n  shadow: ts.shadow.md\n")
        .insert("scenes/market.yaml", "id: market\nname: 集市\ndescription:\n  surface: ms.surface.md\n  shadow: ms.shadow.md\n")
        .insert("ts.surface.md", "酒馆表面。").insert("ts.shadow.md", "酒馆影子。")
        .insert("ms.surface.md", "集市表面。").insert("ms.shadow.md", "集市影子。")
        .insert("characters/wolf.yaml", "id: wolf\nname: 灰狼\n")
        .insert("characters/crow.yaml", "id: crow\nname: 乌鸦\n")
        .insert("chapters/c1/chapter.yaml", "id: c1\ntitle: 首\nintro: intro.md\nscenes: [tavern, market]\nstarting_scene: tavern\ncharacters:\n  - id: wolf\n    appears_in: [tavern]\n    topics:\n      - id: whereabouts\n        label: 行踪\n        available: true\n      - id: the_knife\n        label: 刀\n        available: true\n      - id: secret\n        label: 秘密\n        available: false\n        unlock_after:\n          all_of: [wolf_alibi]\n  - id: crow\n    appears_in: [tavern]\n    topics: []\nrequired_judgments: [judge_wolf]\nnext:\n  default: c_other\n  branches:\n    - when: judge_wolf\n      target: c_truth\n")
        .insert("chapters/c1/intro.md", "首章开场。")
        .insert("chapters/c1/judgments.yaml", "- id: judge_wolf\n  target: wolf\n  result: r.md\n- id: judge_crow\n  target: crow\n  result: r.md\n")
        .insert("chapters/c1/clues.yaml", "- id: wolf_alibi\n  source: wolf.whereabouts\n  world: surface\n")
        .insert("chapters/c1/dialogues/wolf.md", "## whereabouts\n\n### [surface]\n\n在场。\n\n### [shadow]\n\n不在。\n\n## the_knife\n\n### [surface]\n\n刀。\n\n## secret\n\n### [surface]\n\n秘密。\n")
        .insert("chapters/c1/r.md", "灰狼受审。")
        .insert("chapters/c_truth/chapter.yaml", "id: c_truth\ntitle: 真相\nending: true\nscenes: [tavern]\nstarting_scene: tavern\ncharacters:\n  - id: wolf\n    topics: []\nrequired_judgments: [judge_wolf_truth]\noutro: outro.md\n")
        .insert("chapters/c_truth/outro.md", "真相结局。")
        .insert("chapters/c_truth/judgments.yaml", "- id: judge_wolf_truth\n  target: wolf\n  result: r.md\n")
        .insert("chapters/c_truth/r.md", "终审。")
        .insert("chapters/c_other/chapter.yaml", "id: c_other\ntitle: 其他\nending: true\nscenes: [tavern]\nstarting_scene: tavern\ncharacters:\n  - id: wolf\n    topics: []\nrequired_judgments: [judge_wolf_other]\n")
        .insert("chapters/c_other/judgments.yaml", "- id: judge_wolf_other\n  target: wolf\n  result: r.md\n")
        .insert("chapters/c_other/r.md", "其他审判。")
}

fn build_session() -> Session<MemoryStore> {
    Session::new(load(&session_source()), MemoryStore::new())
}

#[test]
fn new_game_shows_intro_then_exploring() {
    let mut s = build_session();
    match s.start_new_game() {
        Outcome::ChapterIntro { text } => assert!(text.contains("首章开场")),
        o => panic!("expected intro, got {:?}", o),
    }
    assert_eq!(*s.state(), SessionState::ShowingIntro);
    match s.handle(Input::Ack) {
        Outcome::Message(message) => assert!(message.lines.join("").contains("酒馆")),
        o => panic!("expected show, got {:?}", o),
    }
    assert_eq!(*s.state(), SessionState::Exploring);
    assert!(s.save().checkpoints.iter().any(|c| c.kind == CheckpointKind::ChapterStart));
}

#[test]
fn ask_direct_collects_clue_and_records_snapshot() {
    let mut s = build_session();
    s.start_new_game();
    s.handle(Input::Ack);
    match s.handle(Input::Text("ask wolf whereabouts".into())) {
        Outcome::Dialogue { body, notes, .. } => {
            assert!(body.contains("在场"));
            assert!(!notes.is_empty());
        }
        o => panic!("expected dialogue, got {:?}", o),
    }
    assert!(s.save().has_clue("c1", "wolf_alibi"));
    assert_eq!(s.save().viewed_dialogues.get("c1").unwrap().len(), 1);
    assert!(s.save().discovered.topics.get("c1").unwrap().contains(&"wolf.whereabouts".to_string()));
    assert_eq!(s.store().read_snapshot("snapshots/c1/wolf.whereabouts.surface.md").unwrap(), "在场。");
}

#[test]
fn ask_unknown_target_not_in_scene() {
    let mut s = build_session();
    s.start_new_game();
    s.handle(Input::Ack);
    match s.handle(Input::Text("ask ghost whereabouts".into())) {
        Outcome::Message(message) => assert_eq!(message.lines[0], "这里没有这个角色。"),
        o => panic!("got {:?}", o),
    }
}

#[test]
fn ask_locked_topic_hint() {
    let mut s = build_session();
    s.start_new_game();
    s.handle(Input::Ack);
    match s.handle(Input::Text("ask wolf secret".into())) {
        Outcome::Message(message) => assert_eq!(message.lines[0], "你还没有足够线索。"),
        o => panic!("got {:?}", o),
    }
}

#[test]
fn gaze_toggles_world_and_description() {
    let mut s = build_session();
    s.start_new_game();
    s.handle(Input::Ack);
    match s.handle(Input::Text("gaze".into())) {
        Outcome::Message(message) => {
            let joined = message.lines.join("\n");
            assert!(joined.contains("左眼·影子"));
            assert!(joined.contains("酒馆影子"));
        }
        o => panic!("got {:?}", o),
    }
    assert_eq!(s.save().current_world, World::Shadow);
}

#[test]
fn move_blocked_and_allowed() {
    let mut s = build_session();
    s.start_new_game();
    s.handle(Input::Ack);
    match s.handle(Input::Text("move cellar".into())) {
        Outcome::Message(message) => assert_eq!(message.lines[0], "你现在无法前往那里。"),
        o => panic!("got {:?}", o),
    }
    match s.handle(Input::Text("move market".into())) {
        Outcome::Message(message) => assert!(message.lines[0].contains("集市")),
        o => panic!("got {:?}", o),
    }
    assert_eq!(s.save().current_scene, "market");
}

#[test]
fn judge_creates_checkpoint_and_advances() {
    let mut s = build_session();
    s.start_new_game();
    s.handle(Input::Ack);
    s.handle(Input::Text("judge wolf".into()));
    assert_eq!(s.save().current_chapter, "c_truth");
    assert!(s.save().checkpoints.iter().any(|c| c.kind == CheckpointKind::BeforeJudgment));
}

#[test]
fn judge_unknown_target_hint() {
    let mut s = build_session();
    s.start_new_game();
    s.handle(Input::Ack);
    match s.handle(Input::Text("judge ghost".into())) {
        Outcome::Message(message) => assert_eq!(message.lines[0], "现在还无法审判他。"),
        o => panic!("got {:?}", o),
    }
}

#[test]
fn map_rollback_to_chapter_start() {
    let mut s = build_session();
    s.start_new_game();
    s.handle(Input::Ack);
    s.handle(Input::Text("ask wolf whereabouts".into()));
    s.handle(Input::Text("gaze".into()));
    match s.handle(Input::Text("map".into())) {
        Outcome::MenuRequested { options, .. } => assert!(!options.is_empty()),
        o => panic!("got {:?}", o),
    }
    match s.handle(Input::Select(Selection::Index(0))) {
        Outcome::ConfirmationRequested { .. } => {}
        o => panic!("got {:?}", o),
    }
    match s.handle(Input::Confirm(true)) {
        Outcome::ChapterIntro { .. } => {}
        o => panic!("expected intro re-show, got {:?}", o),
    }
    match s.handle(Input::Ack) {
        Outcome::Message(_) => {}
        o => panic!("got {:?}", o),
    }
    assert!(!s.save().has_clue("c1", "wolf_alibi"));
    assert_eq!(s.save().current_world, World::Surface);
    assert!(s.save().discovered.topics.contains_key("c1"));
}

#[test]
fn help_overview_and_unknown() {
    let mut s = build_session();
    s.start_new_game();
    s.handle(Input::Ack);
    match s.handle(Input::Text("help".into())) {
        Outcome::Message(message) => assert!(message.lines.join("\n").contains("ask")),
        o => panic!("got {:?}", o),
    }
    match s.handle(Input::Text("help fly".into())) {
        Outcome::Message(message) => assert!(message.lines[0].contains("未知指令")),
        o => panic!("got {:?}", o),
    }
}

#[test]
fn unknown_command_hint() {
    let mut s = build_session();
    s.start_new_game();
    s.handle(Input::Ack);
    match s.handle(Input::Text("fly".into())) {
        Outcome::Message(message) => assert!(message.lines[0].contains("未知指令")),
        o => panic!("got {:?}", o),
    }
}

#[test]
fn quit_persists_and_returns() {
    let mut s = build_session();
    s.start_new_game();
    s.handle(Input::Ack);
    match s.handle(Input::Text("quit".into())) {
        Outcome::QuitRequested => {}
        o => panic!("got {:?}", o),
    }
    assert!(s.store().has_save());
}

#[test]
fn hint_gaze_after_three_surface_asks() {
    let mut s = build_session();
    s.start_new_game();
    s.handle(Input::Ack);
    let mut saw_gaze_hint = false;
    for _ in 0..3 {
        match s.handle(Input::Text("ask wolf whereabouts".into())) {
            Outcome::Dialogue { notes, .. } => {
                if notes.iter().any(|n| n.contains("gaze")) {
                    saw_gaze_hint = true;
                }
            }
            o => panic!("got {:?}", o),
        }
    }
    assert!(saw_gaze_hint);
}

#[test]
fn hint_judge_after_collecting_clue() {
    let mut s = build_session();
    s.start_new_game();
    s.handle(Input::Ack);
    match s.handle(Input::Text("ask wolf whereabouts".into())) {
        Outcome::Dialogue { notes, .. } => assert!(notes.iter().any(|n| n.contains("judge"))),
        o => panic!("got {:?}", o),
    }
}

#[test]
fn hint_map_after_first_judgment() {
    let mut s = build_session();
    s.start_new_game();
    s.handle(Input::Ack);
    s.handle(Input::Text("gaze".into()));
    match s.handle(Input::Text("judge crow".into())) {
        Outcome::Message(message) => assert!(message.lines.iter().any(|x| x.contains("map"))),
        o => panic!("got {:?}", o),
    }
}

#[test]
fn hints_only_in_first_chapter() {
    let mut s = build_session();
    s.start_new_game();
    s.handle(Input::Ack);
    s.handle(Input::Text("judge wolf".into()));
    assert_ne!(s.save().current_chapter, "c1");
}

#[test]
fn ending_judgment_with_outro_keeps_result_text() {
    let mut s = build_session();
    s.start_new_game();
    s.handle(Input::Ack);
    s.handle(Input::Text("judge wolf".into()));
    assert_eq!(s.save().current_chapter, "c_truth");
    match s.handle(Input::Text("judge wolf".into())) {
        Outcome::ChapterOutro { text } => {
            assert!(text.contains("终审。"));
            assert!(text.contains("真相结局。"));
        }
        o => panic!("expected outro, got {:?}", o),
    }
}

#[test]
fn title_shows_menu_no_save() {
    let mut s = build_session();
    match s.handle(Input::Text("".into())) {
        Outcome::MenuRequested { prompt, options, .. } => {
            assert!(prompt.contains("Darkbluff"));
            assert!(!options.iter().any(|o| o.id == "continue"));
            assert!(options.iter().any(|o| o.id == "new_game"));
            assert!(options.iter().any(|o| o.id == "quit"));
        }
        o => panic!("expected menu, got {:?}", o),
    }
}

#[test]
fn title_new_game_starts_chapter() {
    let mut s = build_session();
    s.handle(Input::Text("".into()));
    match s.handle(Input::Select(Selection::Index(0))) {
        Outcome::ChapterIntro { text } => assert!(text.contains("首章开场")),
        Outcome::Message(_) => {}
        o => panic!("expected intro or show, got {:?}", o),
    }
}

#[test]
fn menu_selection_can_use_option_id() {
    let mut s = build_session();
    s.handle(Input::Text("".into()));
    match s.handle(Input::Select(Selection::Id("new_game".into()))) {
        Outcome::ChapterIntro { text } => assert!(text.contains("首章开场")),
        Outcome::Message(_) => {}
        o => panic!("expected intro or show, got {:?}", o),
    }
}

#[test]
fn title_quit_exits() {
    let mut s = build_session();
    s.handle(Input::Text("".into()));
    match s.handle(Input::Select(Selection::Index(1))) {
        Outcome::QuitRequested => {}
        o => panic!("expected quit, got {:?}", o),
    }
}

#[test]
fn title_offers_continue_and_confirms_new_game_over_a_save() {
    let mut s = build_session();
    s.start_new_game();
    s.handle(Input::Ack);
    s.handle(Input::Text("ask wolf whereabouts".into()));
    let store = s.store;
    let mut s = Session::new(load(&session_source()), store);
    match s.handle(Input::Text("".into())) {
        Outcome::MenuRequested { options, prompt, .. } => {
            assert_eq!(options.iter().map(|o| o.id.as_str()).collect::<Vec<_>>(), vec!["new_game", "continue", "quit"]);
            assert_eq!(prompt, "Darkbluff — 已发现结局 0/2");
        }
        o => panic!("got {:?}", o),
    }
    match s.handle(Input::Select(Selection::Id("new_game".into()))) {
        Outcome::ConfirmationRequested { .. } => {}
        o => panic!("got {:?}", o),
    }
    match s.handle(Input::Confirm(false)) {
        Outcome::MenuRequested { .. } => {}
        o => panic!("got {:?}", o),
    }
    match s.handle(Input::Select(Selection::Id("continue".into()))) {
        Outcome::Message(m) => assert!(m.lines.join("").contains("酒馆")),
        o => panic!("got {:?}", o),
    }
    assert!(s.save().has_clue("c1", "wolf_alibi"));
    assert_eq!(*s.state(), SessionState::Exploring);
}

#[test]
fn menus_cancel_back_to_exploring() {
    let mut s = build_session();
    s.start_new_game();
    s.handle(Input::Ack);
    match s.handle(Input::Text("ask".into())) {
        Outcome::MenuRequested { options, .. } => {
            assert_eq!(options.iter().map(|o| o.id.as_str()).collect::<Vec<_>>(), vec!["wolf", "crow"])
        }
        o => panic!("got {:?}", o),
    }
    assert_eq!(*s.state(), SessionState::ChoosingAskCharacter);
    assert!(matches!(s.handle(Input::Ack), Outcome::Ignored));
    match s.handle(Input::Cancel) {
        Outcome::Message(m) => assert_eq!(m.lines, vec!["已取消。".to_string()]),
        o => panic!("got {:?}", o),
    }
    assert_eq!(*s.state(), SessionState::Exploring);
    match s.handle(Input::Text("ask wolf".into())) {
        Outcome::MenuRequested { options, .. } => {
            assert_eq!(options.iter().map(|o| o.id.as_str()).collect::<Vec<_>>(), vec!["whereabouts", "the_knife"])
        }
        o => panic!("got {:?}", o),
    }
    match s.handle(Input::Select(Selection::Index(1))) {
        Outcome::Dialogue { body, header, .. } => {
            assert_eq!(body, "刀。");
            assert_eq!(header, "灰狼 - 刀 [表面]");
        }
        o => panic!("got {:?}", o),
    }
    assert_eq!(*s.state(), SessionState::Exploring);
}

#[test]
fn notes_list_recorded_dialogues_and_judgments() {
    let mut s = build_session();
    s.start_new_game();
    s.handle(Input::Ack);
    s.handle(Input::Text("ask wolf whereabouts".into()));
    s.handle(Input::Text("judge crow".into()));
    match s.handle(Input::Text("note".into())) {
        Outcome::Notes(v) => {
            assert_eq!(v.dialogues.len(), 1);
            assert_eq!(v.dialogues[0].character_name, "灰狼");
            assert_eq!(v.dialogues[0].topic_label, "行踪");
            assert_eq!(v.dialogues[0].text, "在场。");
            assert_eq!(v.narratives.len(), 1);
            assert_eq!(v.narratives[0].text, "首章开场。");
            assert_eq!(v.judgments.len(), 1);
            assert_eq!(v.judgments[0].target_name, "乌鸦");
            assert_eq!(v.judgments[0].text, "灰狼受审。");
        }
        o => panic!("got {:?}", o),
    }
}

#[test]
fn extra_arguments_and_quit_from_any_state() {
    let mut s = build_session();
    s.start_new_game();
    s.handle(Input::Ack);
    match s.handle(Input::Text("gaze now".into())) {
        Outcome::Message(m) => assert_eq!(m.lines, vec!["该指令不需要参数。".to_string()]),
        o => panic!("got {:?}", o),
    }
    s.handle(Input::Text("map".into()));
    assert!(matches!(s.handle(Input::ForceQuit), Outcome::QuitRequested));
}

fn trigger_session() -> Session<MemoryStore> {
    Session::new(load(&trigger_source()), MemoryStore::new())
}

#[test]
fn narrative_drains_on_chapter_enter() {
    let mut s = trigger_session();
    assert!(matches!(s.start_new_game(), Outcome::Narrative { .. }));
    assert_eq!(*s.state(), SessionState::ShowingNarrative);
    assert!(s.save().discovered.triggered("voice_open"));
    assert!(s.save().viewed_narrative.get("c1").unwrap().iter().any(|n| n.id == "voice_open"));
    assert!(matches!(s.handle(Input::Ack), Outcome::Message(_)));
    assert_eq!(*s.state(), SessionState::Exploring);
    assert_eq!(s.save().current_scene, "alley");
}

#[test]
fn fragment_drains_after_judgment_then_advances() {
    let mut s = trigger_session();
    s.start_new_game();
    s.handle(Input::Ack);
    s.handle(Input::Text("move tavern".into()));
    assert_eq!(s.save().current_scene, "tavern");
    s.handle(Input::Text("judge wolf".into()));
    assert_eq!(*s.state(), SessionState::ShowingNarrative);
    assert_eq!(s.save().current_chapter, "c1");
    assert!(s.save().discovered.triggered("fragment_after_judge"));
    let _outcome = s.handle(Input::Ack);
    assert_eq!(s.save().current_chapter, "c2");
}

#[test]
fn leave_attempt_first_then_repeat() {
    let mut s = trigger_session();
    s.start_new_game();
    s.handle(Input::Ack);
    assert!(matches!(s.handle(Input::Text("move __leave".into())), Outcome::Narrative { .. }));
    assert_eq!(*s.state(), SessionState::ShowingNarrative);
    assert_eq!(s.save().current_scene, "alley");
    s.handle(Input::Ack);
    assert!(matches!(s.handle(Input::Text("move __leave".into())), Outcome::Message(_)));
    assert_eq!(*s.state(), SessionState::Exploring);
    assert_eq!(s.save().current_scene, "alley");
    assert!(s.save().discovered.triggered("leave_attempt"));
}

#[test]
fn narrative_id_unlocks_topic() {
    let mut s = trigger_session();
    s.start_new_game();
    s.handle(Input::Ack);
    s.handle(Input::Text("move tavern".into()));
    assert!(matches!(
        s.handle(Input::Text("ask wolf secret".into())),
        Outcome::Dialogue { body, .. } if body.contains("秘密")
    ));
}

#[test]
fn reload_recovers_interrupted_advance() {
    let mut s = trigger_session();
    s.start_new_game();
    s.handle(Input::Ack);
    s.handle(Input::Text("move tavern".into()));
    s.handle(Input::Text("judge wolf".into()));
    assert_eq!(*s.state(), SessionState::ShowingNarrative);
    assert_eq!(s.save().current_chapter, "c1");
    s.handle(Input::Quit);
    let store = s.store;
    let save = match resolve_load(store.read_main(), store.read_backup()) {
        LoadResult::Save(save, _) => save,
        other => panic!("expected save, got {other:?}"),
    };
    let mut s = Session::new(load(&trigger_source()), store);
    s.continue_with(save);
    assert_eq!(s.save().current_chapter, "c2");
}

// ----- full playthrough of the tavern case -----

fn tavern_case_source() -> InMemorySource {
    InMemorySource::new()
        .insert("scenes/tavern.yaml", "id: tavern\nname: 酒馆\ndescription:\n  surface: tavern.surface.md\n  shadow: tavern.shadow.md\n")
        .insert("tavern.surface.md", "昏暗的酒馆里，炉火噼啪作响。")
        .insert("tavern.shadow.md", "酒馆的影子里，墙上爬满了抓痕。")
        .insert("characters/wolf.yaml", "id: wolf\nname: 灰狼\n")
        .insert("characters/crow.yaml", "id: crow\nname: 乌鸦\n")
        .insert(
            "chapters/the_missing_butcher/chapter.yaml",
            "id: the_missing_butcher\ntitle: 失踪的屠夫\norder: 1\nintro: intro.md\nscenes: [tavern]\nstarting_scene: tavern\ncharacters:\n  - id: wolf\n    appears_in: [tavern]\n    topics:\n      - id: whereabouts\n        label: 那晚的行踪\n        available: true\n      - id: secret\n        label: 藏着的事\n        available: false\n        unlock_after:\n          all_of: [wolf_alibi, crow_testimony]\n  - id: crow\n    appears_in: [tavern]\n    topics:\n      - id: victim\n        label: 屠夫\n        available: true\nrequired_judgments: [judge_wolf]\nnext:\n  default: tavern_deceit\n  branches:\n    - when:\n        all_of: [judge_crow, judge_wolf]\n      target: tavern_truth\n    - when:\n        any_of: [judge_wolf]\n      target: tavern_deceit\n",
        )
        .insert("chapters/the_missing_butcher/intro.md", "屠夫失踪的第三天，你推开了酒馆的门。")
        .insert(
            "chapters/the_missing_butcher/judgments.yaml",
            "- id: judge_wolf\n  target: wolf\n  result: judge_wolf.md\n- id: judge_crow\n  target: crow\n  result: judge_crow.md\n",
        )
        .insert("chapters/the_missing_butcher/judge_wolf.md", "灰狼低下了头。")
        .insert("chapters/the_missing_butcher/judge_crow.md", "乌鸦扑棱着翅膀。")
        .insert(
            "chapters/the_missing_butcher/clues.yaml",
            "- id: wolf_alibi\n  source: wolf.whereabouts\n  world: surface\n- id: wolf_alibi_shadow\n  source: wolf.whereabouts\n  world: shadow\n- id: crow_testimony\n  source: crow.victim\n  world: surface\n",
        )
        .insert(
            "chapters/the_missing_butcher/dialogues/wolf.md",
            "## whereabouts\n\n### [surface]\n\n那晚我一直在磨坊。\n\n### [shadow]\n\n磨坊的门是锁着的。\n\n## secret\n\n### [surface]\n\n我回不去了。\n",
        )
        .insert(
            "chapters/the_missing_butcher/dialogues/crow.md",
            "## victim\n\n### [surface]\n\n屠夫欠了很多人的钱。\n\n### [shadow]\n\n屠夫的刀不见了。\n",
        )
        .insert(
            "chapters/tavern_truth/chapter.yaml",
            "id: tavern_truth\ntitle: 真相\norder: 2\nending: true\noutro: outro.md\nscenes: [tavern]\nstarting_scene: tavern\ncharacters:\n  - id: wolf\n    appears_in: [tavern]\n    topics: []\nrequired_judgments: [judge_wolf_truth]\n",
        )
        .insert("chapters/tavern_truth/outro.md", "炉火熄灭，真相大白。")
        .insert("chapters/tavern_truth/judgments.yaml", "- id: judge_wolf_truth\n  target: wolf\n  result: r.md\n")
        .insert("chapters/tavern_truth/r.md", "灰狼说出了一切。")
        .insert(
            "chapters/tavern_deceit/chapter.yaml",
            "id: tavern_deceit\ntitle: 谎言\norder: 3\nending: true\nscenes: [tavern]\nstarting_scene: tavern\ncharacters:\n  - id: wolf\n    appears_in: [tavern]\n    topics: []\nrequired_judgments: [judge_wolf_deceit]\n",
        )
        .insert("chapters/tavern_deceit/judgments.yaml", "- id: judge_wolf_deceit\n  target: wolf\n  result: r.md\n")
        .insert("chapters/tavern_deceit/r.md", "灰狼笑了。")
}

fn new_session() -> Session<MemoryStore> {
    Session::new(load(&tavern_case_source()), MemoryStore::new())
}

#[test]
fn fixture_passes_check() {
    let engine = load(&tavern_case_source());
    let report = check(&engine);
    let errors: Vec<String> = report.errors().iter().map(|i| i.message.clone()).collect();
    assert!(errors.is_empty(), "fixture has check errors: {errors:?}");
}

#[test]
fn new_game_intro_then_exploring() {
    let mut s = new_session();
    assert!(matches!(s.start_new_game(), Outcome::ChapterIntro { .. }));
    assert_eq!(*s.state(), SessionState::ShowingIntro);
    match s.handle(Input::Ack) {
        Outcome::Message(message) => assert!(message.lines.join("").contains("酒馆")),
        o => panic!("expected show, got {:?}", o),
    }
    assert_eq!(*s.state(), SessionState::Exploring);
}

#[test]
fn ask_collects_clue_and_unlocks_secret() {
    let mut s = new_session();
    s.start_new_game();
    s.handle(Input::Ack);
    match s.handle(Input::Text("ask wolf secret".into())) {
        Outcome::Message(message) => assert_eq!(message.lines[0], "你还没有足够线索。"),
        o => panic!("got {:?}", o),
    }
    s.handle(Input::Text("ask wolf whereabouts".into()));
    assert!(s.save().has_clue("the_missing_butcher", "wolf_alibi"));
    s.handle(Input::Text("ask crow victim".into()));
    assert!(s.save().has_clue("the_missing_butcher", "crow_testimony"));
    match s.handle(Input::Text("ask wolf secret".into())) {
        Outcome::Dialogue { body, .. } => assert!(body.contains("回不去了")),
        o => panic!("expected dialogue, got {:?}", o),
    }
}

#[test]
fn gaze_switches_world_and_collects_shadow_clue() {
    let mut s = new_session();
    s.start_new_game();
    s.handle(Input::Ack);
    s.handle(Input::Text("gaze".into()));
    s.handle(Input::Text("ask wolf whereabouts".into()));
    assert!(s.save().has_clue("the_missing_butcher", "wolf_alibi_shadow"));
}

#[test]
fn judging_crow_then_wolf_reaches_truth_ending() {
    let mut s = new_session();
    s.start_new_game();
    s.handle(Input::Ack);
    s.handle(Input::Text("judge crow".into()));
    assert_eq!(s.save().current_chapter, "the_missing_butcher");
    assert!(s.save().judged("the_missing_butcher", "judge_crow"));
    s.handle(Input::Text("judge wolf".into()));
    assert_eq!(s.save().current_chapter, "tavern_truth");
    assert!(s.save().discovered.chapters.contains(&"tavern_truth".to_string()));
    s.handle(Input::Text("judge wolf".into()));
    assert_eq!(*s.state(), SessionState::ShowingOutro);
    assert!(s.save().discovered.endings.contains(&"tavern_truth".to_string()));
    match s.handle(Input::Ack) {
        Outcome::EndingReached { found, total, .. } => {
            assert_eq!(found, 1);
            assert_eq!(total, 2);
        }
        o => panic!("expected ending, got {:?}", o),
    }
    assert_eq!(*s.state(), SessionState::Ending);
}

#[test]
fn judging_wolf_only_reaches_deceit_ending() {
    let mut s = new_session();
    s.start_new_game();
    s.handle(Input::Ack);
    s.handle(Input::Text("judge wolf".into()));
    assert_eq!(s.save().current_chapter, "tavern_deceit");
}

#[test]
fn map_rollback_before_judgment_undoes_judgment() {
    let mut s = new_session();
    s.start_new_game();
    s.handle(Input::Ack);
    s.handle(Input::Text("judge crow".into()));
    assert!(s.save().judged("the_missing_butcher", "judge_crow"));
    assert_eq!(s.save().current_chapter, "the_missing_butcher");
    match s.handle(Input::Text("map".into())) {
        Outcome::MenuRequested { options, .. } => assert_eq!(options.len(), 2),
        o => panic!("got {:?}", o),
    }
    match s.handle(Input::Select(Selection::Index(1))) {
        Outcome::ConfirmationRequested { .. } => {}
        o => panic!("got {:?}", o),
    }
    match s.handle(Input::Confirm(true)) {
        Outcome::Message(_) => {}
        o => panic!("got {:?}", o),
    }
    assert!(!s.save().judged("the_missing_butcher", "judge_crow"));
    assert_eq!(s.save().checkpoints.len(), 1);
    assert!(s.save().discovered.chapters.contains(&"the_missing_butcher".to_string()));
}

#[test]
fn persistence_survives_reload() {
    let mut s = new_session();
    s.start_new_game();
    s.handle(Input::Ack);
    s.handle(Input::Text("ask wolf whereabouts".into()));
    s.handle(Input::Text("quit".into()));
    let store = s.store;
    match resolve_load(store.read_main(), store.read_backup()) {
        LoadResult::Save(loaded, _) => {
            assert!(loaded.has_clue("the_missing_butcher", "wolf_alibi"));
            assert_eq!(loaded.current_chapter, "the_missing_butcher");
        }
        other => panic!("expected save, got {:?}", other),
    }
}

#[test]
fn load_none_when_empty() {
    let s = MemoryStore::new();
    assert!(matches!(resolve_load(s.read_main(), s.read_backup()), LoadResult::NoSave));
}

#[test]
fn save_then_load_roundtrip() {
    let mut s = MemoryStore::new();
    let mut save = Save::new_game("c1", "tavern", "t".into());
    save.clues_mut("c1").push("x".into());
    s.write_save(&save).unwrap();
    match resolve_load(s.read_main(), s.read_backup()) {
        LoadResult::Save(loaded, _) => {
            assert_eq!(loaded.current_chapter, "c1");
            assert!(loaded.has_clue("c1", "x"));
        }
        _ => panic!("expected save"),
    }
}

// ----- completion palette on an exploring session -----

fn exploring_session() -> Session<MemoryStore> {
    let src = InMemorySource::new()
        .insert("scenes/tavern.yaml", "id: tavern\nname: 酒馆\nconnections: [market]\ndescription:\n  surface: t.md\n  shadow: t.md\n")
        .insert("scenes/market.yaml", "id: market\nname: 集市\ndescription:\n  surface: m.md\n  shadow: m.md\n")
        .insert("t.md", "酒馆。").insert("m.md", "集市。")
        .insert("characters/wolf.yaml", "id: wolf\nname: 灰狼\n")
        .insert("chapters/c1/chapter.yaml", "id: c1\ntitle: 首\nintro: i.md\nscenes: [tavern, market]\nstarting_scene: tavern\ncharacters:\n  - id: wolf\n    appears_in: [tavern]\n    topics:\n      - id: whereabouts\n        label: 行踪\n        available: true\n      - id: secret\n        label: 秘密\n        available: false\n        unlock_after:\n          all_of: [wolf_alibi]\nrequired_judgments: [judge_wolf]\nnext:\n  default: c2\n")
        .insert("chapters/c1/i.md", "开场。")
        .insert("chapters/c1/dialogues/wolf.md", "## whereabouts\n\n### [surface]\n\n在场。\n\n### [shadow]\n\n不在。\n")
        .insert("chapters/c1/judgments.yaml", "- id: judge_wolf\n  target: wolf\n  result: r.md\n")
        .insert("chapters/c1/r.md", "审判。")
        .insert("chapters/c2/chapter.yaml", "id: c2\ntitle: 终\nending: true\nscenes: [tavern]\nstarting_scene: tavern\ncharacters:\n  - id: wolf\n    topics: []\nrequired_judgments: [judge_wolf_end]\n")
        .insert("chapters/c2/judgments.yaml", "- id: judge_wolf_end\n  target: wolf\n  result: r2.md\n")
        .insert("chapters/c2/r2.md", "终审。");
    let mut s = Session::new(load(&src), MemoryStore::new());
    s.handle(Input::Text(String::new()));
    s.handle(Input::Select(Selection::Index(0)));
    s.handle(Input::Ack);
    s
}

#[test]
fn suggest_filters_commands_by_prefix() {
    let s = exploring_session();
    let sg = compute_suggestions("/a", s.engine(), s.save()).expect("命令补全");
    assert_eq!(sg.kind, SuggestKind::Command);
    assert!(sg.items.iter().any(|i| i.display == "/ask"));
    assert!(!sg.items.iter().any(|i| i.display == "/move"));
}

#[test]
fn suggest_ask_lists_characters_in_scene() {
    let s = exploring_session();
    let sg = compute_suggestions("/ask ", s.engine(), s.save()).expect("角色补全");
    assert_eq!(sg.kind, SuggestKind::Character);
    assert!(sg.items.iter().any(|i| i.insert == "wolf "));
}

#[test]
fn suggest_ask_topic_excludes_locked() {
    let s = exploring_session();
    let sg = compute_suggestions("/ask wolf ", s.engine(), s.save()).expect("话题补全");
    assert_eq!(sg.kind, SuggestKind::Topic);
    assert_eq!(sg.items.len(), 1);
    assert_eq!(sg.items[0].insert, "whereabouts ");
}

#[test]
fn suggest_move_lists_reachable_scenes() {
    let s = exploring_session();
    let sg = compute_suggestions("/move ", s.engine(), s.save()).expect("场景补全");
    assert_eq!(sg.kind, SuggestKind::Scene);
    assert!(sg.items.iter().any(|i| i.insert == "market "));
}

#[test]
fn suggest_judge_lists_only_unjudged() {
    let s = exploring_session();
    let sg = compute_suggestions("/judge ", s.engine(), s.save()).expect("审判补全");
    assert_eq!(sg.kind, SuggestKind::Character);
    assert!(sg.items.iter().any(|i| i.insert == "wolf "));
}

#[test]
fn suggest_returns_none_for_empty_or_unknown() {
    let s = exploring_session();
    assert!(compute_suggestions("", s.engine(), s.save()).is_none());
    assert!(compute_suggestions("xyz", s.engine(), s.save()).is_none());
}

// ----- the terminal controller -----

fn app(motion: Motion) -> App<MemoryStore> {
    App::new(build_session(), motion, false)
}

fn transcript_texts(a: &App<MemoryStore>) -> Vec<String> {
    a.transcript.iter().map(|l| l.text.clone()).collect()
}

fn type_line(a: &mut App<MemoryStore>, text: &str) {
    for c in text.chars() {
        a.handle_key(Key::Char(c));
    }
    a.handle_key(Key::Enter);
}

fn to_exploring(a: &mut App<MemoryStore>) {
    a.dispatch(Input::Text(String::new()));
    a.handle_key(Key::Enter);
    a.handle_key(Key::Enter);
}

#[test]
fn app_title_menu_new_game_and_intro() {
    let mut a = app(Motion::Off);
    assert!(a.running && a.dirty && a.transcript.is_empty());
    a.dispatch(Input::Text(String::new()));
    let menu = a.menu.clone().expect("title menu");
    assert_eq!(menu.kind, MenuKind::Title);
    assert_eq!(menu.selected, 0);
    a.handle_key(Key::Enter);
    assert_eq!(*a.session.state(), SessionState::ShowingIntro);
    let texts = transcript_texts(&a);
    assert!(texts.contains(&"▌ 开场".to_string()));
    assert!(texts.contains(&"首章开场。".to_string()));
    assert!(a.typewriter.is_none());
    a.handle_key(Key::Enter);
    assert_eq!(*a.session.state(), SessionState::Exploring);
    assert_eq!(a.cached_scene_name, "酒馆");
    assert_eq!(a.cached_title, "首");
}

#[test]
fn app_story_starts_typewriter_and_a_key_finishes_it() {
    let mut a = app(Motion::Full);
    a.dispatch(Input::Text(String::new()));
    a.handle_key(Key::Enter);
    let tw = a.typewriter.expect("typewriter");
    assert_eq!(tw.revealed, 0);
    assert!(tw.total > 0);
    assert!(a.animation.is_some());
    a.update_typewriter();
    assert_eq!(a.typewriter.unwrap().revealed, 1);
    a.handle_key(Key::Enter);
    assert!(a.typewriter.is_none());
    assert_eq!(*a.session.state(), SessionState::ShowingIntro);
    a.handle_key(Key::Enter);
    assert_eq!(*a.session.state(), SessionState::Exploring);
}

#[test]
fn app_typed_command_reaches_the_session() {
    let mut a = app(Motion::Off);
    to_exploring(&mut a);
    for c in "/a".chars() {
        a.handle_key(Key::Char(c));
    }
    let sg = a.suggestions.clone().expect("command palette");
    assert_eq!(sg.kind, SuggestKind::Command);
    a.handle_key(Key::Esc);
    assert!(a.suggestions.is_none());
    assert_eq!(a.input.value(), "");
    type_line(&mut a, "ask wolf whereabouts");
    assert!(a.session.save().has_clue("c1", "wolf_alibi"));
    assert!(transcript_texts(&a).iter().any(|t| t == "在场。"));
    assert_eq!(a.input.value(), "");
}

#[test]
fn app_menu_keys_move_the_cursor_around_the_ring() {
    let mut a = app(Motion::Off);
    to_exploring(&mut a);
    type_line(&mut a, "move");
    let n = a.menu.as_ref().expect("move menu").options.len();
    assert!(n >= 1);
    a.handle_key(Key::Up);
    assert_eq!(a.menu.as_ref().unwrap().selected, n - 1);
    a.handle_key(Key::Down);
    assert_eq!(a.menu.as_ref().unwrap().selected, 0);
    a.handle_key(Key::Esc);
    assert_eq!(*a.session.state(), SessionState::Exploring);
}

#[test]
fn app_control_c_quits() {
    let mut a = app(Motion::Off);
    to_exploring(&mut a);
    a.handle_key(Key::Ctrl('c'));
    assert!(!a.running);
}

#[test]
fn app_ending_lines() {
    let mut a = app(Motion::Off);
    a.process_outcome(Outcome::EndingReached { title: "真相".into(), found: 1, total: 2 });
    assert_eq!(transcript_texts(&a), vec!["".to_string(), "✦ 结局 · 真相".to_string(), "已发现结局  1/2".to_string()]);
    assert_eq!(a.transcript[1].style, LineStyle::Accent);
    assert_eq!(a.transcript_pushes, 3);
}

#[test]
fn app_error_message_is_one_red_line_and_warning_shows_notice() {
    let mut a = app(Motion::Off);
    a.process_outcome(Outcome::Message(Message::error(vec!["坏了".into()])));
    assert_eq!(transcript_texts(&a), vec!["│ 坏了".to_string()]);
    assert_eq!(a.transcript[0].style, LineStyle::Alert);
    a.process_outcome(Outcome::Message(Message::warning(vec!["存档已恢复".into()])));
    assert_eq!(a.notice.as_ref().map(|n| n.text.clone()), Some("存档已恢复".to_string()));
}

#[test]
fn app_transcript_keeps_only_the_newest_lines() {
    let mut a = app(Motion::Off);
    for i in 0..(MAX_TRANSCRIPT + 10) {
        a.push_line(format!("{i}"), LineStyle::Text);
    }
    assert_eq!(a.transcript.len(), MAX_TRANSCRIPT);
    assert_eq!(a.transcript[0].text, "10");
    assert_eq!(a.transcript_pushes, MAX_TRANSCRIPT + 10);
}

#[test]
fn app_scrolls_and_clamps() {
    let mut a = app(Motion::Off);
    to_exploring(&mut a);
    a.scroll_transcript(5);
    assert_eq!(a.transcript_offset, 5);
    a.scroll_transcript(-2);
    assert_eq!(a.transcript_offset, 3);
    assert!(a.scroll_wheel(true));
    assert_eq!(a.transcript_offset, 6);
    a.clamp_transcript_offset(80, 100);
    assert_eq!(a.transcript_offset, 0);
}

#[test]
fn app_map_groups_list_reached_chapters_with_checkpoints() {
    let mut a = app(Motion::Off);
    to_exploring(&mut a);
    let groups = a.compute_map_groups();
    assert_eq!(groups.len(), 1);
    assert_eq!(groups[0].title, "首");
    assert!(groups[0].is_current);
    assert!(!groups[0].ending);
    assert_eq!(groups[0].checkpoints.len(), 1);
    assert_eq!(groups[0].checkpoints[0].flat_index, 0);
}

#[test]
fn app_notes_panel_tabs_and_closes() {
    let mut a = app(Motion::Off);
    to_exploring(&mut a);
    type_line(&mut a, "note");
    assert!(a.note_panel.is_some());
    a.handle_key(Key::Char('3'));
    assert_eq!(a.note_panel.as_ref().unwrap().tab, NoteTab::Judgment);
    a.handle_key(Key::Esc);
    assert!(a.note_panel.is_none());
}

// ----- decoding the data files -----

fn cond(yaml: &str) -> Result<Condition, AppError> {
    condition(&parse(yaml)?)
}

#[test]
fn condition_bare_id() {
    assert_eq!(cond("wolf_alibi").unwrap(), Condition::Fact("wolf_alibi".into()));
}

#[test]
fn condition_all_of() {
    let c = cond("all_of:\n  - wolf_alibi\n  - crow_testimony\n").unwrap();
    assert_eq!(c, Condition::AllOf(vec!["wolf_alibi".into(), "crow_testimony".into()]));
}

#[test]
fn condition_any_of() {
    let c = cond("any_of:\n  - judge_wolf\n  - judge_crow\n").unwrap();
    assert_eq!(c, Condition::AnyOf(vec!["judge_wolf".into(), "judge_crow".into()]));
}

#[test]
fn condition_not() {
    assert_eq!(cond("not: judge_wolf").unwrap(), Condition::Not("judge_wolf".into()));
}

#[test]
fn condition_rejects_mixing() {
    assert!(cond("all_of:\n  - a\nany_of:\n  - b\n").is_err());
}

#[test]
fn condition_rejects_empty_map() {
    assert!(cond("{}").is_err());
}

#[test]
fn condition_rejects_nested() {
    assert!(cond("all_of:\n  - not: a\n").is_err());
}

#[test]
fn chapter_parses_full() {
    let yaml = r#"
id: the_missing_butcher
title: "失踪的屠夫"
order: 1
scenes: [tavern, market]
starting_scene: tavern
characters:
  - id: wolf
    appears_in: [tavern]
    topics:
      - id: whereabouts
        label: "昨晚的行踪"
        available: true
      - id: secret
        label: "隐藏的秘密"
        available: false
        unlock_after:
          all_of:
            - wolf_alibi
required_judgments: [judge_wolf]
next:
  default: tavern_uncertain
  branches:
    - when:
        all_of: [judge_wolf]
      target: tavern_truth
"#;
    let ch = Yaml.chapter(yaml).unwrap();
    assert_eq!(ch.id, "the_missing_butcher");
    assert_eq!(ch.ending, false);
    assert_eq!(ch.order, 1);
    assert_eq!(ch.starting_scene, "tavern");
    assert_eq!(ch.required_judgments.as_deref(), Some(&["judge_wolf".to_string()][..]));
    let wolf = &ch.characters[0];
    assert_eq!(wolf.appears_in.as_deref(), Some(&["tavern".to_string()][..]));
    assert_eq!(wolf.topics.len(), 2);
    assert!(wolf.topics[0].available);
    assert!(!wolf.topics[1].available);
    let next = ch.next.unwrap();
    assert_eq!(next.default, "tavern_uncertain");
    assert_eq!(next.branches.len(), 1);
    assert_eq!(next.branches[0].target, "tavern_truth");
}

#[test]
fn chapter_required_judgments_omitted_is_none() {
    let yaml = "id: c\ntitle: t\nscenes: [s]\nstarting_scene: s\nnext:\n  default: d\n";
    let ch = Yaml.chapter(yaml).unwrap();
    assert!(ch.required_judgments.is_none());
}

#[test]
fn scene_parses_with_defaults() {
    let yaml = r#"
id: tavern
name: "锈桶酒馆"
description:
  surface: text/scenes/tavern.surface.md
  shadow: text/scenes/tavern.shadow.md
"#;
    let s = Yaml.scene(yaml).unwrap();
    assert!(s.connections.is_empty());
    assert!(s.one_way_connections.is_empty());
    assert_eq!(s.description.surface, "text/scenes/tavern.surface.md");
}

#[test]
fn ending_chapter_has_no_next() {
    let yaml = r#"
id: tavern_truth
title: "酒馆真相"
order: 3
ending: true
scenes: [tavern]
starting_scene: tavern
outro: outro.md
required_judgments: [judge_wolf]
"#;
    let ch = Yaml.chapter(yaml).unwrap();
    assert!(ch.ending);
    assert!(ch.next.is_none());
    assert_eq!(ch.outro.as_deref(), Some("outro.md"));
}

// ----- command-line reports -----

fn issue(severity: Severity, message: &str) -> Issue {
    Issue { severity, message: message.to_string() }
}

#[test]
fn check_output_lists_errors_first_and_sums_up() {
    let report = CheckReport {
        issues: vec![
            issue(Severity::Warning, "w1"),
            issue(Severity::Error, "e1"),
            issue(Severity::Advice, "a1"),
            issue(Severity::Error, "e2"),
        ],
    };
    let out = check_output(&report);
    assert_eq!(out.lines, vec!["[error] e1", "[error] e2", "[warning] w1", "[advice] a1"]);
    assert!(!out.passed);
    assert_eq!(out.summary, "校验未通过：2 个错误，2 个警告");
    match play_refusal(&report, "data") {
        Some(AppError::Content(m)) => {
            assert_eq!(m, "内容校验未通过：2 个错误，2 个警告。请先运行 darkbluff check --data-dir data")
        }
        other => panic!("expected refusal, got {other:?}"),
    }
}

#[test]
fn check_output_passes_clean_content() {
    let report = check(&load(&tavern_case_source()));
    let out = check_output(&report);
    assert!(out.passed);
    assert!(out.lines.iter().all(|l| !l.starts_with("[error]")));
    assert_eq!(out.summary, format!("校验通过（{} 个警告）", out.lines.len()));
    assert!(play_refusal(&report, "data").is_none());
    assert_eq!(
        missing_default_data_dir("data"),
        AppError::Content(
            "默认内容目录不存在：data。当前仓库尚未包含正式 data/，请使用 --data-dir 指向内容目录，例如 crates/darkbluff-core/tests/fixtures/data"
                .into()
        )
    );
}

#[test]
fn app_view_state_shows_what_the_state_allows() {
    let mut a = app(Motion::Off);
    a.dispatch(Input::Text(String::new()));
    {
        let v = a.view_state();
        assert_eq!(v.state, SessionState::Title);
        assert!(v.menu.is_some());
        assert!(v.confirmation.is_none() && v.suggestions.is_none() && v.map.is_none());
        assert!(v.no_motion);
        assert_eq!(v.endings, (0, 2));
    }
    a.handle_key(Key::Enter);
    a.handle_key(Key::Enter);
    type_line(&mut a, "map");
    let v = a.view_state();
    assert_eq!(v.state, SessionState::ChoosingCheckpoint);
    assert_eq!(v.map.map(|m| m.len()), Some(1));
    assert_eq!(v.title, "首");
    assert_eq!(v.scene_name, "酒馆");
}

// ----- persistence, re-reconciliation and key routing -----

#[test]
fn quit_writes_a_stamped_copy_and_keeps_the_working_save() {
    let mut s = build_session();
    s.start_new_game();
    s.handle(Input::Ack);
    let before_stamp = s.save().timestamp.clone();
    let before_scene = s.save().current_scene.clone();
    assert!(matches!(s.handle(Input::Quit), Outcome::QuitRequested));
    assert_eq!(s.save().timestamp, before_stamp);
    assert_eq!(s.save().current_scene, before_scene);
    match resolve_load(s.store().read_main(), s.store().read_backup()) {
        LoadResult::Save(loaded, _) => {
            assert_eq!(loaded.current_scene, before_scene);
            assert_ne!(loaded.timestamp, before_stamp);
        }
        _ => panic!("expected the written save"),
    }
}

#[test]
fn second_reconcile_changes_nothing_and_warns_nothing() {
    let (e, _) = build();
    let mut save = Save::new_game("c1", "tavern", "t".into());
    save.chapter_path = vec!["c1".into(), "deleted_chapter".into()];
    save.current_chapter = "deleted_chapter".into();
    save.current_scene = "gone_scene".into();
    let first = reconcile_save(&mut save, &e);
    assert!(!first.is_empty());
    let path = save.chapter_path.clone();
    let scene = save.current_scene.clone();
    let second = reconcile_save(&mut save, &e);
    assert!(second.is_empty());
    assert_eq!(save.chapter_path, path);
    assert_eq!(save.current_scene, scene);
    assert_eq!(save.current_chapter, "c1");
}

#[test]
fn app_enter_submits_the_line_without_slashes() {
    let mut a = app(Motion::Off);
    to_exploring(&mut a);
    for c in "//help".chars() {
        a.handle_key(Key::Char(c));
    }
    a.suggestions = None;
    let before = a.transcript.len();
    a.handle_key(Key::Enter);
    assert!(a.transcript.len() > before);
    assert_eq!(a.input.value(), "");
    assert_eq!(*a.session.state(), SessionState::Exploring);
}

#[test]
fn app_blank_line_sends_nothing() {
    let mut a = app(Motion::Off);
    to_exploring(&mut a);
    for c in " / ".chars() {
        a.handle_key(Key::Char(c));
    }
    a.suggestions = None;
    let before = a.transcript.len();
    a.submit_command();
    assert_eq!(a.transcript.len(), before);
    assert_eq!(a.input.value(), "");
}

#[test]
fn load_without_records_succeeds_and_keeps_no_text() {
    let src = InMemorySource::new().insert("text/scenes/s.surface.md", "表面。");
    let e = ContentEngine::load(&src, &Yaml).expect("nothing to decode");
    assert!(e.scene_ids().is_empty());
    assert!(e.chapter_ids().is_empty());
}

#[test]
fn load_fails_on_a_malformed_dialogue_file() {
    let src = InMemorySource::new()
        .insert("chapters/c1/chapter.yaml", "id: c1\ntitle: 首\nscenes: [s]\nstarting_scene: s\n")
        .insert("chapters/c1/dialogues/wolf.md", "### [surface]\n\n话题之前的视角。\n");
    assert!(ContentEngine::load(&src, &Yaml).is_err());
}

#[test]
fn duplicate_scene_ids_first_file_in_sorted_order_wins() {
    let text = |name: &str| format!("id: x\nname: {name}\ndescription:\n  surface: s.md\n  shadow: h.md\n");
    let src = InMemorySource::new().insert("scenes/b.yaml", &text("B")).insert("scenes/a.yaml", &text("A"));
    let e = ContentEngine::load(&src, &Yaml).expect("load");
    assert_eq!(e.get_scene("x").unwrap().name, "A");
    assert!(e.scene_exists("x"));
    assert_eq!(e.scene_ids().iter().filter(|i| **i == "x").count(), 2);
}

#[test]
fn report_errors_and_warnings_split_the_issues() {
    let (e, _) = build();
    let r = check(&e);
    assert_eq!(r.errors().len() + r.warnings().len(), r.issues.len());
    assert_eq!(r.has_errors(), !r.errors().is_empty());
}

#[test]
fn quit_then_continue_loads_the_written_save() {
    let mut s = build_session();
    s.start_new_game();
    s.handle(Input::Ack);
    let scene = s.save().current_scene.clone();
    assert!(matches!(s.handle(Input::Quit), Outcome::QuitRequested));
    let mut t = Session::new(load(&session_source()), MemoryStore::new());
    t.store = std::mem::replace(&mut s.store, MemoryStore::new());
    t.handle(Input::Text(String::new()));
    t.handle(Input::Select(Selection::Id("continue".into())));
    assert_eq!(*t.state(), SessionState::Exploring);
    assert_eq!(t.save().current_scene, scene);
    assert_eq!(t.save().current_chapter, s.save().current_chapter);
}
