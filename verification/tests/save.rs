use darkbluff::error::AppError;
use darkbluff::save::atomic::{bak_path, corrupt_path, tmp_path};
use darkbluff::save::checkpoint::{
    create_before_judgment, create_chapter_start, map_checkpoint_rollback,
};
use darkbluff::save::clock::{fake_iso_at, fake_stamp_at, Clock, FakeClock, SystemClock};
use darkbluff::save::migration::migrate;
use darkbluff::save::schema::{
    chapter_start_id_base, unique_checkpoint_id, Checkpoint, CheckpointKind, CkptState,
    Discovered, JudgmentMade, Motion, Save, Settings, ViewedDialogue, CURRENT_VERSION,
};
use darkbluff::save::snapshot::{
    dialogue_snapshot_path, intro_snapshot_path, judgment_snapshot_path, narrative_snapshot_path,
    orphan_snapshots, outro_snapshot_path, referenced_snapshot_paths, SnapshotStore,
};
use darkbluff::save::store::{resolve_load, resolve_settings, stamp, LoadReport, LoadResult, SaveFile, SettingsFile};
use darkbluff::world::World;

fn mk_save() -> Save {
    let mut save = Save::new_game("c1", "tavern", "t0".into());
    create_chapter_start(&mut save, "c1", "tavern", World::Surface, "t1");
    save.clues_mut("c1").extend(["a", "b"].iter().map(|s| s.to_string()));
    save.views_mut("c1").push(ViewedDialogue {
        character: "wolf".into(),
        topic: "whereabouts".into(),
        world: World::Surface,
        snapshot: "snapshots/c1/wolf.whereabouts.surface.md".into(),
    });
    let bj = create_before_judgment(&mut save, "c1", "judge_wolf", "t2");
    save.judgments_mut("c1").push(JudgmentMade {
        judgment: "judge_wolf".into(),
        result_snapshot: "snapshots/c1/judge_wolf.md".into(),
    });
    save.chapter_path.push("c2".into());
    save.current_chapter = "c2".into();
    save.current_scene = "market".into();
    save.current_world = World::Shadow;
    save.discovered.add_chapter("c2");
    create_chapter_start(&mut save, "c2", "market", World::Shadow, "t3");
    let _ = bj;
    save
}

fn clues_len(save: &Save, chapter: &str) -> usize {
    save.collected_clues.get(chapter).map(|v| v.len()).unwrap_or(0)
}

fn judgments_len(save: &Save, chapter: &str) -> usize {
    save.judgments_made.get(chapter).map(|v| v.len()).unwrap_or(0)
}

#[test]
fn rollback_to_before_judgment_current_chapter_keeps_chapter_start() {
    let mut save = mk_save();
    let bj_id = save
        .checkpoints
        .iter()
        .find(|c| c.kind == CheckpointKind::BeforeJudgment && c.chapter == "c1")
        .map(|c| c.id.clone())
        .unwrap();
    map_checkpoint_rollback(&mut save, &bj_id).unwrap();

    assert_eq!(save.current_chapter, "c1");
    assert_eq!(judgments_len(&save, "c1"), 0);
    assert_eq!(save.collected_clues.get("c1").unwrap().len(), 2);
    assert_eq!(save.viewed_dialogues.get("c1").unwrap().len(), 1);
    assert_eq!(save.chapter_path, vec!["c1"]);
    assert!(save.checkpoints.iter().all(|c| c.kind != CheckpointKind::BeforeJudgment));
}

#[test]
fn rollback_to_chapter_start_resets_arrays() {
    let mut save = mk_save();
    let start_id = save
        .checkpoints
        .iter()
        .find(|c| c.kind == CheckpointKind::ChapterStart && c.chapter == "c1")
        .map(|c| c.id.clone())
        .unwrap();
    map_checkpoint_rollback(&mut save, &start_id).unwrap();
    assert_eq!(clues_len(&save, "c1"), 0);
    assert_eq!(judgments_len(&save, "c1"), 0);
    assert!(save
        .checkpoints
        .iter()
        .any(|c| c.kind == CheckpointKind::ChapterStart && c.chapter == "c1"));
}

#[test]
fn discovered_survives_rollback() {
    let mut save = mk_save();
    assert!(save.discovered.chapters.contains(&"c2".to_string()));
    let start_id = save
        .checkpoints
        .iter()
        .find(|c| c.kind == CheckpointKind::ChapterStart && c.chapter == "c1")
        .map(|c| c.id.clone())
        .unwrap();
    map_checkpoint_rollback(&mut save, &start_id).unwrap();
    assert!(save.discovered.chapters.contains(&"c2".to_string()));
}

#[test]
fn rollback_unknown_checkpoint_errors() {
    let mut save = mk_save();
    assert!(map_checkpoint_rollback(&mut save, "nope").is_err());
}

#[test]
fn checkpoint_ids_unique_on_reentry() {
    let mut save = Save::new_game("c1", "s", "t".into());
    let id1 = create_chapter_start(&mut save, "c1", "s", World::Surface, "t1");
    let id2 = create_chapter_start(&mut save, "c1", "s", World::Surface, "t2");
    assert_ne!(id1, id2);
    assert_eq!(id1, "ckpt_c1_start");
    assert_eq!(id2, "ckpt_c1_start_2");
}

#[test]
fn rollback_unknown_checkpoint_keeps_save_and_message() {
    let mut save = mk_save();
    let before_path = save.chapter_path.clone();
    let before_ckpts = save.checkpoints.clone();
    let r = map_checkpoint_rollback(&mut save, "nope");
    assert_eq!(r, Err(AppError::Save("这个节点已经无法回到".to_string())));
    assert_eq!(save.chapter_path, before_path);
    assert_eq!(save.checkpoints, before_ckpts);
    assert_eq!(save.current_chapter, "c2");
}

#[test]
fn rollback_across_chapters_drops_later_chapter_facts() {
    let mut save = mk_save();
    save.clues_mut("c2").push("c2_clue".to_string());
    save.viewed_intros.insert("c2".into(), "snapshots/c2/intro.md".into());
    let start_id = save
        .checkpoints
        .iter()
        .find(|c| c.kind == CheckpointKind::ChapterStart && c.chapter == "c1")
        .map(|c| c.id.clone())
        .unwrap();
    map_checkpoint_rollback(&mut save, &start_id).unwrap();
    assert!(save.collected_clues.get("c2").is_none());
    assert!(save.viewed_intros.get("c2").is_none());
    assert_eq!(save.current_scene, "tavern");
    assert_eq!(save.current_world, World::Surface);
    assert_eq!(save.checkpoints.len(), 1);
    assert_eq!(save.checkpoints[0].id, "ckpt_c1_start");
}

#[test]
fn before_judgment_checkpoint_records_lengths() {
    let mut save = Save::new_game("c1", "s", "t".into());
    save.clues_mut("c1").push("a".into());
    let id = create_before_judgment(&mut save, "c1", "judge_wolf", "t9");
    assert_eq!(id, "ckpt_before_judge_wolf");
    let c = save.checkpoints.last().unwrap();
    assert_eq!(c.kind, CheckpointKind::BeforeJudgment);
    assert_eq!(c.state.clues_len, 1);
    assert_eq!(c.timestamp, "t9");
    assert_eq!(c.scene, "s");
}

#[test]
fn corrupt_path_format() {
    assert_eq!(
        corrupt_path("save/save.json", "20260616T120000Z"),
        "save/save.json.corrupt-20260616T120000Z"
    );
}

#[test]
fn tmp_and_bak_paths_append_suffix() {
    assert_eq!(tmp_path("save/save.json"), "save/save.json.tmp");
    assert_eq!(bak_path("save/save.json"), "save/save.json.bak");
}

#[test]
fn fake_clock_increments() {
    let c = FakeClock::new();
    let a = c.now_iso();
    let b = c.now_iso();
    assert_ne!(a, b);
    assert!(a.starts_with("2026-01-01T00:"));
}

#[test]
fn fake_clock_values_by_tick() {
    assert_eq!(fake_iso_at(0), "2026-01-01T00:00:00Z");
    assert_eq!(fake_iso_at(61), "2026-01-01T00:01:01Z");
    assert_eq!(fake_stamp_at(7), "20260101T000007Z");
    let c = FakeClock::new();
    assert_eq!(c.now_stamp(), "20260101T000000Z");
    assert_eq!(c.now_iso(), "2026-01-01T00:00:01Z");
}

#[test]
fn system_clock_iso_format() {
    let s = SystemClock.now_iso();
    assert!(s.ends_with('Z'));
    assert_eq!(s.len(), "2026-06-16T12:00:00Z".len());
}

#[test]
fn system_clock_stamp_format() {
    let s = SystemClock.now_stamp();
    assert!(s.ends_with('Z'));
    assert_eq!(s.len(), "20260616T120000Z".len());
    assert_eq!(s.chars().nth(8), Some('T'));
}

#[test]
fn migrate_v1_noop() {
    let mut save = Save::default();
    let version = save.version;
    migrate(&mut save).unwrap();
    assert_eq!(save.version, version);
    assert_eq!(save.version, CURRENT_VERSION);
}

#[test]
fn migrate_from_newer_version_downgrades_marker() {
    let mut save = Save::default();
    save.version = 7;
    migrate(&mut save).unwrap();
    assert_eq!(save.version, CURRENT_VERSION);
}

#[test]
fn discovered_dedup() {
    let mut d = Discovered::default();
    d.add_chapter("c1");
    d.add_chapter("c2");
    d.add_chapter("c1");
    assert_eq!(d.chapters, vec!["c1", "c2"]);
    d.add_ending("c_truth");
    d.add_ending("c_truth");
    assert_eq!(d.endings, vec!["c_truth"]);
    d.add_topic("c1", "wolf", "whereabouts");
    d.add_topic("c1", "wolf", "whereabouts");
    assert_eq!(d.topics.get("c1").unwrap().len(), 1);
}

#[test]
fn discovered_triggers_dedup() {
    let mut d = Discovered::default();
    assert!(!d.triggered("n1"));
    d.add_trigger("n1");
    d.add_trigger("n1");
    assert!(d.triggered("n1"));
    assert_eq!(d.triggers, vec!["n1"]);
}

#[test]
fn checkpoint_state_of() {
    let mut save = Save::new_game("c1", "s", "t".into());
    save.clues_mut("c1").extend(["a", "b"].iter().map(|s| s.to_string()));
    save.views_mut("c1").push(ViewedDialogue {
        character: "w".into(),
        topic: "t".into(),
        world: World::Surface,
        snapshot: "x".into(),
    });
    let st = Checkpoint::state_of(&save, "c1");
    assert_eq!(st.clues_len, 2);
    assert_eq!(st.views_len, 1);
    assert_eq!(st.judgments_len, 0);
}

#[test]
fn unique_checkpoint_id_handles_collision() {
    let mut existing = vec![Checkpoint {
        id: "ckpt_c1_start".into(),
        chapter: "c1".into(),
        scene: "s".into(),
        world: World::Surface,
        kind: CheckpointKind::ChapterStart,
        timestamp: "t".into(),
        state: CkptState::default(),
    }];
    let id1 = unique_checkpoint_id(&chapter_start_id_base("c1"), &existing);
    assert_eq!(id1, "ckpt_c1_start_2");
    existing.push(Checkpoint {
        id: id1,
        chapter: "c1".into(),
        scene: "s".into(),
        world: World::Surface,
        kind: CheckpointKind::ChapterStart,
        timestamp: "t2".into(),
        state: CkptState::default(),
    });
    let id2 = unique_checkpoint_id(&chapter_start_id_base("c1"), &existing);
    assert_eq!(id2, "ckpt_c1_start_3");
}

#[test]
fn unique_checkpoint_id_free_base_is_kept() {
    assert_eq!(unique_checkpoint_id("ckpt_c9_start", &[]), "ckpt_c9_start");
}

#[test]
fn motion_menu_id_roundtrip() {
    for motion in [Motion::Full, Motion::Reduced, Motion::Off] {
        assert_eq!(Motion::from_menu_id(motion.menu_id()), Some(motion));
    }
    assert_eq!(Motion::Full.menu_id(), "motion_full");
    assert_eq!(Motion::Reduced.menu_id(), "motion_reduced");
    assert_eq!(Motion::Off.menu_id(), "motion_off");
    assert_eq!(Motion::Full.en_label(), "Motion: Full");
    assert_eq!(Motion::Off.zh_label(), "动画：关闭");
    assert_eq!(Motion::from_menu_id("bogus"), None);
}

#[test]
fn settings_default_is_full_motion() {
    let s = Settings::default();
    assert_eq!(s.motion, Motion::Full);
}

#[test]
fn new_game_starts_at_first_chapter() {
    let save = Save::new_game("c1", "tavern", "t0".into());
    assert_eq!(save.current_chapter, "c1");
    assert_eq!(save.current_scene, "tavern");
    assert_eq!(save.current_world, World::Surface);
    assert_eq!(save.chapter_path, vec!["c1"]);
    assert_eq!(save.discovered.chapters, vec!["c1"]);
    assert!(save.checkpoints.is_empty());
    assert_eq!(save.timestamp, "t0");
}

#[test]
fn referenced_includes_judgment_and_intro() {
    let mut save = Save::new_game("c1", "s", "t".into());
    save.judgments_mut("c1").push(JudgmentMade {
        judgment: "judge_wolf".into(),
        result_snapshot: "snapshots/c1/judge_wolf.md".into(),
    });
    save.viewed_intros.insert("c1".into(), "snapshots/c1/intro.md".into());
    let set = referenced_snapshot_paths(&save);
    assert!(set.contains("snapshots/c1/judge_wolf.md"));
    assert!(set.contains("snapshots/c1/intro.md"));
}

#[test]
fn orphans_are_unreferenced_snapshots() {
    let referenced = dialogue_snapshot_path("c1", "wolf", "whereabouts", World::Surface);
    let orphan = dialogue_snapshot_path("c1", "wolf", "secret", World::Surface);
    let mut save = Save::new_game("c1", "s", "t".into());
    save.views_mut("c1").push(ViewedDialogue {
        character: "wolf".into(),
        topic: "whereabouts".into(),
        world: World::Surface,
        snapshot: referenced.clone(),
    });
    let all = vec![referenced.clone(), orphan.clone()];
    assert_eq!(orphan_snapshots(&all, &save), vec![orphan]);
}

#[test]
fn path_helpers() {
    assert_eq!(
        dialogue_snapshot_path("c1", "wolf", "whereabouts", World::Shadow),
        "snapshots/c1/wolf.whereabouts.shadow.md"
    );
    assert_eq!(intro_snapshot_path("c1"), "snapshots/c1/intro.md");
    assert_eq!(judgment_snapshot_path("c1", "judge_wolf"), "snapshots/c1/judge_wolf.md");
}

#[test]
fn more_path_helpers() {
    assert_eq!(outro_snapshot_path("c2"), "snapshots/c2/outro.md");
    assert_eq!(narrative_snapshot_path("c1", "n1"), "snapshots/c1/narrative.n1.md");
    let store = SnapshotStore::new("/tmp/x".to_string());
    assert_eq!(store.root(), "/tmp/x");
    assert_eq!(store.path_of("snapshots/c1/intro.md"), "/tmp/x/snapshots/c1/intro.md");
}

#[test]
fn load_prefers_main_then_backup() {
    let main = Save::new_game("c1", "s", "main".into());
    let bak = Save::new_game("c1", "s", "bak".into());
    match resolve_load(SaveFile::Parsed(main), SaveFile::Parsed(bak)) {
        LoadResult::Save(s, rep) => {
            assert_eq!(s.timestamp, "main");
            assert!(!rep.recovered_from_bak);
        }
        _ => panic!("expected a save"),
    }
    let bak = Save::new_game("c1", "s", "bak".into());
    match resolve_load(SaveFile::Unreadable, SaveFile::Parsed(bak)) {
        LoadResult::Save(s, rep) => {
            assert_eq!(s.timestamp, "bak");
            assert!(rep.recovered_from_bak);
            assert_eq!(rep.warning_messages(), vec!["存档文件损坏，已从备份恢复".to_string()]);
        }
        _ => panic!("expected a save"),
    }
}

#[test]
fn load_without_files_and_with_both_broken() {
    assert!(matches!(resolve_load(SaveFile::Missing, SaveFile::Missing), LoadResult::NoSave));
    assert!(matches!(
        resolve_load(SaveFile::Unreadable, SaveFile::Unreadable),
        LoadResult::BothCorrupt
    ));
    assert!(matches!(
        resolve_load(SaveFile::Unreadable, SaveFile::Missing),
        LoadResult::BothCorrupt
    ));
    assert!(LoadReport::default().warning_messages().is_empty());
}

#[test]
fn stamp_sets_version_and_time() {
    let mut save = Save::default();
    save.version = 0;
    stamp(&mut save, "2026-01-01T00:00:05Z".to_string());
    assert_eq!(save.version, CURRENT_VERSION);
    assert_eq!(save.timestamp, "2026-01-01T00:00:05Z");
}

#[test]
fn migrate_brings_an_older_save_up_to_date() {
    let mut save = Save::default();
    save.version = 0;
    save.current_scene = "tavern".into();
    migrate(&mut save).unwrap();
    assert_eq!(save.version, CURRENT_VERSION);
    assert_eq!(save.current_scene, "tavern");
}

#[test]
fn settings_from_main_then_backup_then_defaults() {
    let main = Settings { version: 1, motion: Motion::Reduced };
    let bak = Settings { version: 1, motion: Motion::Off };
    assert_eq!(resolve_settings(SettingsFile::Parsed(main), SettingsFile::Parsed(bak)), main);
    assert_eq!(resolve_settings(SettingsFile::Undecodable, SettingsFile::Parsed(bak)), bak);
    assert_eq!(resolve_settings(SettingsFile::Undecodable, SettingsFile::Undecodable), Settings::default());
    assert_eq!(resolve_settings(SettingsFile::Unread, SettingsFile::Parsed(bak)), Settings::default());
}

#[test]
fn system_clock_readings_end_with_z() {
    assert!(SystemClock.now_iso().ends_with('Z'));
    assert!(SystemClock.now_stamp().ends_with('Z'));
}

#[test]
fn settings_default_full() {
    let s = Settings::default();
    assert_eq!(s.motion, Motion::Full);
    assert_eq!(s.version, 1);
    assert_eq!(s, Settings { version: 1, motion: Motion::Full });
}
