use scene_core::achievements::{AchievementDefinition, AchievementManager, AchievementRecord};
use scene_core::scripts::{create_all_achievements, grant, is_unlocked};

fn definition(id: &str, trigger: Option<&str>) -> AchievementDefinition {
    AchievementDefinition {
        id: id.to_string(),
        name: format!("name of {id}"),
        description: format!("description of {id}"),
        trigger: trigger.map(|t| t.to_string()),
    }
}

#[test]
fn catalog_lists_the_four_achievements() {
    let defs = create_all_achievements();
    let ids: Vec<&str> = defs.iter().map(|d| d.id.as_str()).collect();
    assert_eq!(
        ids,
        vec!["first_launch", "intro_closed", "intro_skipped", "script_reward"]
    );
    assert_eq!(defs[0].trigger.as_deref(), Some("game_started"));
    assert_eq!(defs[3].trigger, None);
}

#[test]
fn trigger_unlocks_matching_achievements_once() {
    let mut m = AchievementManager::from_definitions(create_all_achievements()).unwrap();
    assert!(!m.is_unlocked("first_launch"));

    let unlocked = m.trigger("game_started");
    assert_eq!(unlocked, vec!["first_launch".to_string()]);
    assert!(m.is_unlocked("first_launch"));
    assert!(m.dirty);

    // A second trigger finds nothing left to unlock.
    let unlocked = m.trigger("game_started");
    assert!(unlocked.is_empty());

    // An unknown trigger is a best-effort no-op.
    let unlocked = m.trigger("no_such_trigger");
    assert!(unlocked.is_empty());
}

#[test]
fn grant_reports_new_known_and_unknown() {
    let mut m = AchievementManager::from_definitions(create_all_achievements()).unwrap();
    assert_eq!(m.grant("script_reward").unwrap(), true);
    assert_eq!(m.grant("script_reward").unwrap(), false);
    let err = m.grant("nope").unwrap_err();
    assert_eq!(err, "achievement not found: nope");
}

#[test]
fn notifications_queue_and_drain_in_order() {
    let mut m = AchievementManager::from_definitions(create_all_achievements()).unwrap();
    m.grant("script_reward").unwrap();
    m.trigger("game_started");
    let notes = m.take_notifications();
    assert_eq!(notes.len(), 2);
    assert_eq!(notes[0].name, "Скриптовая награда");
    assert_eq!(notes[1].name, "Первый запуск");
    assert!(m.take_notifications().is_empty());
}

#[test]
fn snapshot_mirrors_the_catalog() {
    let mut m = AchievementManager::from_definitions(create_all_achievements()).unwrap();
    m.grant("script_reward").unwrap();
    let snap = m.snapshot();
    assert_eq!(snap.len(), 4);
    assert!(!snap[0].unlocked);
    assert!(snap[3].unlocked);
    assert_eq!(snap[0].name, "Первый запуск");
}

#[test]
fn empty_id_is_rejected() {
    let err = AchievementManager::from_definitions(vec![definition("   ", None)]).unwrap_err();
    assert_eq!(err, "achievement id must not be empty");
}

#[test]
fn duplicate_id_is_rejected() {
    let err = AchievementManager::from_definitions(vec![
        definition("twin", None),
        definition(" twin ", None),
    ])
    .unwrap_err();
    assert_eq!(err, "duplicate achievement id: twin");
}

#[test]
fn ids_and_triggers_are_trimmed() {
    let mut m = AchievementManager::from_definitions(vec![definition("  padded  ", Some("  fire  "))])
        .unwrap();
    // The stored id is the trimmed one; lookups use it exactly.
    assert_eq!(m.grant("padded").unwrap(), true);
    assert!(m.grant("  padded  ").is_err());
    // The stored trigger is trimmed too, so the exact trimmed id fires ...
    let mut m2 =
        AchievementManager::from_definitions(vec![definition("other", Some("  fire  "))]).unwrap();
    assert_eq!(m2.trigger("fire"), vec!["other".to_string()]);
    // ... and the untrimmed form does not.
    let mut m3 =
        AchievementManager::from_definitions(vec![definition("third", Some("  fire  "))]).unwrap();
    assert!(m3.trigger("  fire  ").is_empty());
}

#[test]
fn blank_trigger_is_dropped() {
    let mut m = AchievementManager::from_definitions(vec![definition("quiet", Some("   "))]).unwrap();
    assert!(m.trigger("").is_empty());
    assert!(m.trigger("   ").is_empty());
}

#[test]
fn records_carry_unlocked_flags() {
    let records = vec![
        AchievementRecord {
            id: "a".to_string(),
            name: "A".to_string(),
            description: "first".to_string(),
            trigger: None,
            unlocked: true,
        },
        AchievementRecord {
            id: "b".to_string(),
            name: "B".to_string(),
            description: "second".to_string(),
            trigger: Some("go".to_string()),
            unlocked: false,
        },
    ];
    let mut m = AchievementManager::from_records(records).unwrap();
    assert!(m.is_unlocked("a"));
    assert!(!m.is_unlocked("b"));
    assert!(!m.dirty);
    assert_eq!(m.trigger("go"), vec!["b".to_string()]);
    assert!(m.dirty);
}

#[test]
fn helper_functions_wrap_the_manager() {
    let mut m = AchievementManager::from_definitions(create_all_achievements()).unwrap();
    assert_eq!(scene_core::scripts::trigger(&mut m, "intro_closed"), vec!["intro_closed".to_string()]);
    assert!(is_unlocked(&m, "intro_closed"));
    assert!(!is_unlocked(&m, "unknown"));
    // The script-facing grant reports an unknown id as false, not an error.
    assert!(!grant(&mut m, "unknown"));
    assert!(grant(&mut m, "script_reward"));
    assert!(!grant(&mut m, "script_reward"));
}
