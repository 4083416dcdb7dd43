use scene_core::achievements::AchievementManager;
use scene_core::dialogue::DialogueState;
use scene_core::game_object::{DialogueBoxObject, GameObject2D, RenderLayer, SceneObject};
use scene_core::renderer::{RenderError, SceneRenderer};
use scene_core::scene_script::{
    spawn, wait, SceneCommand, ScriptContext, ScriptSignal, TextureCatalog, TimelineScript,
};

fn sprite(texture: &str) -> SceneObject {
    SceneObject::Sprite(GameObject2D::new(
        [0, 0],
        [0, 0],
        texture.to_string(),
        RenderLayer::Character,
        0,
    ))
}

fn context(paths: &[&str]) -> ScriptContext {
    let mut textures = TextureCatalog::new();
    for p in paths {
        textures.add(p.to_string());
    }
    ScriptContext {
        renderer: SceneRenderer::init(800, 600),
        dialogue: DialogueState::new(),
        achievements: AchievementManager::from_definitions(Vec::new()).unwrap(),
        textures,
    }
}

fn xyz_timeline() -> TimelineScript {
    TimelineScript::new(vec![
        spawn(sprite("x.png")),
        wait(2000),
        spawn(sprite("y.png")),
        wait(1000),
        spawn(sprite("z.png")),
    ])
}

#[test]
fn time_splitting_drains_multiple_waits() {
    let mut ctx = context(&["x.png", "y.png", "z.png"]);
    let mut t = xyz_timeline();
    t.update(3500, &mut ctx).unwrap();
    let spawned: Vec<&str> = ctx
        .renderer
        .entries
        .iter()
        .map(|e| e.object.texture_path.as_str())
        .collect();
    assert_eq!(spawned, vec!["x.png", "y.png", "z.png"]);
    assert!(t.is_finished());
}

#[test]
fn partial_wait_across_two_updates() {
    let mut ctx = context(&["x.png", "y.png", "z.png"]);
    let mut t = xyz_timeline();

    t.update(1000, &mut ctx).unwrap();
    assert_eq!(ctx.renderer.entries.len(), 1);
    assert_eq!(ctx.renderer.entries[0].object.texture_path, "x.png");
    assert_eq!(t.wait_remaining, 1000);

    t.update(1500, &mut ctx).unwrap();
    assert_eq!(ctx.renderer.entries.len(), 2);
    assert_eq!(ctx.renderer.entries[1].object.texture_path, "y.png");
    assert_eq!(t.wait_remaining, 500);
    assert!(!t.is_finished());
}

#[test]
fn skip_signal_drains_up_to_next_wait() {
    let mut ctx = context(&["y.png", "z.png"]);
    let mut t = TimelineScript::new(vec![
        wait(1000),
        spawn(sprite("y.png")),
        wait(5000),
        spawn(sprite("z.png")),
    ]);
    t.update(0, &mut ctx).unwrap();
    assert_eq!(t.wait_remaining, 1000);
    assert!(ctx.renderer.entries.is_empty());

    t.on_signal(ScriptSignal::SkipWait);
    assert_eq!(t.wait_remaining, 0);

    t.update(0, &mut ctx).unwrap();
    assert_eq!(ctx.renderer.entries.len(), 1);
    assert_eq!(ctx.renderer.entries[0].object.texture_path, "y.png");
    assert_eq!(t.wait_remaining, 5000);
    assert!(!t.is_finished());
}

#[test]
fn zero_length_wait_falls_through() {
    let mut ctx = context(&["x.png"]);
    let mut t = TimelineScript::new(vec![wait(0), spawn(sprite("x.png"))]);
    t.update(0, &mut ctx).unwrap();
    assert_eq!(ctx.renderer.entries.len(), 1);
    assert!(t.is_finished());
}

#[test]
fn spawn_and_apply_both_upsert() {
    let mut ctx = context(&["x.png"]);
    let mut t = TimelineScript::new(vec![
        SceneCommand::Spawn(sprite("x.png")),
        SceneCommand::Apply(sprite("x.png")),
    ]);
    t.update(0, &mut ctx).unwrap();
    assert_eq!(ctx.renderer.entries.len(), 1);
    assert_eq!(ctx.renderer.entries[0].transform_writes, 2);
}

#[test]
fn dialogue_objects_route_to_reveal_state() {
    let mut ctx = context(&[]);
    let d = DialogueBoxObject::new("Hi there".to_string());
    let mut t = TimelineScript::new(vec![spawn(SceneObject::Dialogue(d))]);
    t.update(0, &mut ctx).unwrap();
    assert!(ctx.renderer.entries.is_empty());
    assert_eq!(ctx.dialogue.entries.len(), 1);
    assert_eq!(ctx.dialogue.entries[0].object.text, "Hi there");
    assert_eq!(ctx.dialogue.entries[0].shown_milli, 0);
}

#[test]
fn missing_texture_stops_the_run() {
    let mut ctx = context(&["x.png"]);
    let mut t = TimelineScript::new(vec![
        spawn(sprite("x.png")),
        spawn(sprite("nope.png")),
        spawn(sprite("x.png")),
    ]);
    match t.update(0, &mut ctx) {
        Err(RenderError::TextureLoad(path)) => assert_eq!(path, "nope.png"),
        other => panic!("expected a texture load error, got {:?}", other),
    }
    // The command before the failing one was applied.
    assert_eq!(ctx.renderer.entries.len(), 1);
}

#[test]
fn time_slicing_is_equivalent() {
    // Driving by 700 ms then 800 ms leaves exactly the state of one
    // 1500 ms drive: scripted sequences are time-accurate, not
    // frame-accurate.
    let mut ctx_a = context(&["x.png", "y.png", "z.png"]);
    let mut a = xyz_timeline();
    a.update(700, &mut ctx_a).unwrap();
    a.update(800, &mut ctx_a).unwrap();

    let mut ctx_b = context(&["x.png", "y.png", "z.png"]);
    let mut b = xyz_timeline();
    b.update(1500, &mut ctx_b).unwrap();

    assert_eq!(a.wait_remaining, b.wait_remaining);
    assert_eq!(a.pending.len(), b.pending.len());
    let keys_a: Vec<String> = ctx_a
        .renderer
        .entries
        .iter()
        .map(|e| e.object.scene_key())
        .collect();
    let keys_b: Vec<String> = ctx_b
        .renderer
        .entries
        .iter()
        .map(|e| e.object.scene_key())
        .collect();
    assert_eq!(keys_a, keys_b);
}

#[test]
fn bootstrap_start_runs_zero_time_commands() {
    let mut ctx = context(&["x.png"]);
    let mut t = TimelineScript::new(vec![spawn(sprite("x.png")), wait(500)]);
    t.start(&mut ctx).unwrap();
    assert_eq!(ctx.renderer.entries.len(), 1);
    assert_eq!(t.wait_remaining, 500);
    assert!(!t.is_finished());
}
