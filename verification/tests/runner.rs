use scene_core::achievements::AchievementManager;
use scene_core::dialogue::DialogueState;
use scene_core::game_object::{GameObject2D, RenderLayer, SceneObject};
use scene_core::renderer::SceneRenderer;
use scene_core::scene_script::{
    spawn, wait, ScriptContext, ScriptKind, ScriptSignal, SceneRunner, TextureCatalog,
    TimelineScript,
};
use scene_core::scripts::{create_all_achievements, BlinkSpriteScript, Game};

fn sprite(texture: &str) -> GameObject2D {
    GameObject2D::new([0, 0], [0, 0], texture.to_string(), RenderLayer::Character, 0)
}

fn context(paths: &[&str]) -> ScriptContext {
    let mut textures = TextureCatalog::new();
    for p in paths {
        textures.add(p.to_string());
    }
    ScriptContext {
        renderer: SceneRenderer::init(800, 600),
        dialogue: DialogueState::new(),
        achievements: AchievementManager::from_definitions(create_all_achievements()).unwrap(),
        textures,
    }
}

#[test]
fn game_script_full_lifecycle() {
    let mut ctx = context(&["backdrop.png"]);
    let mut runner =
        SceneRunner::with_scripts(vec![ScriptKind::Game(Game::new(sprite("backdrop.png")))]);

    // First cycle: start runs, the intro dialogue and backdrop appear.
    runner.update(0, &mut ctx).unwrap();
    assert!(runner.scripts[0].started);
    assert!(ctx.achievements.is_unlocked("first_launch"));
    assert_eq!(ctx.dialogue.entries.len(), 1);
    assert!(!ctx.dialogue.entries[0].object.hidden);
    assert_eq!(ctx.dialogue.entries[0].object.speaker, "Ajzakun");
    assert_eq!(ctx.renderer.entries.len(), 1);
    assert!(!runner.is_finished());

    // A skip closes the intro on the next cycle.
    runner.send_signal(ScriptSignal::SkipWait);
    runner.update(16, &mut ctx).unwrap();
    assert!(runner.is_finished());
    assert!(ctx.dialogue.entries[0].object.hidden);
    assert!(ctx.renderer.entries[0].object.hidden);
    assert!(ctx.achievements.is_unlocked("intro_closed"));
    assert!(ctx.achievements.is_unlocked("intro_skipped"));
    assert!(ctx.achievements.is_unlocked("script_reward"));

    // A finished unit stays finished and untouched.
    let hidden_before = ctx.dialogue.entries[0].object.hidden;
    runner.update(16, &mut ctx).unwrap();
    assert!(runner.is_finished());
    assert_eq!(ctx.dialogue.entries[0].object.hidden, hidden_before);
}

#[test]
fn timeline_as_a_unit_starts_and_finishes() {
    let mut ctx = context(&["x.png"]);
    let timeline = TimelineScript::new(vec![spawn(SceneObject::Sprite(sprite("x.png"))), wait(100)]);
    let mut runner = SceneRunner::with_scripts(vec![ScriptKind::Timeline(timeline)]);

    runner.update(0, &mut ctx).unwrap();
    assert_eq!(ctx.renderer.entries.len(), 1);
    assert!(!runner.is_finished());

    runner.update(100, &mut ctx).unwrap();
    assert!(runner.is_finished());
}

#[test]
fn blink_toggles_by_whole_periods() {
    let mut ctx = context(&["lamp.png"]);
    let mut blink = BlinkSpriteScript::new(sprite("lamp.png"), 450);
    blink.start(&mut ctx).unwrap();
    assert!(blink.visible);
    assert!(!ctx.renderer.entries[0].object.hidden);

    // One whole period flips the sprite.
    blink.update(450, &mut ctx).unwrap();
    assert!(!blink.visible);
    assert!(ctx.renderer.entries[0].object.hidden);

    // Two whole periods in one stalled frame cancel out: no re-apply.
    let writes = ctx.renderer.entries[0].transform_writes;
    blink.update(900, &mut ctx).unwrap();
    assert!(!blink.visible);
    assert_eq!(ctx.renderer.entries[0].transform_writes, writes);

    // Partial time accrues until the next whole period.
    blink.update(225, &mut ctx).unwrap();
    assert!(!blink.visible);
    blink.update(225, &mut ctx).unwrap();
    assert!(blink.visible);
    assert!(!ctx.renderer.entries[0].object.hidden);
}

#[test]
fn blink_interval_is_clamped_to_a_millisecond() {
    let blink = BlinkSpriteScript::new(sprite("lamp.png"), 0);
    assert_eq!(blink.interval_ms, 1);
}

#[test]
fn signals_reach_every_unit_in_order() {
    let timeline = TimelineScript::new(vec![wait(1000)]);
    let game = Game::new(sprite("backdrop.png"));
    let mut runner =
        SceneRunner::with_scripts(vec![ScriptKind::Timeline(timeline), ScriptKind::Game(game)]);
    let mut ctx = context(&["backdrop.png"]);
    runner.update(0, &mut ctx).unwrap();

    runner.send_signal(ScriptSignal::SkipWait);
    match &runner.scripts[0].script {
        ScriptKind::Timeline(t) => assert_eq!(t.wait_remaining, 0),
        _ => panic!("unit kinds should keep their order"),
    }
    match &runner.scripts[1].script {
        ScriptKind::Game(g) => {
            assert!(g.close_requested);
            assert!(g.skip_signal_received);
        }
        _ => panic!("unit kinds should keep their order"),
    }
}

#[test]
fn registration_order_is_kept() {
    let mut runner = SceneRunner::new();
    runner.add_script(ScriptKind::Timeline(TimelineScript::new(vec![])));
    runner.add_script(ScriptKind::Game(Game::new(sprite("a.png"))));
    assert_eq!(runner.scripts.len(), 2);
    assert!(matches!(runner.scripts[0].script, ScriptKind::Timeline(_)));
    assert!(matches!(runner.scripts[1].script, ScriptKind::Game(_)));
    assert!(!runner.scripts[0].started);
}

#[test]
fn pre_finished_unit_is_still_started_once() {
    // A unit that reports finished before its bootstrap has run is still
    // started once, and only then treated as finished.
    let mut ctx = context(&[]);
    let timeline = TimelineScript::new(Vec::new());
    let mut runner = SceneRunner::with_scripts(vec![ScriptKind::Timeline(timeline)]);
    assert!(runner.is_finished());
    assert!(!runner.scripts[0].started);

    runner.update(0, &mut ctx).unwrap();
    assert!(runner.scripts[0].started);

    runner.update(16, &mut ctx).unwrap();
    assert!(runner.scripts[0].started);
    assert!(runner.is_finished());
}

#[test]
fn empty_runner_is_finished() {
    let runner = SceneRunner::new();
    assert!(runner.is_finished());
}
