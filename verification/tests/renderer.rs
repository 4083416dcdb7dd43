use scene_core::game_object::{GameObject2D, RenderLayer};
use scene_core::renderer::{RenderError, SceneRenderer};

fn sprite(texture: &str, layer: RenderLayer, z: i32) -> GameObject2D {
    GameObject2D::new([0, 0], [0, 0], texture.to_string(), layer, z)
}

#[test]
fn identity_stability_hidden_toggle_keeps_texture() {
    let mut r = SceneRenderer::init(800, 600);
    let hero = sprite("hero.png", RenderLayer::Character, 0).with_id("hero".to_string());
    r.apply_game_object_from_definition(hero.clone(), true).unwrap();
    assert_eq!(r.entries.len(), 1);
    let tex_counter = r.next_texture_id;
    let tex_id = r.entries[0].texture_id;
    let writes = r.entries[0].transform_writes;

    // Toggling only `hidden` needs no texture load at all: load_ok is false
    // here and the upsert must still succeed without recreating anything.
    let hidden = hero.clone().with_hidden(true);
    r.apply_game_object_from_definition(hidden, false).unwrap();
    assert_eq!(r.next_texture_id, tex_counter);
    assert_eq!(r.entries[0].texture_id, tex_id);
    assert_eq!(r.entries[0].transform_writes, writes + 1);
    assert!(r.entries[0].object.hidden);
    assert!(r.visible_indices().is_empty());
}

#[test]
fn key_collision_collapses_to_one_entry() {
    let mut r = SceneRenderer::init(800, 600);
    let a = sprite("tree.png", RenderLayer::Character, 3);
    let b = sprite("tree.png", RenderLayer::Character, 3);
    r.apply_game_object_from_definition(a, true).unwrap();
    r.apply_game_object_from_definition(b, true).unwrap();
    assert_eq!(r.entries.len(), 1);
    // The second upsert was an update, not an insert.
    assert_eq!(r.entries[0].transform_writes, 2);
    assert_eq!(r.next_order, 1);
}

#[test]
fn sort_stability_insertion_tiebreak() {
    let mut r = SceneRenderer::init(800, 600);
    let a = sprite("a.png", RenderLayer::Character, 5);
    let b = sprite("b.png", RenderLayer::Background, 1);
    let c = sprite("c.png", RenderLayer::Character, 5);
    r.apply_game_object_from_definition(a, true).unwrap();
    r.apply_game_object_from_definition(b, true).unwrap();
    r.apply_game_object_from_definition(c, true).unwrap();
    let order: Vec<&str> = r
        .entries
        .iter()
        .map(|e| e.object.texture_path.as_str())
        .collect();
    assert_eq!(order, vec!["b.png", "a.png", "c.png"]);
}

#[test]
fn texture_reload_isolation() {
    let mut r = SceneRenderer::init(800, 600);
    let hero = sprite("hero.png", RenderLayer::Character, 0).with_id("hero".to_string());
    r.apply_game_object_from_definition(hero, true).unwrap();
    let buffer_identity = r.entries[0].order;
    let old_tex = r.entries[0].texture_id;
    let tex_counter = r.next_texture_id;
    let writes = r.entries[0].transform_writes;

    let reskinned = sprite("hero2.png", RenderLayer::Character, 0).with_id("hero".to_string());
    r.apply_game_object_from_definition(reskinned, true).unwrap();
    assert_eq!(r.entries.len(), 1);
    // The texture binding was recreated ...
    assert_eq!(r.entries[0].texture_id, tex_counter);
    assert_ne!(r.entries[0].texture_id, old_tex);
    assert_eq!(r.next_texture_id, tex_counter + 1);
    // ... while the transform buffer is the same one, written exactly once
    // more (no spurious extra write).
    assert_eq!(r.entries[0].order, buffer_identity);
    assert_eq!(r.entries[0].transform_writes, writes + 1);
}

#[test]
fn draw_order_change_resorts() {
    let mut r = SceneRenderer::init(800, 600);
    let a = sprite("a.png", RenderLayer::Character, 1).with_id("a".to_string());
    let b = sprite("b.png", RenderLayer::Character, 2).with_id("b".to_string());
    r.apply_game_object_from_definition(a, true).unwrap();
    r.apply_game_object_from_definition(b, true).unwrap();
    assert_eq!(r.entries[0].object.texture_path, "a.png");

    // Push a above b; the list is re-sorted, the texture untouched.
    let raised = sprite("a.png", RenderLayer::Character, 9).with_id("a".to_string());
    let tex_counter = r.next_texture_id;
    r.apply_game_object_from_definition(raised, true).unwrap();
    assert_eq!(r.entries[0].object.texture_path, "b.png");
    assert_eq!(r.entries[1].object.texture_path, "a.png");
    assert_eq!(r.next_texture_id, tex_counter);
}

#[test]
fn failed_texture_load_leaves_state_unchanged() {
    let mut r = SceneRenderer::init(800, 600);
    let bad = sprite("missing.png", RenderLayer::Ui, 0);
    match r.apply_game_object_from_definition(bad, false) {
        Err(RenderError::TextureLoad(path)) => assert_eq!(path, "missing.png"),
        other => panic!("expected a texture load error, got {:?}", other),
    }
    assert!(r.entries.is_empty());
    assert_eq!(r.next_order, 0);
    assert_eq!(r.next_texture_id, 0);
}

#[test]
fn hidden_entries_skipped_at_draw_time() {
    let mut r = SceneRenderer::init(800, 600);
    r.apply_game_object_from_definition(sprite("a.png", RenderLayer::Background, 0), true)
        .unwrap();
    r.apply_game_object_from_definition(
        sprite("b.png", RenderLayer::Character, 0).with_hidden(true),
        true,
    )
    .unwrap();
    r.apply_game_object_from_definition(sprite("c.png", RenderLayer::Ui, 0), true)
        .unwrap();
    assert_eq!(r.visible_indices(), vec![0, 2]);
}

#[test]
fn resize_rewrites_every_transform() {
    let mut r = SceneRenderer::init(800, 600);
    r.apply_game_object_from_definition(sprite("a.png", RenderLayer::Background, 0), true)
        .unwrap();
    r.apply_game_object_from_definition(sprite("b.png", RenderLayer::Ui, 0), true)
        .unwrap();
    let writes: Vec<u64> = r.entries.iter().map(|e| e.transform_writes).collect();
    r.resize(1024, 768);
    assert_eq!(r.viewport, [1024, 768]);
    for (entry, w) in r.entries.iter().zip(writes) {
        assert_eq!(entry.transform_writes, w + 1);
    }
}

#[test]
fn create_helpers_route_through_upsert() {
    let mut r = SceneRenderer::init(800, 600);
    r.create_game_object([1, 2], [3, 4], "t.png".to_string(), true)
        .unwrap();
    assert_eq!(r.entries.len(), 1);
    assert_eq!(r.entries[0].object.layer, RenderLayer::Character);
    assert_eq!(r.entries[0].object.z_index, 0);
    r.create_game_object_layered([1, 2], [3, 4], "u.png".to_string(), RenderLayer::Ui, 7, true)
        .unwrap();
    assert_eq!(r.entries.len(), 2);
    assert_eq!(r.entries[1].object.z_index, 7);
}
