use scene_core::game_object::{DialogueBoxObject, GameObject2D, RenderLayer};

#[test]
fn sprite_auto_key_lists_every_structural_field() {
    let o = GameObject2D::new(
        [1065353216, 3212836864],
        [1056964608, 1056964608],
        "tree.png".to_string(),
        RenderLayer::Ui,
        20,
    );
    assert_eq!(
        o.scene_key(),
        "auto:tree.png:1065353216:3212836864:1056964608:1056964608:2:20"
    );
}

#[test]
fn sprite_auto_key_renders_negative_z() {
    let o = GameObject2D::new([0, 0], [0, 0], "t.png".to_string(), RenderLayer::Background, -7);
    assert_eq!(o.scene_key(), "auto:t.png:0:0:0:0:0:-7");
}

#[test]
fn explicit_id_dominates_the_key() {
    let a = GameObject2D::new([1, 2], [3, 4], "a.png".to_string(), RenderLayer::Character, 0)
        .with_id("hero".to_string());
    let b = GameObject2D::new([9, 9], [9, 9], "b.png".to_string(), RenderLayer::Ui, 5)
        .with_id("hero".to_string());
    assert_eq!(a.scene_key(), "id:hero");
    assert_eq!(a.scene_key(), b.scene_key());
}

#[test]
fn auto_keys_differ_when_any_field_differs() {
    let base = GameObject2D::new([1, 2], [3, 4], "a.png".to_string(), RenderLayer::Character, 0);
    let moved = GameObject2D::new([5, 2], [3, 4], "a.png".to_string(), RenderLayer::Character, 0);
    let relayered = GameObject2D::new([1, 2], [3, 4], "a.png".to_string(), RenderLayer::Ui, 0);
    assert_ne!(base.scene_key(), moved.scene_key());
    assert_ne!(base.scene_key(), relayered.scene_key());
}

#[test]
fn dialogue_keys() {
    let d = DialogueBoxObject::new("Hello".to_string());
    assert_eq!(d.speaker, "Lena");
    assert_eq!(d.scene_key(), "auto:Lena:Hello");

    let named = DialogueBoxObject::new("Hello".to_string()).with_speaker("Ann".to_string());
    assert_eq!(named.scene_key(), "auto:Ann:Hello");

    let pinned = DialogueBoxObject::new("Hello".to_string()).with_id("intro".to_string());
    assert_eq!(pinned.scene_key(), "id:intro");
}

#[test]
fn hidden_does_not_enter_the_key() {
    let shown = GameObject2D::new([1, 2], [3, 4], "a.png".to_string(), RenderLayer::Character, 0);
    let hidden = shown.clone().with_hidden(true);
    assert_eq!(shown.scene_key(), hidden.scene_key());
}

#[test]
fn render_sort_key_orders_layers() {
    assert_eq!(RenderLayer::Background.order(), 0);
    assert_eq!(RenderLayer::Character.order(), 1);
    assert_eq!(RenderLayer::Ui.order(), 2);
    let o = GameObject2D::new([0, 0], [0, 0], "a.png".to_string(), RenderLayer::Ui, -3);
    assert_eq!(o.render_sort_key(), (2, -3));
}
