use scene_core::dialogue::DialogueState;
use scene_core::game_object::DialogueBoxObject;

fn in_game_state() -> DialogueState {
    let mut d = DialogueState::new();
    d.main_menu_enabled = false;
    d
}

#[test]
fn typewriter_reveals_at_the_configured_rate() {
    let mut d = in_game_state();
    assert_eq!(d.chars_per_second, 40);
    d.apply_dialogue_object(DialogueBoxObject::new("Hello".to_string()));

    // 100 ms at 40 chars/s reveals 4 whole characters.
    let ticked = d.advance_typing(100);
    assert!(ticked);
    assert_eq!(d.shown_chars(0), 4);
    assert_eq!(d.revealed_text(0), "Hell");
    assert!(!d.fully_revealed(0));

    // Another 100 ms clamps at the text length.
    let ticked = d.advance_typing(100);
    assert!(ticked);
    assert_eq!(d.shown_chars(0), 5);
    assert_eq!(d.revealed_text(0), "Hello");
    assert!(d.fully_revealed(0));

    // Fully revealed: no further tick.
    let ticked = d.advance_typing(100);
    assert!(!ticked);
    assert_eq!(d.shown_chars(0), 5);
}

#[test]
fn typewriter_monotone_under_any_frame_times() {
    let mut d = in_game_state();
    d.apply_dialogue_object(DialogueBoxObject::new("A somewhat longer line".to_string()));
    let total = "A somewhat longer line".chars().count();
    let mut last = 0;
    for dt in [0u64, 3, 16, 1, 250, 0, 7, 40, 1000, 2] {
        d.advance_typing(dt);
        let shown = d.shown_chars(0);
        assert!(shown >= last);
        assert!(shown <= total);
        last = shown;
    }
}

#[test]
fn text_change_resets_reveal() {
    let mut d = in_game_state();
    let line = DialogueBoxObject::new("Hello".to_string()).with_id("box".to_string());
    d.apply_dialogue_object(line);
    d.advance_typing(100);
    assert_eq!(d.shown_chars(0), 4);

    let edited = DialogueBoxObject::new("Goodbye".to_string()).with_id("box".to_string());
    d.apply_dialogue_object(edited);
    assert_eq!(d.entries.len(), 1);
    assert_eq!(d.shown_chars(0), 0);
    assert_eq!(d.entries[0].object.text, "Goodbye");
}

#[test]
fn becoming_visible_again_resets_reveal() {
    let mut d = in_game_state();
    let line = DialogueBoxObject::new("Hello".to_string()).with_id("box".to_string());
    d.apply_dialogue_object(line.clone());
    d.advance_typing(100);
    assert_eq!(d.shown_chars(0), 4);

    // Hiding alone keeps the progress ...
    d.apply_dialogue_object(line.clone().with_hidden(true));
    assert_eq!(d.shown_chars(0), 4);
    // ... and becoming visible again restarts it.
    d.apply_dialogue_object(line);
    assert_eq!(d.shown_chars(0), 0);
}

#[test]
fn hidden_dialogues_do_not_advance() {
    let mut d = in_game_state();
    d.apply_dialogue_object(DialogueBoxObject::new("Hello".to_string()).with_hidden(true));
    let ticked = d.advance_typing(1000);
    assert!(!ticked);
    assert_eq!(d.shown_chars(0), 0);
}

#[test]
fn main_menu_freezes_the_reveal() {
    let mut d = DialogueState::new();
    assert!(d.main_menu_enabled);
    d.apply_dialogue_object(DialogueBoxObject::new("Hello".to_string()));
    let ticked = d.advance_typing(1000);
    assert!(!ticked);
    assert_eq!(d.shown_chars(0), 0);
    assert!(!d.has_active_typewriter_animation());
    assert!(d.can_skip_wait());
}

#[test]
fn disabled_typewriter_shows_everything_at_once() {
    let mut d = in_game_state();
    d.typewriter_enabled = false;
    d.apply_dialogue_object(DialogueBoxObject::new("Hello".to_string()));
    let ticked = d.advance_typing(0);
    assert!(ticked);
    assert_eq!(d.shown_chars(0), 5);
    assert!(!d.has_active_typewriter_animation());
}

#[test]
fn animation_status_follows_visible_progress() {
    let mut d = in_game_state();
    d.apply_dialogue_object(DialogueBoxObject::new("Hello".to_string()));
    assert!(d.has_active_typewriter_animation());
    assert!(!d.can_skip_wait());
    d.advance_typing(1000);
    assert!(!d.has_active_typewriter_animation());
    assert!(d.can_skip_wait());
}

#[test]
fn auto_keyed_dialogues_collapse_by_identity() {
    let mut d = in_game_state();
    d.apply_dialogue_object(DialogueBoxObject::new("Hello".to_string()));
    d.apply_dialogue_object(DialogueBoxObject::new("Hello".to_string()));
    assert_eq!(d.entries.len(), 1);
    d.apply_dialogue_object(DialogueBoxObject::new("Other".to_string()));
    assert_eq!(d.entries.len(), 2);
}

#[test]
fn unicode_text_counts_characters_not_bytes() {
    let mut d = in_game_state();
    d.apply_dialogue_object(DialogueBoxObject::new("Привет".to_string()));
    d.advance_typing(100);
    assert_eq!(d.shown_chars(0), 4);
    assert_eq!(d.revealed_text(0), "Прив");
}
