use securepad::editor::Editor;

#[test]
fn a_clean_buffer_never_wants_an_autosave() {
    let ed = Editor::new("text", 0);
    assert!(!ed.autosave_due(0));
    assert!(!ed.autosave_due(5));
    assert!(!ed.autosave_due(1_000_000));
}

#[test]
fn autosave_fires_once_the_interval_has_elapsed() {
    let mut ed = Editor::new("text", 0);
    ed.insert_char('!');
    assert!(ed.is_modified());
    assert!(!ed.autosave_due(0));
    assert!(!ed.autosave_due(4));
    assert!(ed.autosave_due(5));
    assert!(ed.autosave_due(17));
}

#[test]
fn recording_a_save_clears_the_flag_and_resets_the_timer() {
    let mut ed = Editor::new("text", 0);
    ed.insert_char('!');
    assert!(ed.autosave_due(7));
    let saved = ed.save();
    assert_eq!(saved.as_str(), "!text");
    ed.mark_saved(7);
    assert!(!ed.is_modified());
    assert!(!ed.autosave_due(11));
    ed.insert_char('?');
    assert!(!ed.autosave_due(11));
    assert!(ed.autosave_due(12));
}

#[test]
fn the_clock_never_runs_backwards_past_the_last_save() {
    let mut ed = Editor::new("text", 10);
    ed.insert_char('!');
    assert!(!ed.autosave_due(3));
    assert!(!ed.autosave_due(14));
    assert!(ed.autosave_due(15));
}

#[test]
fn cursor_moves_alone_never_trigger_an_autosave() {
    let mut ed = Editor::new("ab\ncd", 0);
    ed.move_down();
    ed.move_right();
    ed.move_up();
    assert!(!ed.autosave_due(100));
}
