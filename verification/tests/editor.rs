use snip::editor::{shortcut_for_key, EditorState, Shortcut, KEY_LOWER_Z, KEY_UPPER_Z};
use snip::history::History;

type Rgba = [f32; 4];

fn editor() -> EditorState<f64, Rgba, f64> {
    EditorState::new([1.0, 0.2, 0.2, 1.0], 2.0)
}

fn draw(e: &mut EditorState<f64, Rgba, f64>, x: f64) {
    e.press(x, 0.0);
    e.motion(x, 1.0);
    assert!(e.release());
}

#[test]
fn history_commit_undo_redo() {
    let mut h: History<u32> = History::new();
    h.commit(1);
    h.commit(2);
    h.undo();
    assert_eq!(h.annotations, vec![1]);
    assert_eq!(h.redo_stack, vec![2]);
    h.redo();
    assert_eq!(h.annotations, vec![1, 2]);
    assert!(h.redo_stack.is_empty());
}

#[test]
fn history_commit_clears_redo() {
    let mut h: History<u32> = History::new();
    h.commit(1);
    h.commit(2);
    h.undo();
    h.undo();
    assert_eq!(h.redo_stack, vec![2, 1]);
    h.commit(3);
    assert_eq!(h.annotations, vec![3]);
    assert!(h.redo_stack.is_empty());
}

#[test]
fn history_undo_redo_on_empty_do_nothing() {
    let mut h: History<u32> = History::new();
    h.undo();
    h.redo();
    assert!(h.annotations.is_empty());
    assert!(h.redo_stack.is_empty());
    h.commit(5);
    h.redo();
    assert_eq!(h.annotations, vec![5]);
}

#[test]
fn shortcut_keys() {
    assert_eq!(shortcut_for_key(true, false, KEY_LOWER_Z), Some(Shortcut::Undo));
    assert_eq!(shortcut_for_key(true, true, KEY_LOWER_Z), Some(Shortcut::Redo));
    assert_eq!(shortcut_for_key(true, true, KEY_UPPER_Z), Some(Shortcut::Redo));
    assert_eq!(shortcut_for_key(true, false, KEY_UPPER_Z), Some(Shortcut::Redo));
    assert_eq!(shortcut_for_key(false, false, KEY_LOWER_Z), None);
    assert_eq!(shortcut_for_key(false, true, KEY_UPPER_Z), None);
    assert_eq!(shortcut_for_key(true, false, 'y' as u32), None);
    assert_eq!(KEY_LOWER_Z, 'z' as u32);
    assert_eq!(KEY_UPPER_Z, 'Z' as u32);
}

#[test]
fn editor_release_commits_only_real_strokes() {
    let mut e = editor();
    e.press(1.0, 1.0);
    assert!(!e.release());
    assert!(e.annotations().is_empty());
    draw(&mut e, 1.0);
    assert_eq!(e.annotations().len(), 1);
    assert_eq!(e.annotations()[0].points, vec![(1.0, 0.0), (1.0, 1.0)]);
    assert!(e.current_stroke().is_none());
}

#[test]
fn editor_keys_undo_and_redo() {
    let mut e = editor();
    draw(&mut e, 1.0);
    draw(&mut e, 2.0);
    assert!(e.key_pressed(true, false, KEY_LOWER_Z));
    assert_eq!(e.annotations().len(), 1);
    assert_eq!(e.history.redo_stack.len(), 1);
    assert!(e.key_pressed(true, true, KEY_LOWER_Z));
    assert_eq!(e.annotations().len(), 2);
    assert_eq!(e.annotations()[1].points[0], (2.0, 0.0));
    assert!(!e.key_pressed(false, false, KEY_LOWER_Z));
    assert_eq!(e.annotations().len(), 2);
}

#[test]
fn editor_new_stroke_drops_redo() {
    let mut e = editor();
    draw(&mut e, 1.0);
    e.undo();
    assert_eq!(e.history.redo_stack.len(), 1);
    draw(&mut e, 3.0);
    assert!(e.history.redo_stack.is_empty());
    assert_eq!(e.annotations().len(), 1);
    e.redo();
    assert_eq!(e.annotations().len(), 1);
}

#[test]
fn editor_colour_and_width_apply_to_next_stroke() {
    let mut e = editor();
    e.set_color([0.2, 0.8, 0.2, 1.0]);
    e.set_width(8.0);
    e.press(0.0, 0.0);
    assert_eq!(e.current_stroke().unwrap().color, [0.2, 0.8, 0.2, 1.0]);
    e.motion(1.0, 1.0);
    assert!(e.release());
    assert_eq!(e.annotations()[0].width, 8.0);
}
