use hydroshot::edits::{
    add_annotation, begin_text_edit, cancel_text_edit, commit_text_edit, delete_annotation,
    replace_annotation,
};
use hydroshot::undo::{apply_redo, apply_undo, record_undo, UndoAction, UNDO_STACK_CAP};

#[derive(Debug, Clone, PartialEq)]
enum Annotation {
    Arrow { start: (f32, f32), end: (f32, f32), thickness: f32 },
    Text { position: (f32, f32), text: String },
}

fn make_arrow() -> Annotation {
    Annotation::Arrow { start: (0.0, 0.0), end: (100.0, 100.0), thickness: 3.0 }
}

fn move_annotation(ann: &mut Annotation, dx: f32, dy: f32) {
    match ann {
        Annotation::Arrow { start, end, .. } => {
            start.0 += dx;
            start.1 += dy;
            end.0 += dx;
            end.1 += dy;
        }
        Annotation::Text { position, .. } => {
            position.0 += dx;
            position.1 += dy;
        }
    }
}

#[test]
fn test_undo_add() {
    let mut annotations = vec![];
    let mut undo_stack = vec![];
    let mut redo_stack = vec![];

    // Simulate adding an annotation
    let ann = make_arrow();
    annotations.push(ann);
    record_undo(&mut undo_stack, &mut redo_stack, UndoAction::Add(0));

    assert_eq!(annotations.len(), 1);

    // Undo should remove it
    let result = apply_undo(&mut annotations, &mut undo_stack, &mut redo_stack);
    assert!(result);
    assert_eq!(annotations.len(), 0);

    // Redo should restore it
    let result = apply_redo(&mut annotations, &mut undo_stack, &mut redo_stack);
    assert!(result);
    assert_eq!(annotations.len(), 1);
}

#[test]
fn test_undo_delete() {
    let ann = make_arrow();
    let mut annotations = vec![ann.clone()];
    let mut undo_stack = vec![];
    let mut redo_stack = vec![];

    // Simulate delete
    let removed = annotations.remove(0);
    record_undo(&mut undo_stack, &mut redo_stack, UndoAction::Delete(0, removed));
    assert_eq!(annotations.len(), 0);

    // Undo should restore
    let result = apply_undo(&mut annotations, &mut undo_stack, &mut redo_stack);
    assert!(result);
    assert_eq!(annotations.len(), 1);

    // Redo should delete again
    let result = apply_redo(&mut annotations, &mut undo_stack, &mut redo_stack);
    assert!(result);
    assert_eq!(annotations.len(), 0);
}

#[test]
fn test_undo_modify() {
    let ann = make_arrow();
    let mut annotations = vec![ann.clone()];
    let mut undo_stack = vec![];
    let mut redo_stack = vec![];

    // Simulate modify (move)
    let old = annotations[0].clone();
    move_annotation(&mut annotations[0], 50.0, 50.0);
    record_undo(&mut undo_stack, &mut redo_stack, UndoAction::Modify(0, old));

    // Verify moved
    match &annotations[0] {
        Annotation::Arrow { start, .. } => assert_eq!(start.0, 50.0),
        _ => panic!("Expected Arrow"),
    }

    // Undo should restore original position
    apply_undo(&mut annotations, &mut undo_stack, &mut redo_stack);
    match &annotations[0] {
        Annotation::Arrow { start, .. } => assert_eq!(start.0, 0.0),
        _ => panic!("Expected Arrow"),
    }

    // Redo should re-apply the move
    apply_redo(&mut annotations, &mut undo_stack, &mut redo_stack);
    match &annotations[0] {
        Annotation::Arrow { start, .. } => assert_eq!(start.0, 50.0),
        _ => panic!("Expected Arrow"),
    }
}

#[test]
fn test_undo_stack_cap() {
    let mut undo_stack: Vec<UndoAction<Annotation>> = vec![];
    let mut redo_stack = vec![];

    // Push 55 actions; cap is 50
    for i in 0..55 {
        record_undo(&mut undo_stack, &mut redo_stack, UndoAction::Add(i));
    }
    assert_eq!(undo_stack.len(), 50);
}

#[test]
fn test_new_action_clears_redo() {
    let ann = make_arrow();
    let mut annotations = vec![ann];
    let mut undo_stack = vec![];
    let mut redo_stack = vec![];

    // Record an add, then undo to populate redo
    record_undo(&mut undo_stack, &mut redo_stack, UndoAction::Add(0));
    apply_undo(&mut annotations, &mut undo_stack, &mut redo_stack);
    assert_eq!(redo_stack.len(), 1);

    // A new action should clear redo
    annotations.push(make_arrow());
    record_undo(&mut undo_stack, &mut redo_stack, UndoAction::Add(0));
    assert_eq!(redo_stack.len(), 0);
}

#[test]
fn test_undo_empty_stack_returns_false() {
    let mut annotations: Vec<Annotation> = vec![];
    let mut undo_stack = vec![];
    let mut redo_stack = vec![];

    let result = apply_undo(&mut annotations, &mut undo_stack, &mut redo_stack);
    assert!(!result);
}

#[test]
fn test_redo_empty_stack_returns_false() {
    let mut annotations: Vec<Annotation> = vec![];
    let mut undo_stack = vec![];
    let mut redo_stack = vec![];

    let result = apply_redo(&mut annotations, &mut undo_stack, &mut redo_stack);
    assert!(!result);
}

#[test]
fn cap_drops_the_oldest_actions() {
    let mut undo_stack: Vec<UndoAction<Annotation>> = vec![];
    let mut redo_stack = vec![];
    for i in 0..(UNDO_STACK_CAP + 3) {
        record_undo(&mut undo_stack, &mut redo_stack, UndoAction::Add(i));
    }
    match undo_stack[0] {
        UndoAction::Add(i) => assert_eq!(i, 3),
        _ => panic!("Expected Add"),
    }
    match undo_stack[UNDO_STACK_CAP - 1] {
        UndoAction::Add(i) => assert_eq!(i, UNDO_STACK_CAP + 2),
        _ => panic!("Expected Add"),
    }
}

#[test]
fn undo_of_stale_add_changes_nothing() {
    let mut annotations = vec![make_arrow()];
    let mut undo_stack = vec![UndoAction::Add(5)];
    let mut redo_stack = vec![];
    assert!(apply_undo(&mut annotations, &mut undo_stack, &mut redo_stack));
    assert_eq!(annotations.len(), 1);
    assert!(undo_stack.is_empty());
    assert!(redo_stack.is_empty());
}

#[test]
fn add_then_undo_then_redo() {
    let mut annotations = vec![make_arrow()];
    let mut undo_stack = vec![];
    let mut redo_stack = vec![];
    let text = Annotation::Text { position: (1.0, 2.0), text: "hi".to_string() };
    add_annotation(&mut annotations, &mut undo_stack, &mut redo_stack, text.clone());
    assert_eq!(annotations, vec![make_arrow(), text.clone()]);
    apply_undo(&mut annotations, &mut undo_stack, &mut redo_stack);
    assert_eq!(annotations, vec![make_arrow()]);
    apply_redo(&mut annotations, &mut undo_stack, &mut redo_stack);
    assert_eq!(annotations, vec![make_arrow(), text]);
}

#[test]
fn delete_selected_then_undo_restores_position() {
    let a = make_arrow();
    let b = Annotation::Text { position: (5.0, 5.0), text: "b".to_string() };
    let c = Annotation::Text { position: (9.0, 9.0), text: "c".to_string() };
    let mut annotations = vec![a.clone(), b.clone(), c.clone()];
    let mut undo_stack = vec![];
    let mut redo_stack = vec![];
    assert!(delete_annotation(&mut annotations, &mut undo_stack, &mut redo_stack, 1));
    assert_eq!(annotations, vec![a.clone(), c.clone()]);
    assert!(!delete_annotation(&mut annotations, &mut undo_stack, &mut redo_stack, 7));
    apply_undo(&mut annotations, &mut undo_stack, &mut redo_stack);
    assert_eq!(annotations, vec![a, b, c]);
}

#[test]
fn replace_then_undo_restores_old_version() {
    let a = make_arrow();
    let mut moved = a.clone();
    move_annotation(&mut moved, 10.0, 0.0);
    let mut annotations = vec![a.clone()];
    let mut undo_stack = vec![];
    let mut redo_stack = vec![];
    assert!(replace_annotation(&mut annotations, &mut undo_stack, &mut redo_stack, 0, moved.clone()));
    assert_eq!(annotations, vec![moved.clone()]);
    apply_undo(&mut annotations, &mut undo_stack, &mut redo_stack);
    assert_eq!(annotations, vec![a]);
    apply_redo(&mut annotations, &mut undo_stack, &mut redo_stack);
    assert_eq!(annotations, vec![moved]);
}

#[test]
fn text_re_edit_is_one_undo_step() {
    let a = make_arrow();
    let t = Annotation::Text { position: (3.0, 4.0), text: "old".to_string() };
    let mut annotations = vec![a.clone(), t.clone()];
    let mut undo_stack = vec![];
    let mut redo_stack = vec![];

    let origin = begin_text_edit(&mut annotations, 1);
    assert_eq!(annotations, vec![a.clone()]);
    let edited = Annotation::Text { position: (3.0, 4.0), text: "new".to_string() };
    commit_text_edit(&mut annotations, &mut undo_stack, &mut redo_stack, origin, Some(edited.clone()));
    assert_eq!(annotations, vec![a.clone(), edited]);
    assert_eq!(undo_stack.len(), 1);
    apply_undo(&mut annotations, &mut undo_stack, &mut redo_stack);
    assert_eq!(annotations, vec![a, t]);
}

#[test]
fn clearing_re_edited_text_deletes_it_undoably() {
    let t = Annotation::Text { position: (3.0, 4.0), text: "old".to_string() };
    let mut annotations = vec![t.clone()];
    let mut undo_stack = vec![];
    let mut redo_stack = vec![];
    let origin = begin_text_edit(&mut annotations, 0);
    commit_text_edit(&mut annotations, &mut undo_stack, &mut redo_stack, origin, None);
    assert!(annotations.is_empty());
    apply_undo(&mut annotations, &mut undo_stack, &mut redo_stack);
    assert_eq!(annotations, vec![t]);
}

#[test]
fn new_text_commit_adds_and_empty_text_records_nothing() {
    let mut annotations = vec![];
    let mut undo_stack = vec![];
    let mut redo_stack = vec![];
    commit_text_edit(&mut annotations, &mut undo_stack, &mut redo_stack, None, None);
    assert!(annotations.is_empty());
    assert!(undo_stack.is_empty());
    let t = Annotation::Text { position: (0.0, 0.0), text: "x".to_string() };
    commit_text_edit(&mut annotations, &mut undo_stack, &mut redo_stack, None, Some(t.clone()));
    assert_eq!(annotations, vec![t]);
    assert_eq!(undo_stack.len(), 1);
}

#[test]
fn cancelled_re_edit_puts_text_back() {
    let a = make_arrow();
    let t = Annotation::Text { position: (3.0, 4.0), text: "old".to_string() };
    let mut annotations = vec![t.clone(), a.clone()];
    let origin = begin_text_edit(&mut annotations, 0);
    assert_eq!(annotations, vec![a.clone()]);
    cancel_text_edit(&mut annotations, origin);
    assert_eq!(annotations, vec![t, a]);
    assert!(begin_text_edit(&mut annotations, 9).is_none());
}
