//! Edits of the annotation list that are recorded for undo: adding a finished
//! annotation, deleting the selected one, replacing one (recolor), and the
//! in-place text edit session (take an annotation out, then commit or cancel).

use vstd::prelude::*;
use crate::undo::{UndoAction, capped, undo_step, record_undo, lemma_record_then_undo};

verus! {

/// The list after a recorded edit and the action recorded for it (`None`
/// when nothing changed and nothing is recorded).
pub open spec fn recorded<A>(
    old_undo: Seq<UndoAction<A>>,
    old_redo: Seq<UndoAction<A>>,
    action: Option<UndoAction<A>>,
    undo: Seq<UndoAction<A>>,
    redo: Seq<UndoAction<A>>,
) -> bool {
    match action {
        Some(a) => undo == capped(old_undo.push(a)) && redo.len() == 0,
        None => undo == old_undo && redo == old_redo,
    }
}

/// Append a finished annotation and record it as an `Add` at its index.
pub fn add_annotation<A>(
    annotations: &mut Vec<A>,
    undo_stack: &mut Vec<UndoAction<A>>,
    redo_stack: &mut Vec<UndoAction<A>>,
    annotation: A,
)
    requires
        old(annotations)@.len() < usize::MAX,
    ensures
        final(annotations)@ == old(annotations)@.push(annotation),
        final(undo_stack)@ == capped(old(undo_stack)@.push(UndoAction::Add(old(annotations)@.len() as usize))),
        final(redo_stack)@.len() == 0,
{
    annotations.push(annotation);
    let idx = annotations.len() - 1;
    record_undo(undo_stack, redo_stack, UndoAction::Add(idx));
}

/// Delete the annotation at `idx` and record the deletion; returns `false`
/// (changing nothing) when there is no annotation at `idx`.
pub fn delete_annotation<A>(
    annotations: &mut Vec<A>,
    undo_stack: &mut Vec<UndoAction<A>>,
    redo_stack: &mut Vec<UndoAction<A>>,
    idx: usize,
) -> (deleted: bool)
    ensures
        deleted == (idx < old(annotations)@.len()),
        deleted ==> final(annotations)@ == old(annotations)@.remove(idx as int),
        deleted ==> final(undo_stack)@ == capped(old(undo_stack)@.push(
            UndoAction::Delete(idx, old(annotations)@[idx as int]))),
        deleted ==> final(redo_stack)@.len() == 0,
        !deleted ==> final(annotations)@ == old(annotations)@ && final(undo_stack)@ == old(undo_stack)@
            && final(redo_stack)@ == old(redo_stack)@,
{
    if idx < annotations.len() {
        let removed = annotations.remove(idx);
        record_undo(undo_stack, redo_stack, UndoAction::Delete(idx, removed));
        true
    } else {
        false
    }
}

/// Replace the annotation at `idx` with `updated` and record the old version
/// as a `Modify`; returns `false` (changing nothing) when there is no
/// annotation at `idx`.
pub fn replace_annotation<A>(
    annotations: &mut Vec<A>,
    undo_stack: &mut Vec<UndoAction<A>>,
    redo_stack: &mut Vec<UndoAction<A>>,
    idx: usize,
    updated: A,
) -> (replaced: bool)
    ensures
        replaced == (idx < old(annotations)@.len()),
        replaced ==> final(annotations)@ == old(annotations)@.update(idx as int, updated),
        replaced ==> final(undo_stack)@ == capped(old(undo_stack)@.push(
            UndoAction::Modify(idx, old(annotations)@[idx as int]))),
        replaced ==> final(redo_stack)@.len() == 0,
        !replaced ==> final(annotations)@ == old(annotations)@ && final(undo_stack)@ == old(undo_stack)@
            && final(redo_stack)@ == old(redo_stack)@,
{
    if idx < annotations.len() {
        let previous = annotations.remove(idx);
        annotations.insert(idx, updated);
        assert(annotations@ =~= old(annotations)@.update(idx as int, updated));
        record_undo(undo_stack, redo_stack, UndoAction::Modify(idx, previous));
        true
    } else {
        false
    }
}

/// Start editing the annotation at `idx` in place: it is taken out of the
/// list and handed back with its index (`None`, changing nothing, when there
/// is no annotation at `idx`).
pub fn begin_text_edit<A>(annotations: &mut Vec<A>, idx: usize) -> (origin: Option<(usize, A)>)
    ensures
        idx < old(annotations)@.len() ==> origin == Some((idx, old(annotations)@[idx as int]))
            && final(annotations)@ == old(annotations)@.remove(idx as int),
        idx >= old(annotations)@.len() ==> origin is None && final(annotations)@ == old(annotations)@,
{
    if idx < annotations.len() {
        let removed = annotations.remove(idx);
        Some((idx, removed))
    } else {
        None
    }
}

/// Where an edited annotation goes back: its old index, or the end of the
/// list if the list has become shorter.
pub open spec fn clamp_index(idx: usize, len: nat) -> usize {
    if idx < len { idx } else { len as usize }
}

/// The outcome of committing a text edit: the new list and the action to
/// record. Re-editing an annotation records one `Modify` (or a `Delete` when
/// the text was cleared); a new text records an `Add`; an empty new text
/// changes nothing.
pub open spec fn commit_outcome<A>(ann: Seq<A>, origin: Option<(usize, A)>, text: Option<A>) -> (Seq<A>, Option<UndoAction<A>>) {
    match origin {
        Some((idx, before)) => {
            let i = clamp_index(idx, ann.len());
            match text {
                Some(t) => (ann.insert(i as int, t), Some(UndoAction::Modify(i, before))),
                None => (ann, Some(UndoAction::Delete(i, before))),
            }
        },
        None => match text {
            Some(t) => (ann.push(t), Some(UndoAction::Add(ann.len() as usize))),
            None => (ann, None),
        },
    }
}

/// Commit the text being edited. `origin` is what [`begin_text_edit`] took
/// out (if this is a re-edit); `text` is the finished annotation, or `None`
/// when the text buffer is empty.
pub fn commit_text_edit<A>(
    annotations: &mut Vec<A>,
    undo_stack: &mut Vec<UndoAction<A>>,
    redo_stack: &mut Vec<UndoAction<A>>,
    origin: Option<(usize, A)>,
    text: Option<A>,
)
    requires
        old(annotations)@.len() < usize::MAX,
    ensures
        final(annotations)@ == commit_outcome(old(annotations)@, origin, text).0,
        recorded(old(undo_stack)@, old(redo_stack)@, commit_outcome(old(annotations)@, origin, text).1,
            final(undo_stack)@, final(redo_stack)@),
{
    match origin {
        Some((idx, before)) => {
            let i = if idx < annotations.len() { idx } else { annotations.len() };
            match text {
                Some(t) => {
                    annotations.insert(i, t);
                    record_undo(undo_stack, redo_stack, UndoAction::Modify(i, before));
                },
                None => {
                    record_undo(undo_stack, redo_stack, UndoAction::Delete(i, before));
                },
            }
        },
        None => match text {
            Some(t) => {
                add_annotation(annotations, undo_stack, redo_stack, t);
            },
            None => {},
        },
    }
}

/// Abandon the text being edited: a re-edited annotation goes back where it
/// was, unchanged.
pub fn cancel_text_edit<A>(annotations: &mut Vec<A>, origin: Option<(usize, A)>)
    ensures
        origin is None ==> final(annotations)@ == old(annotations)@,
        origin is Some ==> final(annotations)@ == old(annotations)@.insert(
            clamp_index(origin.unwrap().0, old(annotations)@.len()) as int, origin.unwrap().1),
{
    if let Some((idx, before)) = origin {
        let i = if idx < annotations.len() { idx } else { annotations.len() };
        annotations.insert(i, before);
    }
}

/// Adding an annotation and then undoing gives back the list as it was.
pub proof fn lemma_add_then_undo<A>(ann: Seq<A>, undo: Seq<UndoAction<A>>, a: A)
    requires
        ann.len() < usize::MAX,
    ensures
        undo_step(ann.push(a), capped(undo.push(UndoAction::Add(ann.len() as usize))), Seq::empty()).0 == ann,
{
    lemma_record_then_undo(ann.push(a), undo, UndoAction::Add(ann.len() as usize));
    assert(ann.push(a).remove(ann.len() as int) =~= ann);
}

/// Deleting an annotation and then undoing gives back the list as it was.
pub proof fn lemma_delete_then_undo<A>(ann: Seq<A>, undo: Seq<UndoAction<A>>, idx: usize)
    requires
        idx < ann.len(),
    ensures
        undo_step(ann.remove(idx as int), capped(undo.push(UndoAction::Delete(idx, ann[idx as int]))),
            Seq::empty()).0 == ann,
{
    let after = ann.remove(idx as int);
    lemma_record_then_undo(after, undo, UndoAction::Delete(idx, ann[idx as int]));
    assert(after.insert(idx as int, ann[idx as int]) =~= ann);
}

/// Replacing an annotation and then undoing gives back the list as it was.
pub proof fn lemma_replace_then_undo<A>(ann: Seq<A>, undo: Seq<UndoAction<A>>, idx: usize, updated: A)
    requires
        idx < ann.len(),
    ensures
        undo_step(ann.update(idx as int, updated), capped(undo.push(UndoAction::Modify(idx, ann[idx as int]))),
            Seq::empty()).0 == ann,
{
    let after = ann.update(idx as int, updated);
    lemma_record_then_undo(after, undo, UndoAction::Modify(idx, ann[idx as int]));
    assert(after.update(idx as int, ann[idx as int]) =~= ann);
}

/// An in-place text edit is one undo step: taking the annotation at `idx`
/// out, committing the edited text (or clearing it), and undoing once gives
/// back the list as it was before the edit began.
pub proof fn lemma_text_edit_then_undo<A>(ann: Seq<A>, undo: Seq<UndoAction<A>>, idx: usize, text: Option<A>)
    requires
        idx < ann.len(),
    ensures
        ({
            let taken = ann.remove(idx as int);
            let c = commit_outcome(taken, Some((idx, ann[idx as int])), text);
            undo_step(c.0, capped(undo.push(c.1.unwrap())), Seq::empty()).0
        }) == ann,
{
    let taken = ann.remove(idx as int);
    let c = commit_outcome(taken, Some((idx, ann[idx as int])), text);
    lemma_record_then_undo(c.0, undo, c.1.unwrap());
    match text {
        Some(t) => {
            assert(taken.insert(idx as int, t).update(idx as int, ann[idx as int]) =~= ann);
        },
        None => {
            assert(taken.insert(idx as int, ann[idx as int]) =~= ann);
        },
    }
}

/// Cancelling an in-place text edit leaves the list exactly as it was before
/// the edit began.
pub proof fn lemma_text_edit_then_cancel<A>(ann: Seq<A>, idx: usize)
    requires
        idx < ann.len(),
    ensures
        ann.remove(idx as int).insert(clamp_index(idx, ann.remove(idx as int).len()) as int, ann[idx as int]) == ann,
{
    assert(ann.remove(idx as int).insert(idx as int, ann[idx as int]) =~= ann);
}

} // verus!
