//! Command-pattern undo/redo over a list of annotations.
//!
//! Every edit of the annotation list is recorded as an [`UndoAction`]; undoing
//! an action applies its inverse and pushes the inverse of *that* onto the
//! redo stack, so undo and redo are the same operation with the stacks
//! exchanged.

use vstd::prelude::*;

verus! {

/// Maximum number of entries kept on the undo stack.
pub const UNDO_STACK_CAP: usize = 50;

/// A reversible action recorded on the undo/redo stacks.
pub enum UndoAction<A> {
    /// An annotation was added at the given index.
    Add(usize),
    /// An annotation was deleted from the given index (it is kept here).
    Delete(usize, A),
    /// An annotation was modified at the given index (the old version is kept here).
    Modify(usize, A),
}

/// Reversing `action` against the annotation list `ann`: the new list, and the
/// action that reverses the reversal (`None` when the action no longer applies
/// and nothing changed).
pub open spec fn reverse_action<A>(ann: Seq<A>, action: UndoAction<A>) -> (Seq<A>, Option<UndoAction<A>>) {
    match action {
        UndoAction::Add(idx) => if idx < ann.len() {
            (ann.remove(idx as int), Some(UndoAction::Delete(idx, ann[idx as int])))
        } else {
            (ann, None)
        },
        UndoAction::Delete(idx, a) => {
            let i: usize = if idx < ann.len() { idx } else { ann.len() as usize };
            (ann.insert(i as int, a), Some(UndoAction::Add(i)))
        },
        UndoAction::Modify(idx, a) => if idx < ann.len() {
            (ann.update(idx as int, a), Some(UndoAction::Modify(idx, ann[idx as int])))
        } else {
            (ann, None)
        },
    }
}

/// `stack` with the oldest entries dropped so that at most `UNDO_STACK_CAP` remain.
pub open spec fn capped<A>(stack: Seq<UndoAction<A>>) -> Seq<UndoAction<A>> {
    if stack.len() > UNDO_STACK_CAP {
        stack.skip(stack.len() - UNDO_STACK_CAP)
    } else {
        stack
    }
}

/// `stack` with `inverse` pushed when there is one.
pub open spec fn push_some<A>(stack: Seq<UndoAction<A>>, inverse: Option<UndoAction<A>>) -> Seq<UndoAction<A>> {
    match inverse {
        Some(a) => stack.push(a),
        None => stack,
    }
}

/// The state `(annotations, undo stack, redo stack)` after one undo step.
pub open spec fn undo_step<A>(
    ann: Seq<A>,
    undo: Seq<UndoAction<A>>,
    redo: Seq<UndoAction<A>>,
) -> (Seq<A>, Seq<UndoAction<A>>, Seq<UndoAction<A>>) {
    if undo.len() == 0 {
        (ann, undo, redo)
    } else {
        let r = reverse_action(ann, undo.last());
        (r.0, undo.drop_last(), push_some(redo, r.1))
    }
}

/// The state `(annotations, undo stack, redo stack)` after one redo step.
pub open spec fn redo_step<A>(
    ann: Seq<A>,
    undo: Seq<UndoAction<A>>,
    redo: Seq<UndoAction<A>>,
) -> (Seq<A>, Seq<UndoAction<A>>, Seq<UndoAction<A>>) {
    if redo.len() == 0 {
        (ann, undo, redo)
    } else {
        let r = reverse_action(ann, redo.last());
        (r.0, capped(push_some(undo, r.1)), redo.drop_last())
    }
}

/// `action` can be reversed against `ann` without being clamped: its index
/// names an existing annotation (for `Add` and `Modify`) or a position in the
/// list (for `Delete`).
pub open spec fn applies<A>(ann: Seq<A>, action: UndoAction<A>) -> bool {
    match action {
        UndoAction::Add(idx) => idx < ann.len(),
        UndoAction::Delete(idx, _) => idx <= ann.len(),
        UndoAction::Modify(idx, _) => idx < ann.len(),
    }
}

/// Reversing an applicable action yields an applicable inverse, and reversing
/// that inverse gives back the original list and the original action.
pub proof fn lemma_reverse_involutive<A>(ann: Seq<A>, action: UndoAction<A>)
    requires
        applies(ann, action),
    ensures
        reverse_action(ann, action).1 is Some,
        applies(reverse_action(ann, action).0, reverse_action(ann, action).1.unwrap()),
        reverse_action(reverse_action(ann, action).0, reverse_action(ann, action).1.unwrap())
            == (ann, Some(action)),
{
    match action {
        UndoAction::Add(idx) => {
            let r0 = ann.remove(idx as int);
            assert(r0.insert(idx as int, ann[idx as int]) =~= ann);
        },
        UndoAction::Delete(idx, a) => {
            let r0 = ann.insert(idx as int, a);
            assert(r0.remove(idx as int) =~= ann);
        },
        UndoAction::Modify(idx, a) => {
            let r0 = ann.update(idx as int, a);
            assert(r0.update(idx as int, ann[idx as int]) =~= ann);
        },
    }
}

/// Undo followed by redo restores the annotations and both stacks, whenever
/// the undone action applies and the undo stack is within its cap.
pub proof fn lemma_undo_then_redo<A>(ann: Seq<A>, undo: Seq<UndoAction<A>>, redo: Seq<UndoAction<A>>)
    requires
        undo.len() > 0,
        undo.len() <= UNDO_STACK_CAP,
        applies(ann, undo.last()),
    ensures
        ({
            let s = undo_step(ann, undo, redo);
            redo_step(s.0, s.1, s.2)
        }) == (ann, undo, redo),
{
    lemma_reverse_involutive(ann, undo.last());
    let r = reverse_action(ann, undo.last());
    let inv = r.1.unwrap();
    assert(redo.push(inv).drop_last() =~= redo);
    assert(redo.push(inv).last() == inv);
    assert(undo.drop_last().push(undo.last()) =~= undo);
}

/// Redo followed by undo restores the annotations and both stacks, whenever
/// the redone action applies and the undo stack has room for its inverse.
pub proof fn lemma_redo_then_undo<A>(ann: Seq<A>, undo: Seq<UndoAction<A>>, redo: Seq<UndoAction<A>>)
    requires
        redo.len() > 0,
        undo.len() < UNDO_STACK_CAP,
        applies(ann, redo.last()),
    ensures
        ({
            let s = redo_step(ann, undo, redo);
            undo_step(s.0, s.1, s.2)
        }) == (ann, undo, redo),
{
    lemma_reverse_involutive(ann, redo.last());
    let r = reverse_action(ann, redo.last());
    let inv = r.1.unwrap();
    assert(capped(undo.push(inv)) == undo.push(inv));
    assert(undo.push(inv).drop_last() =~= undo);
    assert(undo.push(inv).last() == inv);
    assert(redo.drop_last().push(redo.last()) =~= redo);
}

/// The undo stack never grows past its cap: starting within the cap, every
/// undo, redo and record step leaves it within the cap.
pub proof fn lemma_undo_stack_stays_capped<A>(
    ann: Seq<A>,
    undo: Seq<UndoAction<A>>,
    redo: Seq<UndoAction<A>>,
    action: UndoAction<A>,
)
    requires
        undo.len() <= UNDO_STACK_CAP,
    ensures
        undo_step(ann, undo, redo).1.len() <= UNDO_STACK_CAP,
        redo_step(ann, undo, redo).1.len() <= UNDO_STACK_CAP,
        capped(undo.push(action)).len() <= UNDO_STACK_CAP,
{
}

/// A recorded action is the next one to be undone, and nothing can be redone
/// after it.
pub proof fn lemma_record_then_undo<A>(ann: Seq<A>, undo: Seq<UndoAction<A>>, action: UndoAction<A>)
    ensures
        capped(undo.push(action)).len() > 0,
        capped(undo.push(action)).last() == action,
        undo_step(ann, capped(undo.push(action)), Seq::empty()).0
            == reverse_action(ann, action).0,
{
    let s = undo.push(action);
    if s.len() > UNDO_STACK_CAP {
        assert(s.skip(s.len() - UNDO_STACK_CAP).last() == s.last());
    }
}

/// Drop the oldest entries until the stack holds at most `UNDO_STACK_CAP` actions.
pub fn cap_undo_stack<A>(stack: &mut Vec<UndoAction<A>>)
    ensures
        final(stack)@ == capped(old(stack)@),
{
    let ghost orig = stack@;
    while stack.len() > UNDO_STACK_CAP
        invariant
            orig.len() >= stack@.len(),
            stack@ == orig.skip(orig.len() - stack@.len()),
            orig.len() > UNDO_STACK_CAP ==> stack@.len() >= UNDO_STACK_CAP,
            orig.len() <= UNDO_STACK_CAP ==> stack@.len() == orig.len(),
        decreases stack.len(),
    {
        stack.remove(0);
        assert(stack@ =~= orig.skip(orig.len() - stack@.len()));
    }
    assert(orig.len() <= UNDO_STACK_CAP ==> orig.skip(0) =~= orig);
}

/// Reverse `action` on `annotations`, returning the inverse action if the
/// list changed.
fn reverse<A>(annotations: &mut Vec<A>, action: UndoAction<A>) -> (inverse: Option<UndoAction<A>>)
    ensures
        (final(annotations)@, inverse) == reverse_action(old(annotations)@, action),
{
    match action {
        UndoAction::Add(idx) => {
            if idx < annotations.len() {
                let removed = annotations.remove(idx);
                Some(UndoAction::Delete(idx, removed))
            } else {
                None
            }
        },
        UndoAction::Delete(idx, ann) => {
            let i = if idx < annotations.len() { idx } else { annotations.len() };
            annotations.insert(i, ann);
            Some(UndoAction::Add(i))
        },
        UndoAction::Modify(idx, old_ann) => {
            if idx < annotations.len() {
                let current = annotations.remove(idx);
                annotations.insert(idx, old_ann);
                assert(annotations@ =~= old(annotations)@.update(idx as int, old_ann));
                Some(UndoAction::Modify(idx, current))
            } else {
                None
            }
        },
    }
}

/// Apply one undo step: pop from `undo_stack`, reverse it, and push the inverse
/// onto `redo_stack`. Returns `false` when there was nothing to undo.
pub fn apply_undo<A>(
    annotations: &mut Vec<A>,
    undo_stack: &mut Vec<UndoAction<A>>,
    redo_stack: &mut Vec<UndoAction<A>>,
) -> (undone: bool)
    ensures
        undone == (old(undo_stack)@.len() > 0),
        (final(annotations)@, final(undo_stack)@, final(redo_stack)@)
            == undo_step(old(annotations)@, old(undo_stack)@, old(redo_stack)@),
{
    match undo_stack.pop() {
        Some(action) => {
            let inverse = reverse(annotations, action);
            if let Some(inv) = inverse {
                redo_stack.push(inv);
            }
            true
        },
        None => false,
    }
}

/// Apply one redo step: pop from `redo_stack`, reverse it, and push the inverse
/// onto `undo_stack` (which is then capped). Returns `false` when there was
/// nothing to redo.
pub fn apply_redo<A>(
    annotations: &mut Vec<A>,
    undo_stack: &mut Vec<UndoAction<A>>,
    redo_stack: &mut Vec<UndoAction<A>>,
) -> (redone: bool)
    ensures
        redone == (old(redo_stack)@.len() > 0),
        (final(annotations)@, final(undo_stack)@, final(redo_stack)@)
            == redo_step(old(annotations)@, old(undo_stack)@, old(redo_stack)@),
{
    match redo_stack.pop() {
        Some(action) => {
            let inverse = reverse(annotations, action);
            if let Some(inv) = inverse {
                undo_stack.push(inv);
            }
            cap_undo_stack(undo_stack);
            true
        },
        None => false,
    }
}

/// Record a new action on the undo stack, clearing the redo stack (a new
/// branch of history starts).
pub fn record_undo<A>(
    undo_stack: &mut Vec<UndoAction<A>>,
    redo_stack: &mut Vec<UndoAction<A>>,
    action: UndoAction<A>,
)
    ensures
        final(redo_stack)@.len() == 0,
        final(undo_stack)@ == capped(old(undo_stack)@.push(action)),
{
    redo_stack.clear();
    undo_stack.push(action);
    cap_undo_stack(undo_stack);
}

} // verus!
