//! The cursor's side of undo and redo: where the cursor stood before each
//! edit, and before each edit that was undone.

use vstd::prelude::*;
use crate::position::Position;

verus! {

/// Cursor history.
#[derive(Debug, Default)]
pub struct CursorHistory {
    pub undo_stack: Vec<Position>,
    pub redo_stack: Vec<Position>,
}

/// The two stacks of a cursor history, as plain values.
pub struct Stacks {
    pub undo: Seq<Position>,
    pub redo: Seq<Position>,
}

/// The stacks once an edit at `position` is recorded: the position goes on
/// top of the undo stack, and nothing is left to redo.
pub open spec fn recorded(stacks: Stacks, position: Position) -> Stacks {
    Stacks { undo: stacks.undo.push(position), redo: Seq::<Position>::empty() }
}

/// The stacks once an edit is undone while the cursor stands at `current`.
/// Nothing changes where there is nothing to undo.
pub open spec fn undone(stacks: Stacks, current: Position) -> Stacks {
    if stacks.undo.len() == 0 {
        stacks
    } else {
        Stacks { undo: stacks.undo.drop_last(), redo: stacks.redo.push(current) }
    }
}

/// Where the cursor goes when an edit is undone.
pub open spec fn undo_target(stacks: Stacks) -> Option<Position> {
    if stacks.undo.len() == 0 {
        None
    } else {
        Some(stacks.undo.last())
    }
}

/// The stacks once an edit is redone while the cursor stands at `current`.
/// Nothing changes where there is nothing to redo.
pub open spec fn redone(stacks: Stacks, current: Position) -> Stacks {
    if stacks.redo.len() == 0 {
        stacks
    } else {
        Stacks { undo: stacks.undo.push(current), redo: stacks.redo.drop_last() }
    }
}

/// Where the cursor goes when an edit is redone.
pub open spec fn redo_target(stacks: Stacks) -> Option<Position> {
    if stacks.redo.len() == 0 {
        None
    } else {
        Some(stacks.redo.last())
    }
}

impl View for CursorHistory {
    type V = Stacks;

    open spec fn view(&self) -> Stacks {
        Stacks { undo: self.undo_stack@, redo: self.redo_stack@ }
    }
}

impl CursorHistory {
    /// A history with nothing to undo and nothing to redo.
    pub fn new() -> (history: CursorHistory)
        ensures
            history@ == (Stacks { undo: Seq::<Position>::empty(), redo: Seq::<Position>::empty() }),
    {
        CursorHistory { undo_stack: Vec::new(), redo_stack: Vec::new() }
    }

    /// Record a new cursor position on the undo stack. Once a new position
    /// is recorded, nothing is left to redo.
    pub fn record_undo_position(&mut self, pos: Position)
        ensures
            final(self)@ == recorded(old(self)@, pos),
    {
        self.undo_stack.push(pos);
        self.redo_stack.clear();
    }

    /// Takes the position of the last edit off the undo stack and puts
    /// `current` on the redo stack. Returns the position taken.
    pub fn step_back(&mut self, current: Position) -> (target: Option<Position>)
        ensures
            final(self)@ == undone(old(self)@, current),
            target == undo_target(old(self)@),
    {
        match self.undo_stack.pop() {
            Some(previous) => {
                self.redo_stack.push(current);
                Some(previous)
            },
            None => None,
        }
    }

    /// Takes the position of the last undone edit off the redo stack and
    /// puts `current` on the undo stack. Returns the position taken.
    pub fn step_forward(&mut self, current: Position) -> (target: Option<Position>)
        ensures
            final(self)@ == redone(old(self)@, current),
            target == redo_target(old(self)@),
    {
        match self.redo_stack.pop() {
            Some(position) => {
                self.undo_stack.push(current);
                Some(position)
            },
            None => None,
        }
    }

    /// Forgets everything.
    pub fn clear(&mut self)
        ensures
            final(self)@ == (Stacks { undo: Seq::<Position>::empty(), redo: Seq::<Position>::empty() }),
    {
        self.undo_stack.clear();
        self.redo_stack.clear();
    }
}

/// An edit followed at once by an undo: the cursor is sent back to where it
/// stood before the edit and the undo stack is as it was; the place where
/// the cursor stood after the edit is all there is to redo. A redo that
/// follows at once sends the cursor to that place again and leaves the
/// stacks as the edit had left them.
pub proof fn lemma_undo_redo_round_trip(stacks: Stacks, before: Position, after: Position)
    ensures
        undo_target(recorded(stacks, before)) == Some(before),
        undone(recorded(stacks, before), after) == (Stacks {
            undo: stacks.undo,
            redo: seq![after],
        }),
        redo_target(undone(recorded(stacks, before), after)) == Some(after),
        redone(undone(recorded(stacks, before), after), before) == recorded(stacks, before),
{
    let edited = recorded(stacks, before);
    assert(edited.undo.drop_last() == stacks.undo);
    assert(edited.redo.push(after) == seq![after]);
    let back = undone(edited, after);
    assert(back.redo.drop_last() == Seq::<Position>::empty());
}

} // verus!
