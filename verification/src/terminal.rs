//! What the terminal is told to do around the frames.

use vstd::prelude::*;

verus! {

/// One instruction to the terminal device.
#[derive(Clone, Copy, Debug, PartialEq, Eq, Structural)]
pub enum TerminalOp {
    HideCursor,
    ShowCursor,
    DisableLineWrap,
    EnableLineWrap,
    /// Clear the whole screen.
    ClearAll,
    /// Clear from the cursor to the end of the screen.
    ClearFromCursorDown,
    /// Clear the scrollback history.
    ClearPurge,
    /// Clear from the cursor to the end of its line.
    ClearUntilNewLine,
    /// Put the cursor at a column and row, counted from zero.
    MoveTo { column: u16, row: u16 },
}

/// Setup before the first frame.
pub open spec fn prepare_ops() -> Seq<TerminalOp> {
    seq![TerminalOp::HideCursor, TerminalOp::DisableLineWrap, TerminalOp::ClearAll]
}

/// Cleanup after each frame, so that the next one overwrites a clean region.
pub open spec fn clear_ops() -> Seq<TerminalOp> {
    seq![
        TerminalOp::ClearFromCursorDown,
        TerminalOp::MoveTo { column: 0, row: 0 },
        TerminalOp::ClearPurge,
        TerminalOp::ClearUntilNewLine,
    ]
}

/// Undoing the setup when playback ends.
pub open spec fn restore_ops() -> Seq<TerminalOp> {
    seq![TerminalOp::EnableLineWrap, TerminalOp::ShowCursor]
}

/// The instructions that set the terminal up: hide the cursor, switch line
/// wrapping off, clear the screen.
pub fn prepare_terminal() -> (ops: Vec<TerminalOp>)
    ensures
        ops@ == prepare_ops(),
{
    let mut ops: Vec<TerminalOp> = Vec::new();
    ops.push(TerminalOp::HideCursor);
    ops.push(TerminalOp::DisableLineWrap);
    ops.push(TerminalOp::ClearAll);
    assert(ops@ =~= prepare_ops());
    ops
}

/// The instructions between two frames: clear below the cursor, go to the
/// origin, drop the scrollback and what is left of the line.
pub fn clear_terminal() -> (ops: Vec<TerminalOp>)
    ensures
        ops@ == clear_ops(),
{
    let mut ops: Vec<TerminalOp> = Vec::new();
    ops.push(TerminalOp::ClearFromCursorDown);
    ops.push(TerminalOp::MoveTo { column: 0, row: 0 });
    ops.push(TerminalOp::ClearPurge);
    ops.push(TerminalOp::ClearUntilNewLine);
    assert(ops@ =~= clear_ops());
    ops
}

/// The instructions that give the terminal back: line wrapping on, cursor
/// shown.
pub fn restore_terminal() -> (ops: Vec<TerminalOp>)
    ensures
        ops@ == restore_ops(),
{
    let mut ops: Vec<TerminalOp> = Vec::new();
    ops.push(TerminalOp::EnableLineWrap);
    ops.push(TerminalOp::ShowCursor);
    assert(ops@ =~= restore_ops());
    ops
}

/// The instruction that undoes a change of the terminal's modes, for the
/// instructions that make one.
pub open spec fn undoing(op: TerminalOp) -> Option<TerminalOp> {
    match op {
        TerminalOp::HideCursor => Some(TerminalOp::ShowCursor),
        TerminalOp::DisableLineWrap => Some(TerminalOp::EnableLineWrap),
        _ => None,
    }
}

/// Restoring undoes every change that the setup made to the terminal's
/// modes.
pub proof fn lemma_restore_undoes_prepare()
    ensures
        forall|i: int|
            0 <= i < prepare_ops().len() ==> (#[trigger] undoing(prepare_ops()[i]) matches Some(
                op,
            ) ==> restore_ops().contains(op)),
{
    assert(restore_ops()[0] == TerminalOp::EnableLineWrap);
    assert(restore_ops()[1] == TerminalOp::ShowCursor);
}

} // verus!
