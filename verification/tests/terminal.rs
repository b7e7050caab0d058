use ascplayer::terminal::{clear_terminal, prepare_terminal, restore_terminal, TerminalOp};

#[test]
fn prepare_hides_the_cursor_stops_wrapping_and_clears() {
    assert_eq!(
        prepare_terminal(),
        vec![TerminalOp::HideCursor, TerminalOp::DisableLineWrap, TerminalOp::ClearAll]
    );
}

#[test]
fn clearing_between_frames_returns_to_the_origin() {
    assert_eq!(
        clear_terminal(),
        vec![
            TerminalOp::ClearFromCursorDown,
            TerminalOp::MoveTo { column: 0, row: 0 },
            TerminalOp::ClearPurge,
            TerminalOp::ClearUntilNewLine,
        ]
    );
}

#[test]
fn restore_gives_back_wrapping_and_the_cursor() {
    assert_eq!(restore_terminal(), vec![TerminalOp::EnableLineWrap, TerminalOp::ShowCursor]);
}
