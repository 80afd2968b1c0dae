//! A look at the graphics mode: a triangle, and back to text.

use vstd::prelude::*;
use crate::vga_buffer::{
    line_ops, Color, DisplayOp, DisplayState, TextState, Writer,
};

verus! {

/// How long the triangle stays, in spins.
pub const SHOW_SPINS: usize = 10_000_000;

/// The corner of the triangle at the left.
pub const LEFT: (usize, usize) = (80, 60);

/// The corner at the top, on the right.
pub const TOP: (usize, usize) = (540, 0);

/// The corner below it.
pub const RIGHT: (usize, usize) = (540, 60);

/// The steps of the demonstration: the display goes to graphics mode and a
/// black screen; the three sides of the triangle are drawn, in white,
/// light red and yellow; after a rest the display goes back to a fresh
/// text mode.
pub open spec fn play_ops() -> Seq<DisplayOp> {
    seq![DisplayOp::SetGraphicsMode, DisplayOp::ClearGraphics { color: Color::Black }] + seq![
        DisplayOp::ClearGraphics { color: Color::Black },
    ] + line_ops(LEFT, TOP, Color::White) + line_ops(LEFT, RIGHT, Color::LightRed) + line_ops(
        TOP,
        RIGHT,
        Color::Yellow,
    ) + seq![DisplayOp::Pause { spins: SHOW_SPINS }] + seq![
        DisplayOp::SetTextMode,
        DisplayOp::ClearText,
    ]
}

/// Plays the demonstration on `writer`, which is in a fresh text mode
/// afterwards.
pub fn play(writer: &mut Writer) -> (ops: Vec<DisplayOp>)
    ensures
        final(writer)@ == DisplayState::Text(
            TextState { foreground: Color::White, background: Color::Black, column: 0, row: 0 },
        ),
        ops@ == play_ops(),
{
    let mut ops = writer.switch_to_graphics();
    if let Some(gfx) = writer.get_graphics() {
        ops.push(gfx.clear_screen(Color::Black));
        let mut first = gfx.draw_line(LEFT, TOP, Color::White);
        ops.append(&mut first);
        let mut second = gfx.draw_line(LEFT, RIGHT, Color::LightRed);
        ops.append(&mut second);
        let mut third = gfx.draw_line(TOP, RIGHT, Color::Yellow);
        ops.append(&mut third);
    }
    ops.push(DisplayOp::Pause { spins: SHOW_SPINS });
    let mut back = writer.switch_to_text();
    ops.append(&mut back);
    proof {
        assert(ops@ =~= play_ops());
    }
    ops
}

} // verus!
