//! A small animation in text: a comb that grows down the screen.

use vstd::prelude::*;
use crate::vga_buffer::{DisplayOp, DisplayState, Writer};

verus! {

/// The back of the comb.
pub const BAR: &'static str = "###############\n";

/// The teeth of the comb.
pub const TEETH: &'static str = " #  #  #  #  #\n";

/// How many rows of teeth are drawn.
pub const FRAMES: usize = 9;

/// How long the animation rests after each row of teeth, in spins.
pub const FRAME_SPINS: usize = 1_000_000;

/// How many characters the animation writes.
pub open spec fn length() -> nat {
    (FRAMES * (BAR@.len() + TEETH@.len()) + BAR@.len()) as nat
}

/// The display after `count` rows of teeth, each under a back and
/// followed by a rest, and the steps that draw them.
pub open spec fn frames(state: DisplayState, count: nat) -> (DisplayState, Seq<DisplayOp>)
    decreases count,
{
    if count == 0 {
        (state, Seq::empty())
    } else {
        let (before, ops) = frames(state, (count - 1) as nat);
        let barred = before.after_string(BAR@);
        (
            barred.after_string(TEETH@),
            ops + before.string_ops(BAR@) + barred.string_ops(TEETH@) + seq![
                DisplayOp::Pause { spins: FRAME_SPINS },
            ],
        )
    }
}

/// The display after the animation, and its steps: the screen is cleared,
/// the rows are drawn, and a last back closes the comb.
pub open spec fn played(state: DisplayState) -> (DisplayState, Seq<DisplayOp>) {
    let (drawn, ops) = frames(state.after_clear(), FRAMES as nat);
    (drawn.after_string(BAR@), state.clear_ops() + ops + drawn.string_ops(BAR@))
}

/// The animation leaves room for what it has not yet written.
proof fn lemma_frames_room(state: DisplayState, count: nat, room: nat)
    requires
        state.has_room_for(room),
        count * (BAR@.len() + TEETH@.len()) <= room,
    ensures
        frames(state, count).0.has_room_for(
            (room - count * (BAR@.len() + TEETH@.len())) as nat,
        ),
    decreases count,
{
    if count > 0 {
        let each = BAR@.len() + TEETH@.len();
        assert(count * each == (count - 1) * each + each) by (nonlinear_arith);
        lemma_frames_room(state, (count - 1) as nat, room);
        let before = frames(state, (count - 1) as nat).0;
        let left = (room - (count - 1) * each) as nat;
        before.lemma_room_after_string(BAR@, left);
        before.after_string(BAR@).lemma_room_after_string(TEETH@, (left - BAR@.len()) as nat);
    }
}

/// Plays the animation on `writer`.
pub fn play(writer: &mut Writer) -> (ops: Vec<DisplayOp>)
    requires
        old(writer)@.has_room_for(length()),
    ensures
        final(writer)@ == played(old(writer)@).0,
        ops@ == played(old(writer)@).1,
{
    let mut ops = writer.clear_buffer();
    let ghost cleared = writer@;
    let ghost each = BAR@.len() + TEETH@.len();
    let mut h: usize = 0;
    proof {
        assert(ops@ + frames(cleared, 0).1 =~= ops@);
        assert(0 * each == 0) by (nonlinear_arith);
        assert(cleared.has_room_for(length()));
    }
    while h < FRAMES
        invariant
            h <= FRAMES,
            each == BAR@.len() + TEETH@.len(),
            cleared == old(writer)@.after_clear(),
            cleared.has_room_for(length()),
            writer@ == frames(cleared, h as nat).0,
            ops@ == old(writer)@.clear_ops() + frames(cleared, h as nat).1,
        decreases FRAMES - h,
    {
        proof {
            assert(h * each + each + BAR@.len() <= length()) by (nonlinear_arith)
                requires
                    h < FRAMES,
                    length() == FRAMES * each + BAR@.len(),
            ;
            lemma_frames_room(cleared, h as nat, length());
            writer@.lemma_room_after_string(BAR@, (length() - h * each) as nat);
        }
        let ghost before = writer@;
        let ghost drawn = ops@;
        let mut bar = writer.write_string(BAR);
        ops.append(&mut bar);
        let ghost barred = writer@;
        let mut teeth = writer.write_string(TEETH);
        ops.append(&mut teeth);
        ops.push(DisplayOp::Pause { spins: FRAME_SPINS });
        proof {
            let so_far = frames(cleared, h as nat).1;
            assert(ops@ =~= old(writer)@.clear_ops() + (so_far + before.string_ops(BAR@)
                + barred.string_ops(TEETH@) + seq![DisplayOp::Pause { spins: FRAME_SPINS }]));
        }
        h = h + 1;
    }
    proof {
        assert(FRAMES * each + BAR@.len() <= length());
        lemma_frames_room(cleared, FRAMES as nat, length());
    }
    let mut last = writer.write_string(BAR);
    ops.append(&mut last);
    ops
}

} // verus!
