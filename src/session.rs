//! The state guarded by the terminal lock, shared by the render loop and the
//! interrupt handler, and the decisions each makes while holding the lock.
use crate::terminal::{cleanup, cleanup_text, frame, frame_text};
use vstd::prelude::*;

verus! {

/// Milliseconds the render loop sleeps between ticks, outside the lock.
pub const TICK_MILLIS: u64 = 100;

/// What the render loop does on one tick, decided while it holds the lock.
pub enum Tick {
    /// Write this redraw, release the lock, sleep one tick interval.
    Render(String),
    /// Leave the loop; write the cleanup text first where it is given.
    Stop(Option<String>),
}

/// One hold of the terminal lock: by the interrupt handler, whose try-lock
/// succeeded, or by the render loop, with the running flag it read and the
/// elapsed seconds it computed.
pub enum Access {
    Handler,
    Loop { running: bool, seconds: nat },
}

/// One hold of the lock, given whether the cleanup text was already written
/// (`finished`): whether it has been written afterwards, and the text written
/// during the hold, if any.
pub open spec fn access_effect(finished: bool, access: Access) -> (bool, Option<Seq<char>>) {
    match access {
        Access::Loop { running, seconds } => {
            if running && !finished {
                (false, Some(frame(seconds)))
            } else if finished {
                (true, None)
            } else {
                (true, Some(cleanup()))
            }
        },
        Access::Handler => {
            if finished {
                (true, None)
            } else {
                (true, Some(cleanup()))
            }
        },
    }
}

/// Everything written, piece by piece, when the lock is held in the order
/// `order`, starting from the given `finished` state.
pub open spec fn written(finished: bool, order: Seq<Access>) -> Seq<Seq<char>>
    decreases order.len(),
{
    if order.len() == 0 {
        seq![]
    } else {
        let (next, piece) = access_effect(finished, order[0]);
        let rest = written(next, order.drop_first());
        match piece {
            Some(text) => seq![text] + rest,
            None => rest,
        }
    }
}

/// Whether the render loop leaves at the last hold of `order`: it holds the
/// lock there, having read the running flag as false.
pub open spec fn loop_leaves_last(order: Seq<Access>) -> bool {
    &&& order.len() > 0
    &&& order.last() matches Access::Loop { running, .. }
    &&& !running
}

/// Whether `text` is one whole redraw of some elapsed time.
pub open spec fn is_frame(text: Seq<char>) -> bool {
    exists|s: nat| text == #[trigger] frame(s)
}

/// The terminal state shared under the lock: whether the cleanup text has been
/// written.
pub struct Display {
    finished: bool,
}

impl Display {
    /// Whether the cleanup text has been written.
    pub closed spec fn is_finished(&self) -> bool {
        self.finished
    }

    /// A display on which nothing has been cleaned up yet.
    pub fn new() -> (d: Display)
        ensures
            !d.is_finished(),
    {
        Display { finished: false }
    }

    /// Whether the cleanup text has been written.
    pub fn finished(&self) -> (r: bool)
        ensures
            r == self.is_finished(),
    {
        self.finished
    }

    /// The interrupt handler's work once its try-lock succeeded: the cleanup
    /// text, unless it was already written.
    pub fn finish(&mut self) -> (r: Option<String>)
        ensures
            final(self).is_finished(),
            r.is_some() == !old(self).is_finished(),
            r.is_some() ==> r.unwrap()@ == cleanup(),
            (final(self).is_finished(), text_of(r)) == access_effect(
                old(self).is_finished(),
                Access::Handler,
            ),
    {
        if self.finished {
            None
        } else {
            self.finished = true;
            Some(cleanup_text())
        }
    }

    /// The render loop's work on one tick, given the running flag read under
    /// the lock: a whole redraw while running, otherwise a stop, carrying the
    /// cleanup text unless it was already written.
    pub fn tick(&mut self, running: bool, seconds: u64) -> (r: Tick)
        ensures
            running && !old(self).is_finished() ==> {
                &&& r is Render
                &&& tick_piece(r) == Some(frame(seconds as nat))
                &&& final(self).is_finished() == old(self).is_finished()
            },
            !running ==> r is Stop,
            !running || old(self).is_finished() ==> {
                &&& r is Stop
                &&& final(self).is_finished()
                &&& tick_piece(r) == if old(self).is_finished() {
                    None
                } else {
                    Some(cleanup())
                }
            },
            (final(self).is_finished(), tick_piece(r)) == access_effect(
                old(self).is_finished(),
                Access::Loop { running, seconds: seconds as nat },
            ),
    {
        if running && !self.finished {
            Tick::Render(frame_text(seconds))
        } else {
            Tick::Stop(self.finish())
        }
    }
}

/// The text a tick writes.
pub open spec fn tick_piece(t: Tick) -> Option<Seq<char>> {
    match t {
        Tick::Render(text) => Some(text@),
        Tick::Stop(text) => text_of(text),
    }
}

/// The characters of an optional text.
pub open spec fn text_of(t: Option<String>) -> Option<Seq<char>> {
    match t {
        Some(text) => Some(text@),
        None => None,
    }
}

/// Once the cleanup text has been written, no holder of the lock writes anything.
pub proof fn lemma_nothing_after_cleanup(order: Seq<Access>)
    ensures
        written(true, order) == Seq::<Seq<char>>::empty(),
    decreases order.len(),
{
    if order.len() > 0 {
        lemma_nothing_after_cleanup(order.drop_first());
    }
}

/// A redraw never reads as the cleanup text: they differ in their second character.
pub proof fn lemma_frame_is_not_cleanup(s: nat)
    ensures
        frame(s) != cleanup(),
{
    assert(frame(s)[1] == '7');
    assert(cleanup()[1] == '[');
}

/// No torn output: whatever the order in which the handler and the loop take the
/// lock, each piece written is one whole redraw or the whole cleanup text.
pub proof fn lemma_pieces_are_whole(finished: bool, order: Seq<Access>)
    ensures
        forall|j: int|
            0 <= j < written(finished, order).len() ==> is_frame(#[trigger] written(finished, order)[j])
                || written(finished, order)[j] == cleanup(),
    decreases order.len(),
{
    if order.len() > 0 {
        let (next, piece) = access_effect(finished, order[0]);
        let rest = order.drop_first();
        lemma_pieces_are_whole(next, rest);
        let w = written(finished, order);
        match piece {
            Some(text) => {
                assert(w == seq![text] + written(next, rest));
                if let Access::Loop { running, seconds } = order[0] {
                    if running && !finished {
                        assert(text == frame(seconds));
                    }
                }
                assert forall|j: int| 0 <= j < w.len() implies is_frame(#[trigger] w[j]) || w[j]
                    == cleanup() by {
                    if j > 0 {
                        assert(w[j] == written(next, rest)[j - 1]);
                    }
                }
            },
            None => {},
        }
    }
}

/// The cleanup text is written exactly once, and last, whichever of the handler
/// and the loop takes the lock first: every earlier piece is a redraw.
pub proof fn lemma_cleanup_written_once(order: Seq<Access>)
    requires
        loop_leaves_last(order),
    ensures
        written(false, order).len() >= 1,
        written(false, order).last() == cleanup(),
        forall|j: int|
            0 <= j < written(false, order).len() - 1 ==> is_frame(#[trigger] written(false, order)[j])
                && written(false, order)[j] != cleanup(),
    decreases order.len(),
{
    let w = written(false, order);
    let (next, piece) = access_effect(false, order[0]);
    let rest = order.drop_first();
    if next {
        lemma_nothing_after_cleanup(rest);
        assert(piece == Some(cleanup()));
        assert(w =~= seq![cleanup()]);
    } else {
        let seconds = order[0]->Loop_seconds;
        assert(piece == Some(frame(seconds)));
        assert(rest.len() > 0);
        assert(rest.last() == order.last());
        lemma_cleanup_written_once(rest);
        let w2 = written(false, rest);
        assert(w == seq![frame(seconds)] + w2);
        lemma_frame_is_not_cleanup(seconds);
        assert forall|j: int| 0 <= j < w.len() - 1 implies is_frame(#[trigger] w[j]) && w[j]
            != cleanup() by {
            if j > 0 {
                assert(w[j] == w2[j - 1]);
            } else {
                assert(w[j] == frame(seconds));
            }
        }
    }
}

} // verus!
