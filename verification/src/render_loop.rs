use vstd::prelude::*;
use crate::{NUM_COLS, NUM_ROWS};
use crate::channel::{Delivery, Received};
use crate::frame::{Frame, Grid, blank_grid, grid_of, is_grid, new_frame};
use crate::render::{CellWrite, Placed, diff_writes, placed, render};
use crate::render_laws::lemma_full_redraw_count;

verus! {

/// What the render loop does next.
#[derive(Debug)]
pub enum RenderAction {
    /// Put these writes on the screen, then flush it once.
    Paint(Vec<CellWrite>),
    /// Wait until the channel has news, then receive again.
    Wait,
    /// Leave the loop: no frame will come.
    Exit,
}

/// What the render loop does next, with the writes by their views.
pub enum Action {
    Paint(Seq<Placed>),
    Wait,
    Exit,
}

impl View for RenderAction {
    type V = Action;

    open spec fn view(&self) -> Action {
        match *self {
            RenderAction::Paint(writes) => Action::Paint(placed(writes@)),
            RenderAction::Wait => Action::Wait,
            RenderAction::Exit => Action::Exit,
        }
    }
}

/// What the render loop does on a delivery while the screen shows `shown`.
pub open spec fn action_on(shown: Grid, delivery: Delivery) -> Action {
    match delivery {
        Delivery::Next(grid) => Action::Paint(diff_writes(shown, grid, false)),
        Delivery::Pending => Action::Wait,
        Delivery::Exhausted => Action::Exit,
    }
}

/// What the screen shows after a delivery, if it showed `shown` before.
pub open spec fn shown_after(shown: Grid, delivery: Delivery) -> Grid {
    match delivery {
        Delivery::Next(grid) => grid,
        _ => shown,
    }
}

/// The consumer's side of the channel: it remembers the frame that the
/// screen shows and turns each received frame into the writes that bring the
/// screen up to it.
pub struct RenderLoop {
    last_frame: Frame,
}

impl RenderLoop {
    #[verifier::type_invariant]
    spec fn inv(self) -> bool {
        is_grid(grid_of(self.last_frame), NUM_COLS as nat, NUM_ROWS as nat)
    }

    /// The grid that the screen shows.
    pub closed spec fn shown(&self) -> Grid {
        grid_of(self.last_frame)
    }

    /// Starts the loop on an empty screen. The writes returned are the one
    /// full redraw: every cell, empty.
    pub fn start() -> (started: (RenderLoop, Vec<CellWrite>))
        ensures
            started.0.shown() == blank_grid(NUM_COLS as nat, NUM_ROWS as nat),
            placed(started.1@) == diff_writes(started.0.shown(), started.0.shown(), true),
            started.1@.len() == NUM_COLS * NUM_ROWS,
    {
        let last_frame = new_frame();
        let writes = render(&last_frame, &last_frame, true);
        proof {
            let grid = grid_of(last_frame);
            lemma_full_redraw_count(grid, grid, NUM_COLS as nat, NUM_ROWS as nat);
            assert(placed(writes@).len() == writes@.len());
        }
        (RenderLoop { last_frame }, writes)
    }

    /// Decides what to do with what the channel delivered. A frame is shown
    /// by the writes for the cells in which it differs from the one on the
    /// screen, and is from then on the one on the screen.
    pub fn step(&mut self, received: Received) -> (action: RenderAction)
        requires
            received@ matches Delivery::Next(grid) ==> is_grid(grid, NUM_COLS as nat, NUM_ROWS as nat),
        ensures
            action@ == action_on(old(self).shown(), received@),
            final(self).shown() == shown_after(old(self).shown(), received@),
            is_grid(final(self).shown(), NUM_COLS as nat, NUM_ROWS as nat),
    {
        proof {
            use_type_invariant(&*self);
        }
        match received {
            Received::Next(frame) => {
                let writes = render(&self.last_frame, &frame, false);
                self.last_frame = frame;
                RenderAction::Paint(writes)
            },
            Received::Pending => RenderAction::Wait,
            Received::Exhausted => RenderAction::Exit,
        }
    }
}

} // verus!
