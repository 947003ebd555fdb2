use vstd::prelude::*;
use std::collections::VecDeque;
use crate::frame::{Frame, Grid, grid_of};

verus! {

/// Where the handoff between the game loop and the render loop stands.
#[derive(Clone, Copy, Debug, PartialEq, Eq, Structural)]
pub enum ChannelState {
    /// Frames are accepted and delivered.
    Open,
    /// The producer has released its end; queued frames are still delivered.
    Closing,
    /// The consumer has seen the end, or has gone; nothing is delivered.
    Closed,
}

/// What a receive hands to the consumer.
#[derive(Debug)]
pub enum Received {
    /// The oldest frame that was waiting.
    Next(Frame),
    /// Nothing is waiting, but the producer may still send: wait and ask again.
    Pending,
    /// Nothing is waiting and nothing will come.
    Exhausted,
}

/// What a receive delivers, with the frame as the grid it shows.
pub enum Delivery {
    Next(Grid),
    Pending,
    Exhausted,
}

impl View for Received {
    type V = Delivery;

    open spec fn view(&self) -> Delivery {
        match *self {
            Received::Next(frame) => Delivery::Next(grid_of(frame)),
            Received::Pending => Delivery::Pending,
            Received::Exhausted => Delivery::Exhausted,
        }
    }
}

/// The channel as a value: the grids that wait, oldest first, and the state.
pub struct ChannelView {
    pub pending: Seq<Grid>,
    pub state: ChannelState,
}

impl ChannelView {
    /// A closed channel holds nothing.
    pub open spec fn wf(self) -> bool {
        self.state == ChannelState::Closed ==> self.pending.len() == 0
    }

    /// The channel as it is created: open and empty.
    pub open spec fn fresh() -> ChannelView {
        ChannelView { pending: Seq::empty(), state: ChannelState::Open }
    }

    /// After a send: an open channel takes the grid behind the others; any
    /// other drops it.
    pub open spec fn send(self, grid: Grid) -> ChannelView {
        if self.state == ChannelState::Open {
            ChannelView { pending: self.pending.push(grid), state: self.state }
        } else {
            self
        }
    }

    /// After the producer has released its end: an open channel is closing,
    /// with what waits in it untouched.
    pub open spec fn release(self) -> ChannelView {
        if self.state == ChannelState::Open {
            ChannelView { pending: self.pending, state: ChannelState::Closing }
        } else {
            self
        }
    }

    /// After the consumer has gone: closed, and what waited is lost.
    pub open spec fn disconnect(self) -> ChannelView {
        ChannelView { pending: Seq::empty(), state: ChannelState::Closed }
    }

    /// What a receive delivers.
    pub open spec fn delivery(self) -> Delivery {
        if self.pending.len() > 0 {
            Delivery::Next(self.pending[0])
        } else if self.state == ChannelState::Open {
            Delivery::Pending
        } else {
            Delivery::Exhausted
        }
    }

    /// After a receive: the oldest grid has left; a closing channel with
    /// nothing left is closed.
    pub open spec fn recv(self) -> ChannelView {
        if self.pending.len() > 0 {
            ChannelView { pending: self.pending.drop_first(), state: self.state }
        } else if self.state == ChannelState::Closing {
            ChannelView { pending: self.pending, state: ChannelState::Closed }
        } else {
            self
        }
    }
}

/// The queue between the game loop, which sends one frame per tick, and the
/// render loop, which takes them in the order they were sent.
pub struct RenderChannel {
    queue: VecDeque<Frame>,
    state: ChannelState,
}

impl View for RenderChannel {
    type V = ChannelView;

    closed spec fn view(&self) -> ChannelView {
        ChannelView { pending: self.queue@.map_values(|f: Frame| grid_of(f)), state: self.state }
    }
}

impl RenderChannel {
    #[verifier::type_invariant]
    spec fn inv(self) -> bool {
        self.state == ChannelState::Closed ==> self.queue@.len() == 0
    }

    /// Creates the channel: open, with nothing waiting.
    pub fn new() -> (channel: RenderChannel)
        ensures
            channel@ == ChannelView::fresh(),
    {
        let channel = RenderChannel { queue: VecDeque::new(), state: ChannelState::Open };
        assert(channel@.pending =~= Seq::empty());
        channel
    }

    /// The state of the channel. A channel is always well formed.
    pub fn state(&self) -> (state: ChannelState)
        ensures
            state == self@.state,
            self@.wf(),
    {
        proof {
            use_type_invariant(self);
        }
        self.state
    }

    /// The number of frames that wait.
    pub fn len(&self) -> (n: usize)
        ensures
            n == self@.pending.len(),
            self@.wf(),
    {
        proof {
            use_type_invariant(self);
        }
        self.queue.len()
    }

    /// Hands a frame to the consumer. It never waits and never fails: if the
    /// channel is not open, the frame is dropped.
    pub fn send(&mut self, frame: Frame)
        ensures
            final(self)@ == old(self)@.send(grid_of(frame)),
    {
        proof {
            use_type_invariant(&*self);
        }
        if self.state == ChannelState::Open {
            // The queue changes outside the channel, which so stays well
            // formed at every step.
            let mut queue: VecDeque<Frame> = VecDeque::new();
            std::mem::swap(&mut self.queue, &mut queue);
            queue.push_back(frame);
            self.queue = queue;
            assert(self@.pending =~= old(self)@.pending.push(grid_of(frame)));
        }
    }

    /// Releases the producer's end: no frame will be sent after this. Frames
    /// that wait stay deliverable.
    pub fn release(&mut self)
        ensures
            final(self)@ == old(self)@.release(),
    {
        if self.state == ChannelState::Open {
            self.state = ChannelState::Closing;
        }
    }

    /// Gives up the consumer's end: frames that wait are dropped, as is every
    /// frame sent later.
    pub fn disconnect(&mut self)
        ensures
            final(self)@ == old(self)@.disconnect(),
    {
        self.queue = VecDeque::new();
        self.state = ChannelState::Closed;
        assert(self@.pending =~= Seq::empty());
    }

    /// Takes the oldest waiting frame. With nothing waiting it says whether
    /// more may come (`Pending`) or not (`Exhausted`); the first `Exhausted`
    /// closes the channel.
    pub fn recv(&mut self) -> (received: Received)
        ensures
            received@ == old(self)@.delivery(),
            final(self)@ == old(self)@.recv(),
    {
        proof {
            use_type_invariant(&*self);
        }
        let mut queue: VecDeque<Frame> = VecDeque::new();
        std::mem::swap(&mut self.queue, &mut queue);
        let oldest = queue.pop_front();
        self.queue = queue;
        match oldest {
            Some(frame) => {
                assert(self@.pending =~= old(self)@.pending.drop_first());
                Received::Next(frame)
            },
            None => {
                assert(self@.pending =~= old(self)@.pending);
                match self.state {
                    ChannelState::Open => Received::Pending,
                    ChannelState::Closing => {
                        self.state = ChannelState::Closed;
                        Received::Exhausted
                    },
                    ChannelState::Closed => Received::Exhausted,
                }
            },
        }
    }
}

} // verus!
