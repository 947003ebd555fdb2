use vstd::prelude::*;
use crate::frame::Grid;
use crate::channel::{ChannelState, ChannelView, Delivery};

verus! {

/// The channel after the grids of `grids` were sent, first to last.
pub open spec fn send_all(ch: ChannelView, grids: Seq<Grid>) -> ChannelView
    decreases grids.len(),
{
    if grids.len() == 0 {
        ch
    } else {
        send_all(ch, grids.drop_last()).send(grids.last())
    }
}

/// The channel after `n` receives.
pub open spec fn recv_n(ch: ChannelView, n: nat) -> ChannelView
    decreases n,
{
    if n == 0 {
        ch
    } else {
        recv_n(ch, (n - 1) as nat).recv()
    }
}

/// What `n` receives deliver, first to last.
pub open spec fn delivered(ch: ChannelView, n: nat) -> Seq<Delivery>
    decreases n,
{
    if n == 0 {
        Seq::empty()
    } else {
        delivered(ch, (n - 1) as nat).push(recv_n(ch, (n - 1) as nat).delivery())
    }
}

/// A new channel is well formed, and every operation keeps it so.
pub proof fn lemma_wf_preserved(ch: ChannelView, grid: Grid)
    requires
        ch.wf(),
    ensures
        ChannelView::fresh().wf(),
        ch.send(grid).wf(),
        ch.release().wf(),
        ch.disconnect().wf(),
        ch.recv().wf(),
{
}

/// An open channel queues what is sent behind what waits, in the order of
/// sending, and stays open.
pub proof fn lemma_send_all_appends(ch: ChannelView, grids: Seq<Grid>)
    requires
        ch.state == ChannelState::Open,
    ensures
        send_all(ch, grids) == (ChannelView {
            pending: ch.pending + grids,
            state: ChannelState::Open,
        }),
    decreases grids.len(),
{
    if grids.len() == 0 {
        assert(ch.pending + grids =~= ch.pending);
    } else {
        lemma_send_all_appends(ch, grids.drop_last());
        assert((ch.pending + grids.drop_last()).push(grids.last()) =~= ch.pending + grids);
    }
}

/// As long as grids wait, receives deliver them oldest first, one each, and
/// leave the others and the state as they were.
pub proof fn lemma_receive_in_order(ch: ChannelView, n: nat)
    requires
        n <= ch.pending.len(),
    ensures
        recv_n(ch, n) == (ChannelView { pending: ch.pending.skip(n as int), state: ch.state }),
        delivered(ch, n).len() == n,
        forall|i: int| 0 <= i < n ==> #[trigger] delivered(ch, n)[i] == Delivery::Next(ch.pending[i]),
    decreases n,
{
    if n == 0 {
        assert(ch.pending.skip(0) =~= ch.pending);
    } else {
        let m = (n - 1) as nat;
        lemma_receive_in_order(ch, m);
        assert(ch.pending.skip(m as int).drop_first() =~= ch.pending.skip(n as int));
        assert(ch.pending.skip(m as int)[0] == ch.pending[m as int]);
    }
}

/// Grids sent through a new channel are received in the order in which they
/// were sent, each once and none missing.
pub proof fn lemma_channel_order(grids: Seq<Grid>)
    ensures
        delivered(send_all(ChannelView::fresh(), grids), grids.len()) == grids.map_values(
            |g: Grid| Delivery::Next(g),
        ),
        recv_n(send_all(ChannelView::fresh(), grids), grids.len()) == ChannelView::fresh(),
{
    let sent = send_all(ChannelView::fresh(), grids);
    lemma_send_all_appends(ChannelView::fresh(), grids);
    assert(Seq::<Grid>::empty() + grids =~= grids);
    lemma_receive_in_order(sent, grids.len());
    assert(grids.skip(grids.len() as int) =~= Seq::<Grid>::empty());
    assert(delivered(sent, grids.len()) =~= grids.map_values(|g: Grid| Delivery::Next(g)));
}

/// Once the producer has released its end, no receive asks the consumer to
/// wait.
pub proof fn lemma_released_never_pending(ch: ChannelView)
    requires
        ch.state != ChannelState::Open,
    ensures
        ch.delivery() != Delivery::Pending,
        ch.release().delivery() != Delivery::Pending,
{
}

/// After the producer has released its end, the grids that wait are still
/// delivered in order; the receive after the last of them reports the end,
/// and it is that receive which closes the channel.
pub proof fn lemma_shutdown(ch: ChannelView)
    requires
        ch.state == ChannelState::Open,
    ensures
        ({
            let closing = ch.release();
            let n = ch.pending.len();
            &&& closing.pending == ch.pending
            &&& forall|i: int| 0 <= i < n ==> #[trigger] delivered(closing, (n + 1) as nat)[i] == Delivery::Next(ch.pending[i])
            &&& delivered(closing, (n + 1) as nat)[n as int] == Delivery::Exhausted
            &&& recv_n(closing, n).state == ChannelState::Closing
            &&& recv_n(closing, (n + 1) as nat) == (ChannelView {
                pending: Seq::empty(),
                state: ChannelState::Closed,
            })
        }),
{
    let closing = ch.release();
    let n = ch.pending.len();
    lemma_receive_in_order(closing, n);
    assert(closing.pending.skip(n as int) =~= Seq::<Grid>::empty());
    assert(delivered(closing, (n + 1) as nat) == delivered(closing, n).push(recv_n(closing, n).delivery()));
    assert forall|i: int| 0 <= i < n implies #[trigger] delivered(closing, (n + 1) as nat)[i]
        == Delivery::Next(ch.pending[i]) by {
        assert(delivered(closing, (n + 1) as nat)[i] == delivered(closing, n)[i]);
    }
}

/// A closed channel stays closed and empty: it drops what is sent, and every
/// receive reports the end.
pub proof fn lemma_closed_is_final(ch: ChannelView, grid: Grid)
    requires
        ch.wf(),
        ch.state == ChannelState::Closed,
    ensures
        ch.send(grid) == ch,
        ch.release() == ch,
        ch.recv() == ch,
        ch.disconnect() == ch,
        ch.delivery() == Delivery::Exhausted,
{
    assert(ch.pending =~= Seq::empty());
}

} // verus!
