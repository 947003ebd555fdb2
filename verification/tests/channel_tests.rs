use space_invaders::channel::{ChannelState, Received, RenderChannel};
use space_invaders::frame::{blank_frame, put_glyph, Frame};

fn marked(glyph: &'static str) -> Frame {
    let mut frame = blank_frame(3, 3);
    put_glyph(&mut frame, 0, 0, glyph);
    frame
}

fn expect_frame(received: Received) -> Frame {
    match received {
        Received::Next(frame) => frame,
        other => panic!("expected a frame, got {:?}", other),
    }
}

#[test]
fn new_channel_is_open_and_empty() {
    let channel = RenderChannel::new();
    assert_eq!(channel.state(), ChannelState::Open);
    assert_eq!(channel.len(), 0);
}

#[test]
fn frames_arrive_in_the_order_sent() {
    let mut channel = RenderChannel::new();
    channel.send(marked("1"));
    channel.send(marked("2"));
    channel.send(marked("3"));
    assert_eq!(channel.len(), 3);
    assert_eq!(expect_frame(channel.recv()), marked("1"));
    assert_eq!(expect_frame(channel.recv()), marked("2"));
    assert_eq!(expect_frame(channel.recv()), marked("3"));
    assert_eq!(channel.len(), 0);
    assert_eq!(channel.state(), ChannelState::Open);
}

#[test]
fn sends_and_receives_may_alternate() {
    let mut channel = RenderChannel::new();
    channel.send(marked("1"));
    channel.send(marked("2"));
    assert_eq!(expect_frame(channel.recv()), marked("1"));
    channel.send(marked("3"));
    assert_eq!(expect_frame(channel.recv()), marked("2"));
    assert_eq!(expect_frame(channel.recv()), marked("3"));
    assert!(matches!(channel.recv(), Received::Pending));
}

#[test]
fn three_frames_then_exhaustion() {
    let mut channel = RenderChannel::new();
    channel.send(marked("1"));
    channel.send(marked("2"));
    channel.send(marked("3"));
    channel.release();
    assert_eq!(channel.state(), ChannelState::Closing);
    assert_eq!(channel.len(), 3);
    assert_eq!(expect_frame(channel.recv()), marked("1"));
    assert_eq!(expect_frame(channel.recv()), marked("2"));
    assert_eq!(expect_frame(channel.recv()), marked("3"));
    assert_eq!(channel.state(), ChannelState::Closing);
    assert!(matches!(channel.recv(), Received::Exhausted));
    assert_eq!(channel.state(), ChannelState::Closed);
}

#[test]
fn empty_open_channel_is_pending() {
    let mut channel = RenderChannel::new();
    assert!(matches!(channel.recv(), Received::Pending));
    assert_eq!(channel.state(), ChannelState::Open);
    channel.send(marked("1"));
    assert_eq!(expect_frame(channel.recv()), marked("1"));
}

#[test]
fn released_empty_channel_is_exhausted_at_once() {
    let mut channel = RenderChannel::new();
    channel.release();
    assert_eq!(channel.state(), ChannelState::Closing);
    assert!(matches!(channel.recv(), Received::Exhausted));
    assert_eq!(channel.state(), ChannelState::Closed);
}

#[test]
fn closed_channel_stays_closed() {
    let mut channel = RenderChannel::new();
    channel.release();
    assert!(matches!(channel.recv(), Received::Exhausted));
    channel.send(marked("1"));
    channel.release();
    assert_eq!(channel.len(), 0);
    assert_eq!(channel.state(), ChannelState::Closed);
    assert!(matches!(channel.recv(), Received::Exhausted));
    assert_eq!(channel.state(), ChannelState::Closed);
}

#[test]
fn send_after_release_is_dropped() {
    let mut channel = RenderChannel::new();
    channel.send(marked("1"));
    channel.release();
    channel.send(marked("2"));
    assert_eq!(channel.len(), 1);
    assert_eq!(expect_frame(channel.recv()), marked("1"));
    assert!(matches!(channel.recv(), Received::Exhausted));
}

#[test]
fn send_after_disconnect_is_dropped() {
    let mut channel = RenderChannel::new();
    channel.send(marked("1"));
    channel.disconnect();
    assert_eq!(channel.state(), ChannelState::Closed);
    assert_eq!(channel.len(), 0);
    channel.send(marked("2"));
    assert_eq!(channel.len(), 0);
    assert_eq!(channel.state(), ChannelState::Closed);
}

#[test]
fn release_twice_is_release_once() {
    let mut channel = RenderChannel::new();
    channel.send(marked("1"));
    channel.release();
    channel.release();
    assert_eq!(channel.state(), ChannelState::Closing);
    assert_eq!(channel.len(), 1);
}
