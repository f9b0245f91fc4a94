//! The demo workload: two channels, each with a thread that sends at a fixed
//! pace and a thread that receives at a slower one, so that the console has
//! something to show.
//!
//! The threads and the channels belong to the program around the library.
//! What each thread sends, how long it rests and when it ends is decided here.

use vstd::prelude::*;
use crate::text::{decimal, push_decimal};

verus! {

/// What a demo channel carries.
#[derive(Clone, Copy, Debug, PartialEq, Eq, Structural)]
pub enum Payload {
    /// The text `Message ` followed by the message's number.
    Text,
    /// The message's number itself.
    Number,
}

/// One channel of the demo.
#[derive(Clone, Copy, Debug, PartialEq, Eq)]
pub struct DemoChannel {
    pub label: &'static str,
    /// Capacity of the channel; `None` for an unbounded one.
    pub capacity: Option<usize>,
    /// Whether the channel's messages are logged.
    pub log: bool,
    pub payload: Payload,
    /// Rest of the sending thread after each message, in milliseconds.
    pub send_pause_ms: u64,
    /// Rest of the receiving thread after each message, in milliseconds.
    pub recv_pause_ms: u64,
}

/// What a demo thread does next.
#[derive(Clone, Copy, Debug, PartialEq, Eq)]
pub enum Step {
    /// The other side is gone: the thread ends.
    Stop,
    /// The thread rests, then goes on with the message of the given number.
    Rest { millis: u64, next: u64 },
}

/// The bounded demo channel: ten slots, text messages, a message every 100
/// milliseconds, each taking the receiver 150.
pub fn spawn_bounded_channel() -> (r: DemoChannel)
    ensures
        r.label@ == "demo-bounded"@,
        r.capacity == Some(10usize),
        r.log,
        r.payload == Payload::Text,
        r.send_pause_ms == 100,
        r.recv_pause_ms == 150,
{
    DemoChannel {
        label: "demo-bounded",
        capacity: Some(10),
        log: true,
        payload: Payload::Text,
        send_pause_ms: 100,
        recv_pause_ms: 150,
    }
}

/// The unbounded demo channel: numbers, one every 50 milliseconds, each
/// taking the receiver 80.
pub fn spawn_unbounded_channel() -> (r: DemoChannel)
    ensures
        r.label@ == "demo-unbounded"@,
        r.capacity == None::<usize>,
        r.log,
        r.payload == Payload::Number,
        r.send_pause_ms == 50,
        r.recv_pause_ms == 80,
{
    DemoChannel {
        label: "demo-unbounded",
        capacity: None,
        log: true,
        payload: Payload::Number,
        send_pause_ms: 50,
        recv_pause_ms: 80,
    }
}

/// The channels of the demo: the bounded one, then the unbounded one.
pub fn init() -> (r: Vec<DemoChannel>)
    ensures
        r@.len() == 2,
        r@[0].label@ == "demo-bounded"@,
        r@[0].capacity == Some(10usize),
        r@[0].payload == Payload::Text,
        r@[0].send_pause_ms == 100 && r@[0].recv_pause_ms == 150,
        r@[1].label@ == "demo-unbounded"@,
        r@[1].capacity == None::<usize>,
        r@[1].payload == Payload::Number,
        r@[1].send_pause_ms == 50 && r@[1].recv_pause_ms == 80,
        r@[0].log && r@[1].log,
{
    let mut out: Vec<DemoChannel> = Vec::new();
    out.push(spawn_bounded_channel());
    out.push(spawn_unbounded_channel());
    out
}

/// The text of the message of the given number.
pub fn message_text(counter: u64) -> (r: String)
    ensures
        r@ == "Message "@ + decimal(counter as nat),
{
    let mut out = "Message ".to_owned();
    push_decimal(&mut out, counter);
    out
}

/// What the sending thread does after it tried to send message `counter`:
/// it ends where the send failed, and otherwise rests before the next
/// message. The numbering starts over after `u64::MAX`.
pub fn after_send(channel: &DemoChannel, counter: u64, sent: bool) -> (r: Step)
    ensures
        r == if !sent {
            Step::Stop
        } else {
            Step::Rest {
                millis: channel.send_pause_ms,
                next: if counter == u64::MAX {
                    0
                } else {
                    (counter + 1) as u64
                },
            }
        },
{
    if !sent {
        Step::Stop
    } else {
        Step::Rest { millis: channel.send_pause_ms, next: counter.wrapping_add(1) }
    }
}

/// What the receiving thread does after it tried to receive: it ends where
/// nothing can come any more, and otherwise rests before the next receive.
/// `received` counts the messages it has taken so far.
pub fn after_recv(channel: &DemoChannel, received: u64, got: bool) -> (r: Step)
    ensures
        r == if !got {
            Step::Stop
        } else {
            Step::Rest {
                millis: channel.recv_pause_ms,
                next: if received == u64::MAX {
                    0
                } else {
                    (received + 1) as u64
                },
            }
        },
{
    if !got {
        Step::Stop
    } else {
        Step::Rest { millis: channel.recv_pause_ms, next: received.wrapping_add(1) }
    }
}

} // verus!
