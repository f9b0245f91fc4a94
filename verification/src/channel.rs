//! Counters for a wrapped channel or stream.
//!
//! A wrapper performs each send and receive on the endpoint it wraps and
//! reports the outcome here. The monitor hands every outcome back unchanged,
//! so that the caller sees what the endpoint itself returned, and counts on
//! the side.

use vstd::prelude::*;

verus! {

/// What a send on the wrapped endpoint came to.
#[derive(Clone, Copy, Debug, PartialEq, Eq, Structural)]
pub enum SendOutcome {
    /// The item was accepted.
    Sent,
    /// The endpoint is full: a blocking send would wait.
    Full,
    /// The receiving half is gone.
    Disconnected,
}

/// What a receive on the wrapped endpoint came to.
#[derive(Clone, Copy, Debug, PartialEq, Eq, Structural)]
pub enum RecvOutcome {
    /// An item was handed out.
    Received,
    /// Nothing is waiting: a blocking receive would wait.
    Empty,
    /// The sending half is gone and nothing is waiting.
    Disconnected,
}

/// The counters of one wrapped endpoint pair.
#[derive(Clone, Copy, Debug, PartialEq, Eq)]
pub struct ChannelState {
    /// Declared capacity; `None` for an unbounded endpoint.
    pub capacity: Option<u64>,
    /// Sends reported as accepted.
    pub sends: u64,
    /// Receives reported as handed out.
    pub receives: u64,
    /// The sending half was dropped.
    pub sender_gone: bool,
    /// The receiving half was dropped.
    pub receiver_gone: bool,
    /// An operation found the other half gone.
    pub disconnected: bool,
}

/// A point-in-time view of a wrapped endpoint pair.
#[derive(Clone, Copy, Debug, PartialEq, Eq)]
pub struct ChannelCounts {
    pub capacity: Option<u64>,
    pub occupancy: u64,
    pub sent_count: u64,
    pub received_count: u64,
    pub closed: bool,
}

/// Both halves are gone: nothing more is counted.
pub open spec fn frozen(s: ChannelState) -> bool {
    s.sender_gone && s.receiver_gone
}

/// The counters after a half is dropped: the sending half where `sender` is
/// set, the receiving half otherwise.
pub open spec fn half_gone(s: ChannelState, sender: bool) -> ChannelState {
    if sender {
        ChannelState { sender_gone: true, ..s }
    } else {
        ChannelState { receiver_gone: true, ..s }
    }
}

/// One more, but never past `u64::MAX`.
pub open spec fn bump(n: u64) -> u64 {
    if n < u64::MAX {
        (n + 1) as u64
    } else {
        n
    }
}

/// The counters after the outcome of a send is reported.
pub open spec fn after_send(s: ChannelState, outcome: SendOutcome) -> ChannelState {
    if frozen(s) {
        s
    } else {
        match outcome {
            SendOutcome::Sent => ChannelState { sends: bump(s.sends), ..s },
            SendOutcome::Full => s,
            SendOutcome::Disconnected => ChannelState { disconnected: true, ..s },
        }
    }
}

/// The counters after the outcome of a receive is reported.
pub open spec fn after_recv(s: ChannelState, outcome: RecvOutcome) -> ChannelState {
    if frozen(s) {
        s
    } else {
        match outcome {
            RecvOutcome::Received => ChannelState { receives: bump(s.receives), ..s },
            RecvOutcome::Empty => s,
            RecvOutcome::Disconnected => ChannelState { disconnected: true, ..s },
        }
    }
}

/// The number of items sent, as far as the reports show: every receive
/// answers a send, so where more receives than sends have been reported, the
/// sends whose report is still on its way are counted too.
pub open spec fn sent_count(s: ChannelState) -> u64 {
    if s.sends >= s.receives {
        s.sends
    } else {
        s.receives
    }
}

/// The number of items in flight, and no more than the declared capacity.
pub open spec fn occupancy(s: ChannelState) -> u64 {
    let waiting = (sent_count(s) - s.receives) as u64;
    match s.capacity {
        Some(c) => if waiting > c {
            c
        } else {
            waiting
        },
        None => waiting,
    }
}

/// Whether the pair can no longer pass items: a half was dropped, or an
/// operation found the other half gone.
pub open spec fn closed(s: ChannelState) -> bool {
    s.sender_gone || s.receiver_gone || s.disconnected
}

/// The snapshot of a state.
pub open spec fn counts_of(s: ChannelState) -> ChannelCounts {
    ChannelCounts {
        capacity: s.capacity,
        occupancy: occupancy(s),
        sent_count: sent_count(s),
        received_count: s.receives,
        closed: closed(s),
    }
}

impl ChannelState {
    /// The counters of a pair that was just wrapped.
    pub fn new(capacity: Option<u64>) -> (r: ChannelState)
        ensures
            r == (ChannelState {
                capacity,
                sends: 0,
                receives: 0,
                sender_gone: false,
                receiver_gone: false,
                disconnected: false,
            }),
    {
        ChannelState {
            capacity,
            sends: 0,
            receives: 0,
            sender_gone: false,
            receiver_gone: false,
            disconnected: false,
        }
    }

    /// Reports the outcome of a send and hands it back unchanged.
    pub fn on_send(&mut self, outcome: SendOutcome) -> (r: SendOutcome)
        ensures
            r == outcome,
            *final(self) == after_send(*old(self), outcome),
    {
        if !(self.sender_gone && self.receiver_gone) {
            match outcome {
                SendOutcome::Sent => {
                    if self.sends < u64::MAX {
                        self.sends = self.sends + 1;
                    }
                },
                SendOutcome::Full => {},
                SendOutcome::Disconnected => {
                    self.disconnected = true;
                },
            }
        }
        outcome
    }

    /// Reports the outcome of a receive and hands it back unchanged.
    pub fn on_recv(&mut self, outcome: RecvOutcome) -> (r: RecvOutcome)
        ensures
            r == outcome,
            *final(self) == after_recv(*old(self), outcome),
    {
        if !(self.sender_gone && self.receiver_gone) {
            match outcome {
                RecvOutcome::Received => {
                    if self.receives < u64::MAX {
                        self.receives = self.receives + 1;
                    }
                },
                RecvOutcome::Empty => {},
                RecvOutcome::Disconnected => {
                    self.disconnected = true;
                },
            }
        }
        outcome
    }

    /// Reports that a half was dropped: the sending half where `sender` is
    /// set, the receiving half otherwise.
    pub fn half_dropped(&mut self, sender: bool)
        ensures
            *final(self) == half_gone(*old(self), sender),
    {
        if sender {
            self.sender_gone = true;
        } else {
            self.receiver_gone = true;
        }
    }

    /// Reports that the sending half was dropped.
    pub fn sender_dropped(&mut self)
        ensures
            *final(self) == half_gone(*old(self), true),
    {
        self.half_dropped(true)
    }

    /// Reports that the receiving half was dropped.
    pub fn receiver_dropped(&mut self)
        ensures
            *final(self) == half_gone(*old(self), false),
    {
        self.half_dropped(false)
    }

    /// Whether both halves are gone, so that the pair can leave the table.
    pub fn is_finished(&self) -> (r: bool)
        ensures
            r == frozen(*self),
    {
        self.sender_gone && self.receiver_gone
    }

    /// The pair's counters at this moment.
    pub fn snapshot(&self) -> (r: ChannelCounts)
        ensures
            r == counts_of(*self),
            r.sent_count >= r.received_count,
    {
        let sent = if self.sends >= self.receives {
            self.sends
        } else {
            self.receives
        };
        let waiting = sent - self.receives;
        let occupancy = match self.capacity {
            Some(c) => if waiting > c {
                c
            } else {
                waiting
            },
            None => waiting,
        };
        ChannelCounts {
            capacity: self.capacity,
            occupancy,
            sent_count: sent,
            received_count: self.receives,
            closed: self.sender_gone || self.receiver_gone || self.disconnected,
        }
    }
}

/// In every state the snapshot shows at least as many items sent as received,
/// and no more in flight than were sent and not received.
pub proof fn law_sent_covers_received(s: ChannelState)
    ensures
        counts_of(s).sent_count >= counts_of(s).received_count,
        counts_of(s).occupancy <= counts_of(s).sent_count - counts_of(s).received_count,
        s.capacity.is_some() ==> counts_of(s).occupancy <= s.capacity.unwrap(),
{
}

/// Reporting never changes anything but the counters and the closed flag:
/// the declared capacity stays, and a pair that is closed stays closed.
pub proof fn law_reports_keep_capacity(s: ChannelState, sent: SendOutcome, got: RecvOutcome)
    ensures
        after_send(s, sent).capacity == s.capacity,
        after_recv(s, got).capacity == s.capacity,
        closed(s) ==> closed(after_send(s, sent)) && closed(after_recv(s, got)),
        after_send(s, sent).receives == s.receives,
        after_recv(s, got).sends == s.sends,
{
}

/// Once both halves are gone nothing more is counted.
pub proof fn law_frozen_counts_nothing(s: ChannelState, sent: SendOutcome, got: RecvOutcome)
    requires
        frozen(s),
    ensures
        after_send(s, sent) == s,
        after_recv(s, got) == s,
{
}

} // verus!
