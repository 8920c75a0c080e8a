//! One session of the MQTT source: what is done with each packet, how a row
//! waits for room, and where every message ends up. Times are in microseconds.

use super::codec::Packet;
use vstd::prelude::*;

verus! {

/// Counts of what became of the messages of a session.
#[derive(Clone, Copy, Debug, PartialEq, Eq, Structural)]
pub struct SourceCounts {
    pub received: u64,
    pub decoded: u64,
    /// Messages that could not be decoded.
    pub dropped_bad: u64,
    pub decode_errors: u64,
    /// Rows that found no room in time.
    pub dropped_full: u64,
    /// Rows for which there was no memory.
    pub dropped_budget: u64,
    /// Rows that no inbox could ever hold.
    pub dropped_oversize: u64,
    /// Rows that had to wait for room.
    pub waits: u64,
    /// Rows that got room after they had waited.
    pub recovered: u64,
    /// Rows that went into the inbox.
    pub delivered: u64,
    /// Rows that were held when the session ended.
    pub abandoned: u64,
    /// Rows for which not even working memory was granted.
    pub unreserved: u64,
}

/// The message that the session has in hand.
#[derive(Clone, Copy, Debug, PartialEq, Eq, Structural)]
pub enum Held {
    Nothing,
    /// A payload that is being decoded.
    Payload,
    /// A decoded row that was not offered to the inbox yet.
    Row,
    /// A row that waits for room until the deadline.
    Waiting { deadline: u64 },
    /// A row whose memory is reserved while it waits for room and credit.
    Charged { bytes: u64, deadline: u64, waited: bool, no_credit: bool },
}

/// The state of a session after its handshake.
#[derive(Clone, Copy, Debug, PartialEq, Eq, Structural)]
pub struct SourceSession {
    pub counts: SourceCounts,
    pub held: Held,
    pub ping_every: u64,
    pub next_ping: u64,
}

/// How often a session pings: twice per keepalive.
pub open spec fn ping_interval(keepalive_ms: u64) -> u64 {
    if keepalive_ms == 0 {
        15000000
    } else if keepalive_ms * 500 > u64::MAX {
        u64::MAX
    } else {
        (keepalive_ms * 500) as u64
    }
}

/// Says how often a session pings.
pub fn ping_every(keepalive_ms: u64) -> (r: u64)
    ensures
        r == ping_interval(keepalive_ms),
{
    if keepalive_ms == 0 {
        15000000
    } else {
        let n: u128 = keepalive_ms as u128 * 500;
        if n > u64::MAX as u128 {
            u64::MAX
        } else {
            n as u64
        }
    }
}

/// A moment that does not pass the end of the clock.
pub open spec fn later(now: u64, wait: u64) -> u64 {
    if now + wait > u64::MAX {
        u64::MAX
    } else {
        (now + wait) as u64
    }
}

impl SourceCounts {
    /// Rows that left the session, however they did.
    pub open spec fn settled(self) -> int {
        self.delivered + self.dropped_full + self.dropped_oversize + self.unreserved
            + self.abandoned
    }
}

impl SourceSession {
    /// One where a message is in hand.
    pub open spec fn in_hand(self) -> int {
        if self.held is Nothing {
            0
        } else {
            1
        }
    }

    /// One where a decoded row is in hand.
    pub open spec fn row_in_hand(self) -> int {
        if self.held is Nothing || self.held is Payload {
            0
        } else {
            1
        }
    }

    /// One where a row in hand was counted as waiting.
    pub open spec fn waiting(self) -> int {
        match self.held {
            Held::Waiting { .. } => 1,
            Held::Charged { waited, .. } => if waited {
                1
            } else {
                0
            },
            _ => 0,
        }
    }

    /// Bytes that are reserved for the row in hand.
    pub open spec fn pending_bytes(self) -> u64 {
        match self.held {
            Held::Charged { bytes, .. } => bytes,
            _ => 0,
        }
    }

    /// Every message is accounted for once: it could not be decoded, its row
    /// left the session, or it is in hand. Rows that waited recovered, were
    /// dropped, were abandoned, or still wait.
    pub open spec fn wf(self) -> bool {
        let c = self.counts;
        &&& c.received == c.dropped_bad + c.settled() + self.in_hand()
        &&& c.decoded == c.settled() + self.row_in_hand()
        &&& c.decode_errors == c.dropped_bad
        &&& c.recovered <= c.delivered
        &&& c.recovered + self.waiting() <= c.waits
        &&& c.waits <= c.recovered + c.dropped_full + c.abandoned + self.waiting()
        &&& c.dropped_budget <= c.dropped_full + c.unreserved
    }

    /// A session in which nothing was received yet.
    pub fn new(keepalive_ms: u64, now: u64) -> (r: Self)
        ensures
            r.wf(),
            r.held is Nothing,
            r.counts.received == 0,
            r.ping_every == ping_interval(keepalive_ms),
            r.next_ping == later(now, r.ping_every),
    {
        let every: u64 = ping_every(keepalive_ms);
        SourceSession {
            counts: SourceCounts {
                received: 0,
                decoded: 0,
                dropped_bad: 0,
                decode_errors: 0,
                dropped_full: 0,
                dropped_budget: 0,
                dropped_oversize: 0,
                waits: 0,
                recovered: 0,
                delivered: 0,
                abandoned: 0,
                unreserved: 0,
            },
            held: Held::Nothing,
            ping_every: every,
            next_ping: now.saturating_add(every),
        }
    }

    /// A ping was sent. Only what this client sends moves the next one.
    pub fn on_ping(&mut self, now: u64)
        ensures
            final(self).next_ping == later(now, old(self).ping_every),
            final(self).ping_every == old(self).ping_every,
            final(self).counts == old(self).counts,
            final(self).held == old(self).held,
            old(self).wf() ==> final(self).wf(),
    {
        self.next_ping = now.saturating_add(self.ping_every);
    }
}

/// What is done with a packet.
#[derive(Debug)]
pub enum PacketStep {
    /// The payload is decoded.
    Decode(Vec<u8>),
    Ignore,
    /// The session ends.
    Close,
}

/// What came of decoding a payload.
#[derive(Clone, Copy, Debug, PartialEq, Eq, Structural)]
pub enum Decoded {
    Row,
    /// The decoder dropped the record.
    Dropped,
    Failed,
}

/// What follows the decoding.
#[derive(Clone, Copy, Debug, PartialEq, Eq, Structural)]
pub enum DecodeStep {
    /// The row is offered to the inbox.
    Offer,
    /// The next packet is read.
    Read,
    /// The source fails.
    Fail,
}

/// What the inbox said to a row.
#[derive(Clone, Copy, Debug, PartialEq, Eq, Structural)]
pub enum Offer {
    Taken,
    Full,
    Closed,
}

/// What follows an offer or a wait.
#[derive(Clone, Copy, Debug, PartialEq, Eq, Structural)]
pub enum RowStep {
    /// The next packet is read.
    Read,
    /// The row waits until there is room, the deadline, a ping or the end.
    Wait,
    /// A ping is sent, and the row waits on.
    PingThenWait,
    /// The row is put into the room that it got.
    Send,
    /// The row is offered again.
    Retry,
    /// A ping is sent, and the row is offered again.
    PingThenRetry,
    /// The row waits briefly for memory.
    WaitForCredit,
    /// The session ends.
    Close,
}

/// What ends a wait, in the order in which events count.
#[derive(Clone, Copy, Debug, PartialEq, Eq, Structural)]
pub enum WaitEvent {
    Cancelled,
    Deadline,
    /// A ping is due at this moment.
    PingDue(u64),
    /// There is room, or it is time to look again.
    Room,
    /// The inbox is gone.
    Closed,
}

/// What became of putting a charged row into the inbox.
#[derive(Clone, Copy, Debug, PartialEq, Eq, Structural)]
pub enum Attempt {
    Cancelled,
    Taken,
    /// There is room, but no memory for the row.
    NoCredit,
    Full,
    Closed,
}

impl SourceSession {
    /// Decides what is done with a packet.
    pub fn on_packet(&mut self, packet: Packet) -> (r: PacketStep)
        requires
            old(self).wf(),
            old(self).held is Nothing,
            old(self).counts.received < u64::MAX,
        ensures
            final(self).wf(),
            final(self).next_ping == old(self).next_ping,
            final(self).ping_every == old(self).ping_every,
            match packet {
                Packet::Publish(p) => {
                    &&& r == PacketStep::Decode(p.payload)
                    &&& final(self).held is Payload
                    &&& final(self).counts == (SourceCounts {
                        received: (old(self).counts.received + 1) as u64,
                        ..old(self).counts
                    })
                },
                Packet::Disconnect => r is Close && *final(self) == *old(self),
                _ => r is Ignore && *final(self) == *old(self),
            },
    {
        match packet {
            Packet::Publish(p) => {
                self.counts.received = self.counts.received + 1;
                self.held = Held::Payload;
                PacketStep::Decode(p.payload)
            },
            Packet::Disconnect => PacketStep::Close,
            _ => PacketStep::Ignore,
        }
    }

    /// Takes in what came of decoding the payload.
    pub fn on_decoded(&mut self, decoded: Decoded, fail_on_decode: bool) -> (r: DecodeStep)
        requires
            old(self).wf(),
            old(self).held is Payload,
        ensures
            final(self).wf(),
            final(self).next_ping == old(self).next_ping,
            final(self).ping_every == old(self).ping_every,
            if decoded == Decoded::Row {
                &&& r == DecodeStep::Offer
                &&& final(self).held is Row
                &&& final(self).counts == (SourceCounts {
                    decoded: (old(self).counts.decoded + 1) as u64,
                    ..old(self).counts
                })
            } else {
                &&& r == if decoded == Decoded::Failed && fail_on_decode {
                    DecodeStep::Fail
                } else {
                    DecodeStep::Read
                }
                &&& final(self).held is Nothing
                &&& final(self).counts == (SourceCounts {
                    dropped_bad: (old(self).counts.dropped_bad + 1) as u64,
                    decode_errors: (old(self).counts.decode_errors + 1) as u64,
                    ..old(self).counts
                })
            },
    {
        if decoded == Decoded::Row {
            self.counts.decoded = self.counts.decoded + 1;
            self.held = Held::Row;
            return DecodeStep::Offer;
        }
        self.counts.dropped_bad = self.counts.dropped_bad + 1;
        self.counts.decode_errors = self.counts.decode_errors + 1;
        self.held = Held::Nothing;
        if decoded == Decoded::Failed && fail_on_decode {
            DecodeStep::Fail
        } else {
            DecodeStep::Read
        }
    }

    /// Takes in what the inbox said to a row. With no time to wait, a row that
    /// finds the inbox full is dropped at once.
    pub fn on_offer(&mut self, offer: Offer, wait: u64, now: u64) -> (r: RowStep)
        requires
            old(self).wf(),
            old(self).held is Row,
        ensures
            final(self).wf(),
            final(self).next_ping == old(self).next_ping,
            final(self).ping_every == old(self).ping_every,
            match offer {
                Offer::Taken => {
                    &&& r == RowStep::Read
                    &&& final(self).held is Nothing
                    &&& final(self).counts == (SourceCounts {
                        delivered: (old(self).counts.delivered + 1) as u64,
                        ..old(self).counts
                    })
                },
                Offer::Full => if wait == 0 {
                    &&& r == RowStep::Read
                    &&& final(self).held is Nothing
                    &&& final(self).counts == (SourceCounts {
                        dropped_full: (old(self).counts.dropped_full + 1) as u64,
                        ..old(self).counts
                    })
                } else {
                    &&& r == RowStep::Wait
                    &&& final(self).held == (Held::Waiting { deadline: later(now, wait) })
                    &&& final(self).counts == (SourceCounts {
                        waits: (old(self).counts.waits + 1) as u64,
                        ..old(self).counts
                    })
                },
                Offer::Closed => {
                    &&& r == RowStep::Close
                    &&& final(self).held is Nothing
                    &&& final(self).counts == (SourceCounts {
                        abandoned: (old(self).counts.abandoned + 1) as u64,
                        ..old(self).counts
                    })
                },
            },
    {
        match offer {
            Offer::Taken => {
                self.counts.delivered = self.counts.delivered + 1;
                self.held = Held::Nothing;
                RowStep::Read
            },
            Offer::Full => if wait == 0 {
                self.counts.dropped_full = self.counts.dropped_full + 1;
                self.held = Held::Nothing;
                RowStep::Read
            } else {
                self.counts.waits = self.counts.waits + 1;
                self.held = Held::Waiting { deadline: now.saturating_add(wait) };
                RowStep::Wait
            },
            Offer::Closed => {
                self.counts.abandoned = self.counts.abandoned + 1;
                self.held = Held::Nothing;
                RowStep::Close
            },
        }
    }

    /// Takes in what ended the wait of a row for room. A ping neither moves the
    /// deadline nor lets go of the row.
    pub fn on_wait(&mut self, event: WaitEvent) -> (r: RowStep)
        requires
            old(self).wf(),
            old(self).held is Waiting,
        ensures
            final(self).wf(),
            final(self).ping_every == old(self).ping_every,
            match event {
                WaitEvent::PingDue(now) => {
                    &&& r == RowStep::PingThenWait
                    &&& final(self).held == old(self).held
                    &&& final(self).counts == old(self).counts
                    &&& final(self).next_ping == later(now, old(self).ping_every)
                },
                WaitEvent::Deadline => {
                    &&& r == RowStep::Read
                    &&& final(self).held is Nothing
                    &&& final(self).next_ping == old(self).next_ping
                    &&& final(self).counts == (SourceCounts {
                        dropped_full: (old(self).counts.dropped_full + 1) as u64,
                        ..old(self).counts
                    })
                },
                WaitEvent::Room => {
                    &&& r == RowStep::Send
                    &&& final(self).held is Nothing
                    &&& final(self).next_ping == old(self).next_ping
                    &&& final(self).counts == (SourceCounts {
                        delivered: (old(self).counts.delivered + 1) as u64,
                        recovered: (old(self).counts.recovered + 1) as u64,
                        ..old(self).counts
                    })
                },
                _ => {
                    &&& r == RowStep::Close
                    &&& final(self).held is Nothing
                    &&& final(self).next_ping == old(self).next_ping
                    &&& final(self).counts == (SourceCounts {
                        abandoned: (old(self).counts.abandoned + 1) as u64,
                        ..old(self).counts
                    })
                },
            },
    {
        match event {
            WaitEvent::PingDue(now) => {
                self.next_ping = now.saturating_add(self.ping_every);
                RowStep::PingThenWait
            },
            WaitEvent::Deadline => {
                self.counts.dropped_full = self.counts.dropped_full + 1;
                self.held = Held::Nothing;
                RowStep::Read
            },
            WaitEvent::Room => {
                self.counts.delivered = self.counts.delivered + 1;
                self.counts.recovered = self.counts.recovered + 1;
                self.held = Held::Nothing;
                RowStep::Send
            },
            _ => {
                self.counts.abandoned = self.counts.abandoned + 1;
                self.held = Held::Nothing;
                RowStep::Close
            },
        }
    }

    /// Looks at the size of a row that will be charged; says whether any inbox
    /// could hold it. One that none could is dropped.
    pub fn on_size(&mut self, bytes: usize, queue_bytes: usize, max_row_bytes: usize) -> (r: bool)
        requires
            old(self).wf(),
            old(self).held is Row,
        ensures
            final(self).wf(),
            r == (bytes <= queue_bytes && bytes <= max_row_bytes),
            final(self).next_ping == old(self).next_ping,
            final(self).ping_every == old(self).ping_every,
            r ==> *final(self) == *old(self),
            !r ==> final(self).held is Nothing && final(self).counts == (SourceCounts {
                dropped_oversize: (old(self).counts.dropped_oversize + 1) as u64,
                ..old(self).counts
            }),
    {
        if bytes > queue_bytes || bytes > max_row_bytes {
            self.counts.dropped_oversize = self.counts.dropped_oversize + 1;
            self.held = Held::Nothing;
            return false;
        }
        true
    }

    /// Takes in whether memory was reserved for the row while it waits; without
    /// it the row is dropped.
    pub fn on_reservation(&mut self, reserved: bool, bytes: u64, wait: u64, now: u64) -> (r: bool)
        requires
            old(self).wf(),
            old(self).held is Row,
        ensures
            final(self).wf(),
            r == reserved,
            final(self).next_ping == old(self).next_ping,
            final(self).ping_every == old(self).ping_every,
            reserved ==> final(self).counts == old(self).counts && final(self).held == (
            Held::Charged {
                bytes,
                deadline: later(now, wait),
                waited: false,
                no_credit: false,
            }),
            !reserved ==> final(self).held is Nothing && final(self).counts == (SourceCounts {
                dropped_budget: (old(self).counts.dropped_budget + 1) as u64,
                unreserved: (old(self).counts.unreserved + 1) as u64,
                ..old(self).counts
            }),
    {
        if reserved {
            self.held = Held::Charged {
                bytes,
                deadline: now.saturating_add(wait),
                waited: false,
                no_credit: false,
            };
            true
        } else {
            self.counts.dropped_budget = self.counts.dropped_budget + 1;
            self.counts.unreserved = self.counts.unreserved + 1;
            self.held = Held::Nothing;
            false
        }
    }

    /// The counts after a charged row found no room in time.
    pub open spec fn timed_out(c: SourceCounts, no_credit: bool) -> SourceCounts {
        SourceCounts {
            dropped_full: (c.dropped_full + 1) as u64,
            dropped_budget: if no_credit {
                (c.dropped_budget + 1) as u64
            } else {
                c.dropped_budget
            },
            ..c
        }
    }

    fn time_out(&mut self, no_credit: bool)
        requires
            old(self).wf(),
            old(self).held is Charged,
        ensures
            final(self).wf(),
            final(self).held is Nothing,
            final(self).next_ping == old(self).next_ping,
            final(self).ping_every == old(self).ping_every,
            final(self).counts == Self::timed_out(old(self).counts, no_credit),
    {
        self.counts.dropped_full = self.counts.dropped_full + 1;
        if no_credit {
            self.counts.dropped_budget = self.counts.dropped_budget + 1;
        }
        self.held = Held::Nothing;
    }

    /// Takes in what became of putting a charged row into the inbox. A row is
    /// counted as waiting once, however often it is tried.
    pub fn on_attempt(&mut self, attempt: Attempt, now: u64) -> (r: RowStep)
        requires
            old(self).wf(),
            old(self).held is Charged,
        ensures
            final(self).wf(),
            final(self).next_ping == old(self).next_ping,
            final(self).ping_every == old(self).ping_every,
            match attempt {
                Attempt::Taken => {
                    &&& r == RowStep::Read
                    &&& final(self).held is Nothing
                    &&& final(self).counts == (SourceCounts {
                        delivered: (old(self).counts.delivered + 1) as u64,
                        recovered: if old(self).held->waited {
                            (old(self).counts.recovered + 1) as u64
                        } else {
                            old(self).counts.recovered
                        },
                        ..old(self).counts
                    })
                },
                Attempt::Cancelled | Attempt::Closed => {
                    &&& r == RowStep::Close
                    &&& final(self).held is Nothing
                    &&& final(self).counts == (SourceCounts {
                        abandoned: (old(self).counts.abandoned + 1) as u64,
                        ..old(self).counts
                    })
                },
                Attempt::NoCredit | Attempt::Full => if now >= old(self).held->Charged_deadline {
                    &&& r == RowStep::Read
                    &&& final(self).held is Nothing
                    &&& final(self).counts == Self::timed_out(
                        old(self).counts,
                        attempt == Attempt::NoCredit,
                    )
                } else {
                    &&& r == if attempt == Attempt::NoCredit {
                        RowStep::WaitForCredit
                    } else {
                        RowStep::Wait
                    }
                    &&& final(self).held == (Held::Charged {
                        bytes: old(self).held->bytes,
                        deadline: old(self).held->Charged_deadline,
                        waited: true,
                        no_credit: attempt == Attempt::NoCredit,
                    })
                    &&& final(self).counts == (SourceCounts {
                        waits: if old(self).held->waited {
                            old(self).counts.waits
                        } else {
                            (old(self).counts.waits + 1) as u64
                        },
                        ..old(self).counts
                    })
                },
            },
    {
        let (bytes, deadline, waited): (u64, u64, bool) = match self.held {
            Held::Charged { bytes, deadline, waited, .. } => (bytes, deadline, waited),
            _ => (0, 0, false),
        };
        match attempt {
            Attempt::Taken => {
                self.counts.delivered = self.counts.delivered + 1;
                if waited {
                    self.counts.recovered = self.counts.recovered + 1;
                }
                self.held = Held::Nothing;
                RowStep::Read
            },
            Attempt::Cancelled | Attempt::Closed => {
                self.counts.abandoned = self.counts.abandoned + 1;
                self.held = Held::Nothing;
                RowStep::Close
            },
            Attempt::NoCredit | Attempt::Full => {
                let no_credit: bool = attempt == Attempt::NoCredit;
                if now >= deadline {
                    self.time_out(no_credit);
                    return RowStep::Read;
                }
                if !waited {
                    self.counts.waits = self.counts.waits + 1;
                }
                self.held = Held::Charged { bytes, deadline, waited: true, no_credit };
                if no_credit {
                    RowStep::WaitForCredit
                } else {
                    RowStep::Wait
                }
            },
        }
    }

    /// Takes in what ended the wait of a charged row.
    pub fn on_charged_wait(&mut self, event: WaitEvent) -> (r: RowStep)
        requires
            old(self).wf(),
            old(self).held is Charged,
            old(self).held->waited,
        ensures
            final(self).wf(),
            final(self).ping_every == old(self).ping_every,
            match event {
                WaitEvent::PingDue(now) => {
                    &&& r == RowStep::PingThenRetry
                    &&& final(self).held == old(self).held
                    &&& final(self).counts == old(self).counts
                    &&& final(self).next_ping == later(now, old(self).ping_every)
                },
                WaitEvent::Room | WaitEvent::Closed => {
                    &&& r == RowStep::Retry
                    &&& *final(self) == *old(self)
                },
                WaitEvent::Deadline => {
                    &&& r == RowStep::Read
                    &&& final(self).held is Nothing
                    &&& final(self).next_ping == old(self).next_ping
                    &&& final(self).counts == Self::timed_out(
                        old(self).counts,
                        old(self).held->no_credit,
                    )
                },
                WaitEvent::Cancelled => {
                    &&& r == RowStep::Close
                    &&& final(self).held is Nothing
                    &&& final(self).next_ping == old(self).next_ping
                    &&& final(self).counts == (SourceCounts {
                        abandoned: (old(self).counts.abandoned + 1) as u64,
                        ..old(self).counts
                    })
                },
            },
    {
        match event {
            WaitEvent::PingDue(now) => {
                self.next_ping = now.saturating_add(self.ping_every);
                RowStep::PingThenRetry
            },
            WaitEvent::Room | WaitEvent::Closed => RowStep::Retry,
            WaitEvent::Deadline => {
                let no_credit: bool = match self.held {
                    Held::Charged { no_credit, .. } => no_credit,
                    _ => false,
                };
                self.time_out(no_credit);
                RowStep::Read
            },
            WaitEvent::Cancelled => {
                self.counts.abandoned = self.counts.abandoned + 1;
                self.held = Held::Nothing;
                RowStep::Close
            },
        }
    }
}

/// In a session that dropped and abandoned nothing, every row that had to wait
/// got its room.
pub proof fn law_undropped_waits_recover(s: SourceSession)
    requires
        s.wf(),
        s.held is Nothing,
        s.counts.dropped_full == 0,
        s.counts.abandoned == 0,
    ensures
        s.counts.waits == s.counts.recovered,
{
}

/// Between messages, every message was either not decodable or its row was
/// delivered, dropped for a counted reason, or abandoned at the end.
pub proof fn law_every_message_is_accounted_for(s: SourceSession)
    requires
        s.wf(),
        s.held is Nothing,
    ensures
        s.counts.received == s.counts.decoded + s.counts.dropped_bad,
        s.counts.decoded == s.counts.delivered + s.counts.dropped_full + s.counts.dropped_oversize
            + s.counts.unreserved + s.counts.abandoned,
        s.pending_bytes() == 0,
{
}

} // verus!
