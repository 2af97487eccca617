//! The connection to the server: when it is tried again, and when it ends.
use crate::text::owned;
use vstd::prelude::*;

verus! {

/// How long to wait before an attempt, which doubles up to a limit.
pub open spec fn delay(attempt: u32) -> u64 {
    if attempt == 0 {
        250
    } else if attempt == 1 {
        500
    } else if attempt == 2 {
        1000
    } else if attempt == 3 {
        2000
    } else if attempt == 4 {
        4000
    } else {
        8000
    }
}

/// How long to wait before an attempt, in milliseconds.
pub fn reconnect_delay_ms(attempt: u32) -> (r: u64)
    ensures
        r == delay(attempt),
{
    let capped: u32 = if attempt < 5 {
        attempt
    } else {
        5
    };
    assert(1u64 << 0u32 == 1 && 1u64 << 1u32 == 2 && 1u64 << 2u32 == 4 && 1u64 << 3u32 == 8
        && 1u64 << 4u32 == 16 && 1u64 << 5u32 == 32) by (bit_vector);
    250 * (1u64 << capped)
}

/// Waits get no shorter from one attempt to a later one, double as long as they
/// are short, and never last longer than eight seconds.
pub proof fn law_delays_grow_to_a_limit(a: u32, b: u32)
    requires
        a <= b,
    ensures
        250 <= delay(a) <= delay(b) <= 8000,
        a < 5 ==> delay((a + 1) as u32) == 2 * delay(a),
        a >= 5 ==> delay(a) == 8000,
{
}

/// How many attempts to connect have failed in a row.
#[derive(Debug, Clone, Copy, PartialEq, Eq, Structural)]
pub struct Connector {
    pub attempt: u32,
}

impl Connector {
    /// No attempt yet.
    #[verifier::allow_in_spec]
    pub fn new() -> Connector
        returns
            (Connector { attempt: 0 }),
    {
        Connector { attempt: 0 }
    }

    /// How long to wait before the next attempt: the first is made at once.
    pub open spec fn wait_before(self) -> Option<u64> {
        if self.attempt > 0 {
            Some(delay((self.attempt - 1) as u32))
        } else {
            None
        }
    }

    /// How long to wait before the next attempt.
    pub fn wait_ms(&self) -> (r: Option<u64>)
        ensures
            r == self.wait_before(),
    {
        if self.attempt > 0 {
            Some(reconnect_delay_ms(self.attempt - 1))
        } else {
            None
        }
    }

    /// After a connection was lost.
    #[verifier::allow_in_spec]
    pub fn after_loss(self) -> Connector
        returns
            (Connector { attempt: 1 }),
    {
        Connector { attempt: 1 }
    }

    /// After an attempt failed.
    #[verifier::allow_in_spec]
    pub fn after_failure(self) -> Connector
        returns
            (Connector {
                attempt: if self.attempt < u32::MAX {
                    (self.attempt + 1) as u32
                } else {
                    u32::MAX
                },
            }),
    {
        Connector {
            attempt: if self.attempt < u32::MAX {
                self.attempt + 1
            } else {
                u32::MAX
            },
        }
    }
}

/// After every failure or loss there is a wait; after a loss it is the shortest
/// one, and after each further failure it is no shorter than before.
pub proof fn law_every_failure_is_followed_by_a_wait(c: Connector)
    ensures
        c.after_loss().wait_before() == Some(250u64),
        c.after_failure().wait_before() is Some,
        c.wait_before() is Some ==> c.after_failure().wait_before()->0 >= c.wait_before()->0,
        Connector::new().wait_before() is None,
{
}

/// What happened on an open connection.
#[derive(Debug, PartialEq, Eq)]
pub enum LinkEvent {
    /// A message was sent.
    Sent,
    /// A message could not be sent.
    SendFailed,
    /// A frame came in.
    Received,
    /// The connection failed.
    Failed { error: String },
    /// The connection was closed.
    Closed,
}

#[verifier::ext_equal]
pub enum LinkEventView {
    Sent,
    SendFailed,
    Received,
    Failed { error: Seq<char> },
    Closed,
}

impl DeepView for LinkEvent {
    type V = LinkEventView;

    open spec fn deep_view(&self) -> LinkEventView {
        match self {
            LinkEvent::Sent => LinkEventView::Sent,
            LinkEvent::SendFailed => LinkEventView::SendFailed,
            LinkEvent::Received => LinkEventView::Received,
            LinkEvent::Failed { error } => LinkEventView::Failed { error: error@ },
            LinkEvent::Closed => LinkEventView::Closed,
        }
    }
}

/// Why a connection is over, where it is.
pub open spec fn end_of_link(event: LinkEventView) -> Option<Seq<char>> {
    match event {
        LinkEventView::Sent => None,
        LinkEventView::SendFailed => Some("send failed"@),
        LinkEventView::Received => None,
        LinkEventView::Failed { error } => Some(error),
        LinkEventView::Closed => Some("socket closed"@),
    }
}

/// Why a connection is over, where it is.
pub fn disconnect_reason(event: LinkEvent) -> (r: Option<String>)
    ensures
        r.deep_view() == end_of_link(event.deep_view()),
{
    match event {
        LinkEvent::Sent => None,
        LinkEvent::SendFailed => Some(owned("send failed")),
        LinkEvent::Received => None,
        LinkEvent::Failed { error } => Some(error),
        LinkEvent::Closed => Some(owned("socket closed")),
    }
}

} // verus!
