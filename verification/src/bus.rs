use crate::event::Event;
use vstd::prelude::*;

verus! {

/// How long the subscriber waits before it subscribes again, in
/// milliseconds.
pub const RECONNECT_DELAY_MILLIS: u64 = 1000;

/// What the subscription's stream brought.
#[derive(Debug, PartialEq, Eq)]
pub enum BusItem {
    /// A record that parsed as an event.
    Parsed(Event),
    /// A record that did not parse, or an error of the transport.
    Unreadable,
    /// The stream ended: the bus went away.
    Ended,
}

/// What the subscriber does with an item of the stream.
#[derive(Debug, PartialEq, Eq)]
pub enum BusStep {
    /// The event is handled, on a task of its own, and the stream is read on.
    Dispatch(Event),
    /// The item is reported and dropped, and the stream is read on.
    Skip,
    /// The subscription is over; [`after_listen`] says how to go on.
    Leave,
}

/// Decides what becomes of one item of the stream. Only the end of the
/// stream ends the subscription: an unreadable item never does.
pub fn on_bus_item(item: BusItem) -> (step: BusStep)
    ensures
        step == match item {
            BusItem::Parsed(event) => BusStep::Dispatch(event),
            BusItem::Unreadable => BusStep::Skip,
            BusItem::Ended => BusStep::Leave,
        },
{
    match item {
        BusItem::Parsed(event) => BusStep::Dispatch(event),
        BusItem::Unreadable => BusStep::Skip,
        BusItem::Ended => BusStep::Leave,
    }
}

/// How one subscription came to its end.
#[derive(Clone, Copy, Debug, PartialEq, Eq)]
pub enum ListenOutcome {
    /// The subscription could not be set up.
    SetupFailed,
    /// The subscription ran until the bus went away.
    Disconnected,
    /// The controlling runtime asked the subscriber to stop.
    Cancelled,
}

/// What the subscriber loop does after a subscription ended.
#[derive(Clone, Copy, Debug, PartialEq, Eq)]
pub enum Reconnect {
    /// Wait this many milliseconds and subscribe again; `report_setup` says
    /// whether a failed setup is to be reported first.
    Retry { delay_millis: u64, report_setup: bool },
    /// Stop for good.
    Stop,
}

/// Decides how the subscriber loop goes on: it subscribes again a second
/// after any failure, and stops only when cancelled.
pub fn after_listen(outcome: ListenOutcome) -> (next: Reconnect)
    ensures
        next == match outcome {
            ListenOutcome::SetupFailed => Reconnect::Retry {
                delay_millis: RECONNECT_DELAY_MILLIS,
                report_setup: true,
            },
            ListenOutcome::Disconnected => Reconnect::Retry {
                delay_millis: RECONNECT_DELAY_MILLIS,
                report_setup: false,
            },
            ListenOutcome::Cancelled => Reconnect::Stop,
        },
{
    match outcome {
        ListenOutcome::SetupFailed => Reconnect::Retry {
            delay_millis: RECONNECT_DELAY_MILLIS,
            report_setup: true,
        },
        ListenOutcome::Disconnected => Reconnect::Retry {
            delay_millis: RECONNECT_DELAY_MILLIS,
            report_setup: false,
        },
        ListenOutcome::Cancelled => Reconnect::Stop,
    }
}

} // verus!
