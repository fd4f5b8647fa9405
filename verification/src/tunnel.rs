//! The life of a tunnel, once the client was told that one is opened.
//!
//! A tunnel carries bytes both ways between the client and an upstream until
//! either side is done. What happens to it is decided here, one event at a
//! time; the waiting, the dialing and the copying are done by whoever runs
//! the listener.

use crate::classify::RequestKind;
use vstd::prelude::*;

verus! {

/// What is written to the client of a `CONNECT` whose upstream cannot be
/// reached, before its stream is shut down.
pub const CONNECT_REFUSAL: &'static str = "HTTP/1.1 502 Bad Gateway\r\nContent-Length: 0\r\n\r\n";

/// Where a tunnel stands.
#[derive(Clone, Copy, Debug, PartialEq, Eq, Hash, Structural)]
pub enum TunnelState {
    /// An upgrade was agreed; the raw streams of both sides are awaited.
    AwaitingBoth,
    /// A `CONNECT` was answered; the raw stream of the client is awaited.
    AwaitingClient,
    /// The client's stream is there; the upstream is being dialed.
    Dialing,
    /// Bytes are copied both ways.
    Splicing,
    /// The tunnel is over.
    Closed,
}

/// What happened to a tunnel.
#[derive(Clone, Copy, Debug, PartialEq, Eq, Hash, Structural)]
pub enum TunnelEvent {
    /// The awaited raw streams are there.
    StreamsReady,
    /// An awaited raw stream was not handed over.
    StreamsFailed,
    /// The upstream answered the dial.
    Dialed,
    /// The upstream could not be dialed.
    DialFailed,
    /// The copy ended because a side was done.
    SpliceEnded,
    /// The copy ended on an I/O error.
    SpliceFailed,
}

/// What is to be done next for a tunnel.
#[derive(Clone, Copy, Debug, PartialEq, Eq, Hash, Structural)]
pub enum TunnelAction {
    /// Nothing.
    Nothing,
    /// Open a TCP connection to the target of the tunnel.
    Dial,
    /// Copy bytes both ways until a side is done.
    Splice,
    /// Write `CONNECT_REFUSAL` to the client and shut its stream down.
    RefuseClient,
    /// Shut both streams down, the client's first.
    ShutdownBoth,
}

/// One step of a tunnel.
#[derive(Clone, Copy, Debug, PartialEq, Eq, Hash, Structural)]
pub struct TunnelStep {
    /// Where the tunnel stands after the event.
    pub next: TunnelState,
    /// What is to be done.
    pub action: TunnelAction,
    /// Whether the event is an error to be logged as a warning.
    pub warn: bool,
}

/// Where the tunnel of a request begins; a plain HTTP request has none.
pub open spec fn initial_state(kind: RequestKind) -> Option<TunnelState> {
    match kind {
        RequestKind::Http => None,
        RequestKind::Upgrade => Some(TunnelState::AwaitingBoth),
        RequestKind::Connect => Some(TunnelState::AwaitingClient),
    }
}

/// What an event does to a tunnel. An event that the state does not await
/// changes nothing.
pub open spec fn step_of(state: TunnelState, event: TunnelEvent) -> TunnelStep {
    match (state, event) {
        (TunnelState::AwaitingBoth, TunnelEvent::StreamsReady) => TunnelStep {
            next: TunnelState::Splicing,
            action: TunnelAction::Splice,
            warn: false,
        },
        (TunnelState::AwaitingBoth, TunnelEvent::StreamsFailed) => TunnelStep {
            next: TunnelState::Closed,
            action: TunnelAction::Nothing,
            warn: true,
        },
        (TunnelState::AwaitingClient, TunnelEvent::StreamsReady) => TunnelStep {
            next: TunnelState::Dialing,
            action: TunnelAction::Dial,
            warn: false,
        },
        (TunnelState::AwaitingClient, TunnelEvent::StreamsFailed) => TunnelStep {
            next: TunnelState::Closed,
            action: TunnelAction::Nothing,
            warn: true,
        },
        (TunnelState::Dialing, TunnelEvent::Dialed) => TunnelStep {
            next: TunnelState::Splicing,
            action: TunnelAction::Splice,
            warn: false,
        },
        (TunnelState::Dialing, TunnelEvent::DialFailed) => TunnelStep {
            next: TunnelState::Closed,
            action: TunnelAction::RefuseClient,
            warn: true,
        },
        (TunnelState::Splicing, TunnelEvent::SpliceEnded) => TunnelStep {
            next: TunnelState::Closed,
            action: TunnelAction::ShutdownBoth,
            warn: false,
        },
        (TunnelState::Splicing, TunnelEvent::SpliceFailed) => TunnelStep {
            next: TunnelState::Closed,
            action: TunnelAction::ShutdownBoth,
            warn: true,
        },
        _ => TunnelStep { next: state, action: TunnelAction::Nothing, warn: false },
    }
}

/// The distance of a state from the end of the tunnel, in steps at most.
pub open spec fn steps_left(state: TunnelState) -> nat {
    match state {
        TunnelState::AwaitingClient => 3,
        TunnelState::AwaitingBoth => 2,
        TunnelState::Dialing => 2,
        TunnelState::Splicing => 1,
        TunnelState::Closed => 0,
    }
}

/// A tunnel only moves towards its end, and a closed tunnel stays closed and
/// asks for nothing. Bytes are copied only in the state `Splicing`, and both
/// streams are shut down only when the copy is over.
pub proof fn lemma_tunnel_progress(state: TunnelState, event: TunnelEvent)
    ensures
        step_of(state, event).next == state || steps_left(step_of(state, event).next) < steps_left(
            state,
        ),
        state == TunnelState::Closed ==> step_of(state, event) == (TunnelStep {
            next: TunnelState::Closed,
            action: TunnelAction::Nothing,
            warn: false,
        }),
        step_of(state, event).action == TunnelAction::Splice <==> step_of(state, event).next
            == TunnelState::Splicing && state != TunnelState::Splicing,
        step_of(state, event).action == TunnelAction::ShutdownBoth <==> state
            == TunnelState::Splicing && step_of(state, event).next == TunnelState::Closed,
{
}

/// Where the tunnel of a request begins.
pub fn tunnel_start(kind: RequestKind) -> (r: Option<TunnelState>)
    ensures
        r == initial_state(kind),
{
    match kind {
        RequestKind::Http => None,
        RequestKind::Upgrade => Some(TunnelState::AwaitingBoth),
        RequestKind::Connect => Some(TunnelState::AwaitingClient),
    }
}

/// What an event does to a tunnel: where it stands afterwards, what is to be
/// done, and whether the event is logged as a warning.
pub fn tunnel_step(state: TunnelState, event: TunnelEvent) -> (r: TunnelStep)
    ensures
        r == step_of(state, event),
{
    match state {
        TunnelState::AwaitingBoth => match event {
            TunnelEvent::StreamsReady => TunnelStep {
                next: TunnelState::Splicing,
                action: TunnelAction::Splice,
                warn: false,
            },
            TunnelEvent::StreamsFailed => TunnelStep {
                next: TunnelState::Closed,
                action: TunnelAction::Nothing,
                warn: true,
            },
            _ => TunnelStep { next: state, action: TunnelAction::Nothing, warn: false },
        },
        TunnelState::AwaitingClient => match event {
            TunnelEvent::StreamsReady => TunnelStep {
                next: TunnelState::Dialing,
                action: TunnelAction::Dial,
                warn: false,
            },
            TunnelEvent::StreamsFailed => TunnelStep {
                next: TunnelState::Closed,
                action: TunnelAction::Nothing,
                warn: true,
            },
            _ => TunnelStep { next: state, action: TunnelAction::Nothing, warn: false },
        },
        TunnelState::Dialing => match event {
            TunnelEvent::Dialed => TunnelStep {
                next: TunnelState::Splicing,
                action: TunnelAction::Splice,
                warn: false,
            },
            TunnelEvent::DialFailed => TunnelStep {
                next: TunnelState::Closed,
                action: TunnelAction::RefuseClient,
                warn: true,
            },
            _ => TunnelStep { next: state, action: TunnelAction::Nothing, warn: false },
        },
        TunnelState::Splicing => match event {
            TunnelEvent::SpliceEnded => TunnelStep {
                next: TunnelState::Closed,
                action: TunnelAction::ShutdownBoth,
                warn: false,
            },
            TunnelEvent::SpliceFailed => TunnelStep {
                next: TunnelState::Closed,
                action: TunnelAction::ShutdownBoth,
                warn: true,
            },
            _ => TunnelStep { next: state, action: TunnelAction::Nothing, warn: false },
        },
        TunnelState::Closed => TunnelStep { next: state, action: TunnelAction::Nothing, warn: false },
    }
}

} // verus!
