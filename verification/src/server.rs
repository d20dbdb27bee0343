//! The steps by which the local listener comes up.
//!
//! Binding a socket is the caller's work. This module decides what is tried
//! next: it lays out the scan of the unprivileged ports for a free one,
//! settles the port to listen on, and after a failed bind falls back once on
//! the port that the scan found.

use crate::port::{get_port, resolved_port};
use std::collections::HashSet;
use vstd::prelude::*;
use vstd::std_specs::hash::*;
use vstd::std_specs::iter::IteratorSpec;

verus! {

/// The lowest port that the scan probes.
pub const FIRST_SCANNED_PORT: u16 = 1025;

/// The highest port that the scan probes.
pub const LAST_SCANNED_PORT: u16 = 65534;

/// Whether the scan probes this port.
pub open spec fn scanned(port: u16) -> bool {
    FIRST_SCANNED_PORT <= port <= LAST_SCANNED_PORT
}

/// The ports to probe, in the order in which a hash set of them is walked.
/// The order differs from one process to the next, so that two processes do
/// not contend for the same port; whatever it is, every scanned port comes
/// once and nothing else comes.
pub fn scan_order() -> (order: Vec<u16>)
    ensures
        order@.no_duplicates(),
        forall|port: u16| order@.contains(port) <==> scanned(port),
{
    broadcast use group_hash_axioms;

    let mut ports: HashSet<u16> = HashSet::new();
    let mut port: u16 = FIRST_SCANNED_PORT;
    while port <= LAST_SCANNED_PORT
        invariant
            FIRST_SCANNED_PORT <= port <= LAST_SCANNED_PORT + 1,
            forall|p: u16| ports@.contains(p) <==> FIRST_SCANNED_PORT <= p < port,
        decreases LAST_SCANNED_PORT + 1 - port,
    {
        ports.insert(port);
        port += 1;
    }
    let mut order: Vec<u16> = Vec::new();
    let ghost keys: Seq<u16> = spec_hash_keys_iter(&ports).remaining().unref();
    proof {
        axiom_spec_hash_keys_iter(&ports);
    }
    for member in it: ports.iter()
        invariant
            it.seq().unref() == keys,
            order@ == keys.take(it.index() as int),
    {
        proof {
            assert(keys.take(it.index() + 1) =~= keys.take(it.index() as int).push(*member));
        }
        order.push(*member);
    }
    proof {
        assert(keys.take(keys.len() as int) =~= keys);
        assert forall|p: u16| order@.contains(p) <==> scanned(p) by {
            assert(keys.to_set().contains(p) <==> keys.contains(p));
        }
    }
    order
}

/// Why the listener did not come up.
#[derive(Clone, Copy, Debug, PartialEq, Eq, Structural)]
pub enum StopReason {
    /// Every scanned port was busy.
    NoAvailablePort,
    /// The port that the scan had found free could not be bound.
    BindFailed,
}

/// Where the listener stands. In `Probing` and in `Binding` the caller makes
/// the attempt that the state names and reports how it went; the other two
/// states are final.
#[derive(Clone, Copy, Debug, PartialEq, Eq, Structural)]
pub enum ServerState {
    /// Find out whether the port at `position` of the scan is free on the
    /// loopback address.
    Probing { position: usize },
    /// Bind the listener to `port`; `fallback` is the port found free.
    Binding { port: u16, fallback: u16 },
    /// The listener is bound to `port` and serves.
    Serving { port: u16 },
    /// The listener is not started.
    Stopped { reason: StopReason },
}

/// The state in which the listener starts: at the first port of the scan, or
/// stopped where there is nothing to scan.
pub open spec fn first_state(order: Seq<u16>) -> ServerState {
    if order.len() > 0 {
        ServerState::Probing { position: 0 }
    } else {
        ServerState::Stopped { reason: StopReason::NoAvailablePort }
    }
}

/// The port that the caller is to probe in this state, if it is to probe.
pub open spec fn probed_port(state: ServerState, order: Seq<u16>) -> Option<u16> {
    match state {
        ServerState::Probing { position } if position < order.len() => Some(
            order[position as int],
        ),
        _ => None,
    }
}

/// The state that follows `state` once the attempt it names has succeeded or
/// failed. `order` is the scan, `config` the content of the port file and
/// `args` the command line; the last two count when the scan has found its
/// port.
pub open spec fn next_state(
    state: ServerState,
    succeeded: bool,
    order: Seq<u16>,
    config: Seq<char>,
    args: Seq<String>,
) -> ServerState {
    match state {
        ServerState::Probing { position } => if position < order.len() && succeeded {
            ServerState::Binding {
                port: resolved_port(order[position as int], config, args),
                fallback: order[position as int],
            }
        } else if position + 1 < order.len() {
            ServerState::Probing { position: (position + 1) as usize }
        } else {
            ServerState::Stopped { reason: StopReason::NoAvailablePort }
        },
        ServerState::Binding { port, fallback } => if succeeded {
            ServerState::Serving { port }
        } else if port == fallback {
            ServerState::Stopped { reason: StopReason::BindFailed }
        } else {
            ServerState::Binding { port: fallback, fallback }
        },
        ServerState::Serving { port } => state,
        ServerState::Stopped { reason } => state,
    }
}

/// How many failed attempts in a row a state can still be followed by.
pub open spec fn attempts_left(state: ServerState, order: Seq<u16>) -> nat {
    match state {
        ServerState::Probing { position } => if position < order.len() {
            (order.len() - position) as nat
        } else {
            1
        },
        ServerState::Binding { port, fallback } => if port == fallback {
            1
        } else {
            2
        },
        ServerState::Serving { port } => 0,
        ServerState::Stopped { reason } => 0,
    }
}

impl ServerState {
    /// The state in which the listener starts.
    pub fn start(order: &[u16]) -> (state: ServerState)
        ensures
            state == first_state(order@),
    {
        if order.len() > 0 {
            ServerState::Probing { position: 0 }
        } else {
            ServerState::Stopped { reason: StopReason::NoAvailablePort }
        }
    }

    /// Whether nothing is left to attempt.
    pub fn is_final(&self) -> (done: bool)
        ensures
            done == (*self is Serving || *self is Stopped),
    {
        match self {
            ServerState::Serving { .. } => true,
            ServerState::Stopped { .. } => true,
            _ => false,
        }
    }

    /// The port to probe in this state, if the state asks for a probe.
    pub fn candidate(&self, order: &[u16]) -> (port: Option<u16>)
        ensures
            port == probed_port(*self, order@),
    {
        match self {
            ServerState::Probing { position } => {
                if *position < order.len() {
                    Some(order[*position])
                } else {
                    None
                }
            },
            _ => None,
        }
    }

    /// Moves on after the attempt that the state names.
    pub fn step(self, succeeded: bool, order: &[u16], config: &str, args: &[String]) -> (next:
        ServerState)
        ensures
            next == next_state(self, succeeded, order@, config@, args@),
    {
        match self {
            ServerState::Probing { position } => {
                if position < order.len() && succeeded {
                    let found = order[position];
                    ServerState::Binding { port: get_port(found, config, args), fallback: found }
                } else if position < order.len() && position + 1 < order.len() {
                    ServerState::Probing { position: position + 1 }
                } else {
                    ServerState::Stopped { reason: StopReason::NoAvailablePort }
                }
            },
            ServerState::Binding { port, fallback } => {
                if succeeded {
                    ServerState::Serving { port }
                } else if port == fallback {
                    ServerState::Stopped { reason: StopReason::BindFailed }
                } else {
                    ServerState::Binding { port: fallback, fallback }
                }
            },
            ServerState::Serving { port } => ServerState::Serving { port },
            ServerState::Stopped { reason } => ServerState::Stopped { reason },
        }
    }
}

/// The scan is bounded and the bind is retried once. Each failed attempt
/// leaves fewer attempts than before, so a listener that meets only failures
/// stops: after at most as many failed probes as the scan has ports, and
/// after at most two failed binds.
pub proof fn lemma_failures_are_bounded(
    state: ServerState,
    order: Seq<u16>,
    config: Seq<char>,
    args: Seq<String>,
)
    requires
        !(state is Serving),
        !(state is Stopped),
        order.len() <= usize::MAX,
    ensures
        attempts_left(next_state(state, false, order, config, args), order) < attempts_left(
            state,
            order,
        ),
        state is Probing ==> attempts_left(state, order) <= order.len() || attempts_left(
            state,
            order,
        ) == 1,
        state is Binding ==> next_state(
            next_state(state, false, order, config, args),
            false,
            order,
            config,
            args,
        ) is Stopped,
{
}

/// A scan that meets only busy ports probes the ports of its order one after
/// the other, each once, and then stops.
pub proof fn lemma_scan_probes_each_port(
    order: Seq<u16>,
    position: usize,
    config: Seq<char>,
    args: Seq<String>,
)
    requires
        position < order.len(),
    ensures
        probed_port(ServerState::Probing { position }, order) == Some(order[position as int]),
        position + 1 < order.len() ==> next_state(
            ServerState::Probing { position },
            false,
            order,
            config,
            args,
        ) == (ServerState::Probing { position: (position + 1) as usize }),
        position + 1 == order.len() ==> next_state(
            ServerState::Probing { position },
            false,
            order,
            config,
            args,
        ) == (ServerState::Stopped { reason: StopReason::NoAvailablePort }),
{
}

/// The listener serves on the port it bound: the settled port when the first
/// bind succeeds, the port that the scan found free when only the second
/// does.
pub proof fn lemma_serves_bound_port(
    port: u16,
    fallback: u16,
    order: Seq<u16>,
    config: Seq<char>,
    args: Seq<String>,
)
    ensures
        next_state(ServerState::Binding { port, fallback }, true, order, config, args) == (
        ServerState::Serving { port }),
        port != fallback ==> next_state(
            next_state(ServerState::Binding { port, fallback }, false, order, config, args),
            true,
            order,
            config,
            args,
        ) == (ServerState::Serving { port: fallback }),
{
}

} // verus!
