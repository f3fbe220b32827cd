//! What stands between the engine and the outside world: the bookkeeping of
//! timers and sockets, and the decisions of a blocking client.

use std::collections::HashSet;
use vstd::prelude::*;
use crate::engine::api::{IOAction, TimerHandle, WSHandle};

pub mod blocking;
pub mod hints;

verus! {

broadcast use vstd::std_specs::hash::group_hash_axioms;

/// The engine's side of the transport: the actions that wait to be carried
/// out, and the timers and WebSockets that are in use.
pub struct WormholeIO {
    /// The numbers of the timers that have been started and not cancelled.
    pub timers: HashSet<u32>,
    /// The numbers of the WebSockets that have been opened and not closed.
    pub sockets: HashSet<u32>,
    /// The actions that the transport has yet to carry out, in their order.
    pub pending: Vec<IOAction>,
}

/// The timers in use after an action.
pub open spec fn timers_after(timers: Set<u32>, action: IOAction) -> Set<u32> {
    match action {
        IOAction::StartTimer(timer, _) => timers.insert(timer.id),
        IOAction::CancelTimer(timer) => timers.remove(timer.id),
        _ => timers,
    }
}

/// The WebSockets in use after an action.
pub open spec fn sockets_after(sockets: Set<u32>, action: IOAction) -> Set<u32> {
    match action {
        IOAction::WebSocketOpen(socket, _) => sockets.insert(socket.id),
        IOAction::WebSocketClose(socket) => sockets.remove(socket.id),
        _ => sockets,
    }
}

impl WormholeIO {
    /// A transport with nothing in use and nothing to do.
    pub fn new() -> (io: WormholeIO)
        ensures
            io.timers@ == Set::<u32>::empty(),
            io.sockets@ == Set::<u32>::empty(),
            io.pending@.len() == 0,
    {
        WormholeIO { timers: HashSet::new(), sockets: HashSet::new(), pending: Vec::new() }
    }

    /// Takes an action of the engine: it is put in line for the transport,
    /// and the timers and WebSockets in use are brought up to date.
    pub fn process(&mut self, action: IOAction)
        ensures
            final(self).pending@ == old(self).pending@.push(action),
            final(self).timers@ == timers_after(old(self).timers@, action),
            final(self).sockets@ == sockets_after(old(self).sockets@, action),
    {
        match &action {
            IOAction::StartTimer(timer, _) => {
                self.timers.insert(timer.id);
            },
            IOAction::CancelTimer(timer) => {
                self.timers.remove(&timer.id);
            },
            IOAction::WebSocketOpen(socket, _) => {
                self.sockets.insert(socket.id);
            },
            IOAction::WebSocketClose(socket) => {
                self.sockets.remove(&socket.id);
            },
            IOAction::WebSocketSendMessage(_, _) => {},
        }
        self.pending.push(action);
    }

    /// Hands out the actions that wait for the transport, in their order,
    /// and leaves none waiting.
    pub fn take_actions(&mut self) -> (actions: Vec<IOAction>)
        ensures
            actions@ == old(self).pending@,
            final(self).pending@.len() == 0,
            final(self).timers == old(self).timers,
            final(self).sockets == old(self).sockets,
    {
        let mut actions: Vec<IOAction> = Vec::new();
        core::mem::swap(&mut actions, &mut self.pending);
        actions
    }

    /// Whether a timer has been started and not cancelled.
    pub fn timer_is_live(&self, timer: TimerHandle) -> (live: bool)
        ensures
            live == self.timers@.contains(timer.id),
    {
        self.timers.contains(&timer.id)
    }

    /// Whether a WebSocket has been opened and not closed.
    pub fn socket_is_open(&self, socket: WSHandle) -> (open: bool)
        ensures
            open == self.sockets@.contains(socket.id),
    {
        self.sockets.contains(&socket.id)
    }
}

} // verus!
