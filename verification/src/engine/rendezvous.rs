//! The machine that keeps the connection to the rendezvous server: it
//! opens the WebSocket, binds it, sends the requests of the other
//! machines, hands the server's frames to them, and reconnects after a
//! fixed delay when the connection is lost.

use vstd::prelude::*;
use crate::engine::api::{IOAction, IOEvent, TimerHandle, WSHandle};
use crate::engine::events::{
    below, quiet, rank, AllocatorEvent, BossEvent, Event, ListerEvent, MailboxEvent,
    NameplateEvent, RendezvousEvent, TerminatorEvent,
};
use crate::engine::messages::{
    bind_frame, bind_members, carries_out, frame_events, frame_meaning, frame_text, request_frame,
    request_members,
};
use crate::json::{json_parsed, Json};

verus! {

/// Seconds between the loss of the connection and the next attempt.
pub const RECONNECT_DELAY: u64 = 5;

#[derive(Clone, Copy, Debug, PartialEq, Eq, Structural)]
pub enum RendezvousState {
    Idle,
    Connecting,
    Connected,
    /// The connection is lost; the timer for the next attempt runs.
    Waiting,
    /// The WebSocket has been asked to close.
    Stopping,
    Stopped,
}

pub struct RendezvousMachine {
    pub state: RendezvousState,
    pub appid: String,
    pub relay_url: String,
    pub side: String,
    /// The WebSocket that was opened last.
    pub socket: WSHandle,
    /// The timer that was started last.
    pub timer: TimerHandle,
    /// The `id` of the next frame.
    pub next_frame: u64,
}

/// The number after `n`, starting over after the greatest.
pub open spec fn following(n: u32) -> u32 {
    if n == u32::MAX {
        0
    } else {
        (n + 1) as u32
    }
}

/// The `id` after `n`, starting over after the greatest.
pub open spec fn following_frame(n: u64) -> u64 {
    if n == u64::MAX {
        0
    } else {
        (n + 1) as u64
    }
}

/// The events that tell the machines that depend on the connection, and
/// the boss, that it is up.
pub open spec fn connected_notices() -> Seq<Event> {
    seq![
        Event::Nameplate(NameplateEvent::Connected),
        Event::Mailbox(MailboxEvent::Connected),
        Event::Lister(ListerEvent::Connected),
        Event::Allocator(AllocatorEvent::Connected),
        Event::Boss(BossEvent::Connected),
    ]
}

/// The events that tell the machines that depend on the connection, and
/// the boss, that it is lost.
pub open spec fn lost_notices() -> Seq<Event> {
    seq![
        Event::Nameplate(NameplateEvent::Lost),
        Event::Mailbox(MailboxEvent::Lost),
        Event::Lister(ListerEvent::Lost),
        Event::Allocator(AllocatorEvent::Lost),
        Event::Boss(BossEvent::Lost),
    ]
}

impl RendezvousMachine {
    /// Whether `event` is a request that goes out now: the connection is
    /// up, and the event is a request to the server.
    pub open spec fn sends(self, event: RendezvousEvent) -> bool {
        self.state == RendezvousState::Connected && request_members(event) is Some
    }

    /// The state after an event from another machine.
    pub open spec fn next_state(self, event: RendezvousEvent) -> RendezvousState {
        match event {
            RendezvousEvent::Start => match self.state {
                RendezvousState::Idle => RendezvousState::Connecting,
                _ => self.state,
            },
            RendezvousEvent::Stop => match self.state {
                RendezvousState::Idle => RendezvousState::Stopped,
                RendezvousState::Connecting => RendezvousState::Stopping,
                RendezvousState::Connected => RendezvousState::Stopping,
                RendezvousState::Waiting => RendezvousState::Stopped,
                _ => self.state,
            },
            _ => self.state,
        }
    }

    /// The WebSocket after an event from another machine: a start opens a
    /// new one.
    pub open spec fn next_socket(self, event: RendezvousEvent) -> WSHandle {
        if event is Start && self.state == RendezvousState::Idle {
            WSHandle { id: following(self.socket.id) }
        } else {
            self.socket
        }
    }

    /// Whether `out` is what the machine emits on an event from another
    /// machine.
    ///
    /// A start opens the WebSocket. A request goes out as a frame while the
    /// connection is up, and is dropped while it is not. A stop closes the
    /// WebSocket, or cancels the timer of the next attempt; where there is
    /// nothing to wait for, the terminator hears at once that the
    /// connection has stopped.
    pub open spec fn emitted(self, event: RendezvousEvent, out: Seq<Event>) -> bool {
        match event {
            RendezvousEvent::Start => match self.state {
                RendezvousState::Idle => out == seq![
                    Event::IO(
                        IOAction::WebSocketOpen(
                            WSHandle { id: following(self.socket.id) },
                            self.relay_url,
                        ),
                    ),
                ],
                _ => out == Seq::<Event>::empty(),
            },
            RendezvousEvent::Stop => match self.state {
                RendezvousState::Idle => out == seq![
                    Event::Terminator(TerminatorEvent::Stopped),
                ],
                RendezvousState::Connecting => out == seq![
                    Event::IO(IOAction::WebSocketClose(self.socket)),
                ],
                RendezvousState::Connected => out == seq![
                    Event::IO(IOAction::WebSocketClose(self.socket)),
                ],
                RendezvousState::Waiting => out == seq![
                    Event::IO(IOAction::CancelTimer(self.timer)),
                    Event::Terminator(TerminatorEvent::Stopped),
                ],
                _ => out == Seq::<Event>::empty(),
            },
            _ => if self.sends(event) {
                out.len() == 1 && (out[0] matches Event::IO(
                    IOAction::WebSocketSendMessage(socket, text),
                ) && socket == self.socket && text@ == frame_text(
                    request_members(event).unwrap(),
                    self.next_frame,
                ))
            } else {
                out == Seq::<Event>::empty()
            },
        }
    }

    /// Whether the machine heeds an event of the transport: it is about
    /// the WebSocket or the timer that the machine waits for.
    pub open spec fn heeds(self, event: IOEvent) -> bool {
        match event {
            IOEvent::WebSocketConnectionMade(socket) => socket == self.socket && self.state
                == RendezvousState::Connecting,
            IOEvent::WebSocketMessageReceived(socket, _) => socket == self.socket && self.state
                == RendezvousState::Connected,
            IOEvent::WebSocketConnectionLost(socket) => socket == self.socket && (self.state
                == RendezvousState::Connecting || self.state == RendezvousState::Connected
                || self.state == RendezvousState::Stopping),
            IOEvent::TimerExpired(timer) => timer == self.timer && self.state
                == RendezvousState::Waiting,
        }
    }

    /// The state after an event of the transport.
    pub open spec fn state_after(self, event: IOEvent) -> RendezvousState {
        if !self.heeds(event) {
            self.state
        } else {
            match event {
                IOEvent::WebSocketConnectionMade(_) => RendezvousState::Connected,
                IOEvent::WebSocketMessageReceived(_, _) => self.state,
                IOEvent::WebSocketConnectionLost(_) => if self.state
                    == RendezvousState::Stopping {
                    RendezvousState::Stopped
                } else {
                    RendezvousState::Waiting
                },
                IOEvent::TimerExpired(_) => RendezvousState::Connecting,
            }
        }
    }

    /// Whether `out` is what the machine emits on an event of the
    /// transport.
    ///
    /// When the WebSocket is up the connection is bound and the machines
    /// that depend on it are told. A frame is read and handed on by its
    /// meaning; a text that is no document is an error. When the WebSocket
    /// is lost the machines are told and a timer of five seconds is
    /// started, unless the loss was asked for: then the terminator hears
    /// that the connection has stopped. When the timer expires the
    /// WebSocket is opened anew. An event about a WebSocket or a timer that
    /// the machine does not wait for is passed over.
    pub open spec fn reacted(self, event: IOEvent, out: Seq<Event>) -> bool {
        if !self.heeds(event) {
            out == Seq::<Event>::empty()
        } else {
            match event {
                IOEvent::WebSocketConnectionMade(_) => {
                    &&& out.len() == 6
                    &&& out[0] matches Event::IO(IOAction::WebSocketSendMessage(socket, text))
                        && socket == self.socket && text@ == frame_text(
                        bind_members(self.appid@, self.side@),
                        self.next_frame,
                    )
                    &&& out.subrange(1, 6) == connected_notices()
                },
                IOEvent::WebSocketMessageReceived(_, text) => match json_parsed(text@) {
                    Some(doc) => carries_out(frame_meaning(doc), out),
                    None => out == seq![Event::Boss(BossEvent::Error)],
                },
                IOEvent::WebSocketConnectionLost(_) => if self.state
                    == RendezvousState::Stopping {
                    out == seq![Event::Terminator(TerminatorEvent::Stopped)]
                } else {
                    out == seq![
                        Event::IO(
                            IOAction::StartTimer(
                                TimerHandle { id: following(self.timer.id) },
                                RECONNECT_DELAY,
                            ),
                        ),
                    ] + lost_notices()
                },
                IOEvent::TimerExpired(_) => out == seq![
                    Event::IO(
                        IOAction::WebSocketOpen(
                            WSHandle { id: following(self.socket.id) },
                            self.relay_url,
                        ),
                    ),
                ],
            }
        }
    }

    /// A machine for a side of an application and a server, before the
    /// start.
    pub fn new(appid: &str, relay_url: &str, side: &str) -> (machine: RendezvousMachine)
        ensures
            machine.state == RendezvousState::Idle,
            machine.appid@ == appid@,
            machine.relay_url@ == relay_url@,
            machine.side@ == side@,
            machine.socket.id == 0,
            machine.timer.id == 0,
            machine.next_frame == 0,
    {
        RendezvousMachine {
            state: RendezvousState::Idle,
            appid: appid.to_owned(),
            relay_url: relay_url.to_owned(),
            side: side.to_owned(),
            socket: WSHandle { id: 0 },
            timer: TimerHandle { id: 0 },
            next_frame: 0,
        }
    }

    fn open_socket(&mut self) -> (event: Event)
        ensures
            final(self).socket.id == following(old(self).socket.id),
            event == Event::IO(IOAction::WebSocketOpen(final(self).socket, old(self).relay_url)),
            final(self).state == old(self).state,
            final(self).appid == old(self).appid,
            final(self).relay_url == old(self).relay_url,
            final(self).side == old(self).side,
            final(self).timer == old(self).timer,
            final(self).next_frame == old(self).next_frame,
    {
        let id: u32 = if self.socket.id == u32::MAX {
            0
        } else {
            self.socket.id + 1
        };
        self.socket = WSHandle { id };
        Event::IO(IOAction::WebSocketOpen(self.socket, self.relay_url.clone()))
    }

    fn count_frame(&mut self)
        ensures
            final(self).next_frame == following_frame(old(self).next_frame),
            final(self).state == old(self).state,
            final(self).appid == old(self).appid,
            final(self).relay_url == old(self).relay_url,
            final(self).side == old(self).side,
            final(self).timer == old(self).timer,
            final(self).socket == old(self).socket,
    {
        self.next_frame = if self.next_frame == u64::MAX {
            0
        } else {
            self.next_frame + 1
        };
    }

    /// Whether `after` and `out` are the machine and what it has emitted
    /// once it has processed `event`.
    pub open spec fn processed(
        self,
        event: RendezvousEvent,
        after: RendezvousMachine,
        out: Seq<Event>,
    ) -> bool {
        &&& after.state == self.next_state(event)
        &&& after.socket == self.next_socket(event)
        &&& after.timer == self.timer
        &&& after.appid == self.appid
        &&& after.relay_url == self.relay_url
        &&& after.side == self.side
        &&& after.next_frame == (if self.sends(event) {
            following_frame(self.next_frame)
        } else {
            self.next_frame
        })
        &&& self.emitted(event, out)
    }

    /// Processes an event from another machine.
    pub fn process(&mut self, event: RendezvousEvent) -> (out: Vec<Event>)
        ensures
            old(self).processed(event, *final(self), out@),
            below(out@, rank(Event::Rendezvous(event))),
            quiet(out@),
    {
        let mut out: Vec<Event> = Vec::new();
        match event {
            RendezvousEvent::Start => {
                if self.state == RendezvousState::Idle {
                    let open = self.open_socket();
                    self.state = RendezvousState::Connecting;
                    out.push(open);
                    assert(out@ =~= seq![open]);
                }
            },
            RendezvousEvent::Stop => match self.state {
                RendezvousState::Idle => {
                    self.state = RendezvousState::Stopped;
                    out.push(Event::Terminator(TerminatorEvent::Stopped));
                    assert(out@ =~= seq![Event::Terminator(TerminatorEvent::Stopped)]);
                },
                RendezvousState::Connecting => {
                    self.state = RendezvousState::Stopping;
                    out.push(Event::IO(IOAction::WebSocketClose(self.socket)));
                    assert(out@ =~= seq![Event::IO(IOAction::WebSocketClose(self.socket))]);
                },
                RendezvousState::Connected => {
                    self.state = RendezvousState::Stopping;
                    out.push(Event::IO(IOAction::WebSocketClose(self.socket)));
                    assert(out@ =~= seq![Event::IO(IOAction::WebSocketClose(self.socket))]);
                },
                RendezvousState::Waiting => {
                    self.state = RendezvousState::Stopped;
                    out.push(Event::IO(IOAction::CancelTimer(self.timer)));
                    out.push(Event::Terminator(TerminatorEvent::Stopped));
                    assert(out@ =~= seq![
                        Event::IO(IOAction::CancelTimer(self.timer)),
                        Event::Terminator(TerminatorEvent::Stopped),
                    ]);
                },
                _ => {},
            },
            request => {
                if self.state == RendezvousState::Connected {
                    match request_frame(&request, self.next_frame) {
                        Some(text) => {
                            out.push(Event::IO(IOAction::WebSocketSendMessage(self.socket, text)));
                            self.count_frame();
                        },
                        None => {},
                    }
                }
            },
        }
        out
    }

    /// Whether `after` and `out` are the machine and what it has emitted
    /// once it has processed `event` of the transport.
    pub open spec fn processed_io(
        self,
        event: IOEvent,
        after: RendezvousMachine,
        out: Seq<Event>,
    ) -> bool {
        &&& after.state == self.state_after(event)
        &&& after.appid == self.appid
        &&& after.relay_url == self.relay_url
        &&& after.side == self.side
        &&& after.socket == (if event is TimerExpired && self.heeds(event) {
            WSHandle { id: following(self.socket.id) }
        } else {
            self.socket
        })
        &&& after.timer == (if event is WebSocketConnectionLost && self.heeds(event)
            && self.state != RendezvousState::Stopping {
            TimerHandle { id: following(self.timer.id) }
        } else {
            self.timer
        })
        &&& after.next_frame == (if event is WebSocketConnectionMade && self.heeds(
            event
        ) {
            following_frame(self.next_frame)
        } else {
            self.next_frame
        })
        &&& self.reacted(event, out)
    }

    /// Processes an event of the transport.
    pub fn process_io(&mut self, event: IOEvent) -> (out: Vec<Event>)
        ensures
            old(self).processed_io(event, *final(self), out@),
            quiet(out@),
    {
        let mut out: Vec<Event> = Vec::new();
        match event {
            IOEvent::WebSocketConnectionMade(socket) => {
                if socket == self.socket && self.state == RendezvousState::Connecting {
                    self.state = RendezvousState::Connected;
                    let text = bind_frame(self.appid.as_str(), self.side.as_str(), self.next_frame);
                    self.count_frame();
                    out.push(Event::IO(IOAction::WebSocketSendMessage(self.socket, text)));
                    out.push(Event::Nameplate(NameplateEvent::Connected));
                    out.push(Event::Mailbox(MailboxEvent::Connected));
                    out.push(Event::Lister(ListerEvent::Connected));
                    out.push(Event::Allocator(AllocatorEvent::Connected));
                    out.push(Event::Boss(BossEvent::Connected));
                    assert(out@.subrange(1, 6) =~= connected_notices());
                }
            },
            IOEvent::WebSocketMessageReceived(socket, text) => {
                if socket == self.socket && self.state == RendezvousState::Connected {
                    match Json::parse(text.as_str()) {
                        Some(doc) => {
                            out = frame_events(doc);
                        },
                        None => {
                            out.push(Event::Boss(BossEvent::Error));
                            assert(out@ =~= seq![Event::Boss(BossEvent::Error)]);
                        },
                    }
                }
            },
            IOEvent::WebSocketConnectionLost(socket) => {
                if socket == self.socket {
                    match self.state {
                        RendezvousState::Stopping => {
                            self.state = RendezvousState::Stopped;
                            out.push(Event::Terminator(TerminatorEvent::Stopped));
                            assert(out@ =~= seq![Event::Terminator(TerminatorEvent::Stopped)]);
                        },
                        RendezvousState::Connecting | RendezvousState::Connected => {
                            self.state = RendezvousState::Waiting;
                            let id: u32 = if self.timer.id == u32::MAX {
                                0
                            } else {
                                self.timer.id + 1
                            };
                            self.timer = TimerHandle { id };
                            out.push(Event::IO(IOAction::StartTimer(self.timer, RECONNECT_DELAY)));
                            out.push(Event::Nameplate(NameplateEvent::Lost));
                            out.push(Event::Mailbox(MailboxEvent::Lost));
                            out.push(Event::Lister(ListerEvent::Lost));
                            out.push(Event::Allocator(AllocatorEvent::Lost));
                            out.push(Event::Boss(BossEvent::Lost));
                            assert(out@ =~= seq![
                                Event::IO(IOAction::StartTimer(self.timer, RECONNECT_DELAY)),
                            ] + lost_notices());
                        },
                        _ => {},
                    }
                }
            },
            IOEvent::TimerExpired(timer) => {
                if timer == self.timer && self.state == RendezvousState::Waiting {
                    let open = self.open_socket();
                    self.state = RendezvousState::Connecting;
                    out.push(open);
                    assert(out@ =~= seq![open]);
                }
            },
        }
        out
    }
}

} // verus!
