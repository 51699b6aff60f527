//! The per-connection stream state machine: one inbound stream read message
//! by message, one outbound stream opened on demand and written message by
//! message. The caller owns the transport and the in-flight reads and writes;
//! this machine decides what happens next and holds the parked streams.
use vstd::prelude::*;

use std::collections::VecDeque;

use crate::message::Message;

verus! {

/// Protocol name under which the message streams are negotiated.
pub const PROTOCOL_NAME: &'static str = "/corelink/msg/1.0.0";

/// After this many outbound upgrade failures in a row, outbound requests stop.
pub const MAX_OUTBOUND_UPGRADE_FAILURES: u32 = 3;

/// The protocol of the message streams.
#[derive(Debug, Clone, Copy)]
pub struct CoreLinkProtocol;

impl CoreLinkProtocol {
    /// The name the streams are negotiated under.
    pub fn name(&self) -> (r: &'static str)
        ensures
            r@ == PROTOCOL_NAME@,
    {
        PROTOCOL_NAME
    }
}

/// State of the inbound direction.
#[derive(Debug, Clone, Copy, PartialEq, Eq, Structural)]
pub enum InboundState {
    Idle,
    Reading,
}

/// State of the outbound direction.
#[derive(Debug, Clone, Copy, PartialEq, Eq, Structural)]
pub enum OutboundState {
    Idle,
    Writing,
}

/// What the handler reports to the layer above.
#[derive(Debug)]
pub enum CoreLinkHandlerEvent {
    MessageReceived(Message),
    MessageSent,
    SendError(String),
}

/// What to do on the outbound side now.
pub enum OutboundStep<S> {
    /// Ask the transport for an outbound stream.
    RequestSubstream,
    /// Write the message on the stream, then report with `write_finished`.
    Write(S, Message),
    /// Nothing to do.
    Nothing,
}

/// One connection's streams, queues and upgrade bookkeeping.
pub struct CoreLinkHandler<S> {
    /// The inbound stream while it is not being read.
    pub inbound_stream: Option<S>,
    /// The outbound stream while it is not being written.
    pub outbound_stream: Option<S>,
    pub inbound_state: InboundState,
    pub outbound_state: OutboundState,
    pub pending_messages: VecDeque<Message>,
    pub events: VecDeque<CoreLinkHandlerEvent>,
    pub dial_upgrade_failures: u32,
    pub listen_upgrade_failures: u32,
    pub can_request_outbound: bool,
}

impl<S> CoreLinkHandler<S> {
    /// At most one stream per direction: a stream being read or written is
    /// not also parked.
    pub open spec fn wf(&self) -> bool {
        &&& self.inbound_state == InboundState::Reading ==> self.inbound_stream is None
        &&& self.outbound_state == OutboundState::Writing ==> self.outbound_stream is None
    }

    /// A handler with no streams, nothing queued, and outbound requests not
    /// yet permitted.
    pub fn new() -> (r: CoreLinkHandler<S>)
        ensures
            r.wf(),
            r.inbound_stream is None,
            r.outbound_stream is None,
            r.inbound_state == InboundState::Idle,
            r.outbound_state == OutboundState::Idle,
            r.pending_messages@.len() == 0,
            r.events@.len() == 0,
            r.dial_upgrade_failures == 0,
            r.listen_upgrade_failures == 0,
            !r.can_request_outbound,
    {
        CoreLinkHandler {
            inbound_stream: None,
            outbound_stream: None,
            inbound_state: InboundState::Idle,
            outbound_state: OutboundState::Idle,
            pending_messages: VecDeque::new(),
            events: VecDeque::new(),
            dial_upgrade_failures: 0,
            listen_upgrade_failures: 0,
            can_request_outbound: false,
        }
    }

    /// Queues a message from the layer above for sending.
    pub fn on_behaviour_event(&mut self, message: Message)
        ensures
            final(self).pending_messages@ == old(self).pending_messages@.push(message),
            final(self).events@ == old(self).events@,
            final(self).inbound_stream == old(self).inbound_stream,
            final(self).outbound_stream == old(self).outbound_stream,
            final(self).inbound_state == old(self).inbound_state,
            final(self).outbound_state == old(self).outbound_state,
            final(self).dial_upgrade_failures == old(self).dial_upgrade_failures,
            final(self).listen_upgrade_failures == old(self).listen_upgrade_failures,
            final(self).can_request_outbound == old(self).can_request_outbound,
    {
        self.pending_messages.push_back(message);
    }

    /// The oldest event not yet reported, if any.
    pub fn next_event(&mut self) -> (r: Option<CoreLinkHandlerEvent>)
        ensures
            old(self).events@.len() == 0 ==> r is None && final(self).events@ == old(self).events@,
            old(self).events@.len() > 0 ==> r == Some(old(self).events@[0]) && final(self).events@
                == old(self).events@.drop_first(),
            final(self).pending_messages@ == old(self).pending_messages@,
            final(self).inbound_stream == old(self).inbound_stream,
            final(self).outbound_stream == old(self).outbound_stream,
            final(self).inbound_state == old(self).inbound_state,
            final(self).outbound_state == old(self).outbound_state,
            final(self).dial_upgrade_failures == old(self).dial_upgrade_failures,
            final(self).listen_upgrade_failures == old(self).listen_upgrade_failures,
            final(self).can_request_outbound == old(self).can_request_outbound,
    {
        self.events.pop_front()
    }

    /// Starts a read when the inbound side is idle and has its stream: hands
    /// the stream out, to be read by the caller, and marks the side reading.
    pub fn take_inbound_for_read(&mut self) -> (r: Option<S>)
        requires
            old(self).wf(),
        ensures
            final(self).wf(),
            old(self).inbound_state == InboundState::Idle && old(self).inbound_stream is Some ==> r
                == old(self).inbound_stream && final(self).inbound_stream is None && final(self).inbound_state == InboundState::Reading,
            !(old(self).inbound_state == InboundState::Idle && old(self).inbound_stream is Some) ==> r is None
                && final(self).inbound_stream == old(self).inbound_stream && final(self).inbound_state
                == old(self).inbound_state,
            final(self).outbound_stream == old(self).outbound_stream,
            final(self).outbound_state == old(self).outbound_state,
            final(self).pending_messages@ == old(self).pending_messages@,
            final(self).events@ == old(self).events@,
            final(self).dial_upgrade_failures == old(self).dial_upgrade_failures,
            final(self).listen_upgrade_failures == old(self).listen_upgrade_failures,
            final(self).can_request_outbound == old(self).can_request_outbound,
    {
        if self.inbound_state == InboundState::Idle && self.inbound_stream.is_some() {
            self.inbound_state = InboundState::Reading;
            self.inbound_stream.take()
        } else {
            None
        }
    }

    /// A read has ended. On success the stream is parked again and the
    /// message is to be reported at once; on failure the stream is dropped.
    /// Either way the inbound side is idle.
    pub fn read_finished(&mut self, result: Result<(S, Message), String>) -> (r: Option<
        CoreLinkHandlerEvent,
    >)
        requires
            old(self).wf(),
        ensures
            final(self).wf(),
            final(self).inbound_state == InboundState::Idle,
            match result {
                Ok((s, m)) => final(self).inbound_stream == Some(s) && r == Some(
                    CoreLinkHandlerEvent::MessageReceived(m),
                ),
                Err(_) => final(self).inbound_stream is None && r is None,
            },
            final(self).outbound_stream == old(self).outbound_stream,
            final(self).outbound_state == old(self).outbound_state,
            final(self).pending_messages@ == old(self).pending_messages@,
            final(self).events@ == old(self).events@,
            final(self).dial_upgrade_failures == old(self).dial_upgrade_failures,
            final(self).listen_upgrade_failures == old(self).listen_upgrade_failures,
            final(self).can_request_outbound == old(self).can_request_outbound,
    {
        self.inbound_state = InboundState::Idle;
        match result {
            Ok((stream, message)) => {
                self.inbound_stream = Some(stream);
                Some(CoreLinkHandlerEvent::MessageReceived(message))
            },
            Err(_) => {
                self.inbound_stream = None;
                None
            },
        }
    }

    /// Decides the outbound side while it is idle and messages wait and
    /// outbound requests are permitted: without a stream, ask for one;
    /// with one, hand out the stream and the oldest message to be written.
    pub fn poll_outbound(&mut self) -> (r: OutboundStep<S>)
        requires
            old(self).wf(),
        ensures
            final(self).wf(),
            final(self).inbound_stream == old(self).inbound_stream,
            final(self).inbound_state == old(self).inbound_state,
            final(self).events@ == old(self).events@,
            final(self).dial_upgrade_failures == old(self).dial_upgrade_failures,
            final(self).listen_upgrade_failures == old(self).listen_upgrade_failures,
            final(self).can_request_outbound == old(self).can_request_outbound,
            ({
                let ready = old(self).outbound_state == OutboundState::Idle && old(self).pending_messages@.len() > 0 && old(self).can_request_outbound;
                if !ready {
                    r is Nothing && final(self).outbound_stream == old(self).outbound_stream
                        && final(self).outbound_state == old(self).outbound_state && final(self).pending_messages@ == old(self).pending_messages@
                } else if old(self).outbound_stream is None {
                    r is RequestSubstream && final(self).outbound_stream == old(self).outbound_stream
                        && final(self).outbound_state == old(self).outbound_state && final(self).pending_messages@ == old(self).pending_messages@
                } else {
                    r == OutboundStep::Write(
                        old(self).outbound_stream->Some_0,
                        old(self).pending_messages@[0],
                    ) && final(self).outbound_stream is None && final(self).outbound_state
                        == OutboundState::Writing && final(self).pending_messages@ == old(self).pending_messages@.drop_first()
                }
            }),
    {
        if self.outbound_state == OutboundState::Idle && self.pending_messages.len() > 0
            && self.can_request_outbound {
            if self.outbound_stream.is_none() {
                return OutboundStep::RequestSubstream;
            }
            let stream = self.outbound_stream.take().unwrap();
            let message = self.pending_messages.pop_front().unwrap();
            self.outbound_state = OutboundState::Writing;
            OutboundStep::Write(stream, message)
        } else {
            OutboundStep::Nothing
        }
    }

    /// A write has ended: on success the stream is parked again and a sent
    /// event queued; on failure the stream is dropped and a send error
    /// queued. Either way the outbound side is idle.
    pub fn write_finished(&mut self, result: Result<S, String>)
        requires
            old(self).wf(),
        ensures
            final(self).wf(),
            final(self).outbound_state == OutboundState::Idle,
            match result {
                Ok(s) => final(self).outbound_stream == Some(s) && final(self).events@ == old(self).events@.push(CoreLinkHandlerEvent::MessageSent),
                Err(e) => final(self).outbound_stream is None && final(self).events@ == old(self).events@.push(CoreLinkHandlerEvent::SendError(e)),
            },
            final(self).inbound_stream == old(self).inbound_stream,
            final(self).inbound_state == old(self).inbound_state,
            final(self).pending_messages@ == old(self).pending_messages@,
            final(self).dial_upgrade_failures == old(self).dial_upgrade_failures,
            final(self).listen_upgrade_failures == old(self).listen_upgrade_failures,
            final(self).can_request_outbound == old(self).can_request_outbound,
    {
        self.outbound_state = OutboundState::Idle;
        match result {
            Ok(stream) => {
                self.outbound_stream = Some(stream);
                self.events.push_back(CoreLinkHandlerEvent::MessageSent);
            },
            Err(e) => {
                self.outbound_stream = None;
                self.events.push_back(CoreLinkHandlerEvent::SendError(e));
            },
        }
    }

    /// The peer opened an inbound stream: it becomes the inbound stream
    /// unless one is being read (then it is dropped, keeping one stream per
    /// direction), and outbound requests are permitted from now on.
    pub fn fully_negotiated_inbound(&mut self, stream: S)
        requires
            old(self).wf(),
        ensures
            final(self).wf(),
            final(self).can_request_outbound,
            old(self).inbound_state == InboundState::Idle ==> final(self).inbound_stream == Some(
                stream,
            ),
            old(self).inbound_state == InboundState::Reading ==> final(self).inbound_stream
                == old(self).inbound_stream,
            final(self).inbound_state == old(self).inbound_state,
            final(self).outbound_stream == old(self).outbound_stream,
            final(self).outbound_state == old(self).outbound_state,
            final(self).pending_messages@ == old(self).pending_messages@,
            final(self).events@ == old(self).events@,
            final(self).dial_upgrade_failures == old(self).dial_upgrade_failures,
            final(self).listen_upgrade_failures == old(self).listen_upgrade_failures,
    {
        if self.inbound_state == InboundState::Idle {
            self.inbound_stream = Some(stream);
        }
        self.can_request_outbound = true;
    }

    /// An outbound stream was opened: it becomes the outbound stream unless
    /// one is being written, outbound requests are permitted, and the run of
    /// upgrade failures is over.
    pub fn fully_negotiated_outbound(&mut self, stream: S)
        requires
            old(self).wf(),
        ensures
            final(self).wf(),
            final(self).can_request_outbound,
            final(self).dial_upgrade_failures == 0,
            old(self).outbound_state == OutboundState::Idle ==> final(self).outbound_stream == Some(
                stream,
            ),
            old(self).outbound_state == OutboundState::Writing ==> final(self).outbound_stream
                == old(self).outbound_stream,
            final(self).outbound_state == old(self).outbound_state,
            final(self).inbound_stream == old(self).inbound_stream,
            final(self).inbound_state == old(self).inbound_state,
            final(self).pending_messages@ == old(self).pending_messages@,
            final(self).events@ == old(self).events@,
            final(self).listen_upgrade_failures == old(self).listen_upgrade_failures,
    {
        if self.outbound_state == OutboundState::Idle {
            self.outbound_stream = Some(stream);
        }
        self.can_request_outbound = true;
        self.dial_upgrade_failures = 0;
    }

    /// Opening an outbound stream failed. At the third failure in a row,
    /// outbound requests stop and the waiting messages are dropped.
    pub fn dial_upgrade_error(&mut self)
        requires
            old(self).wf(),
        ensures
            final(self).wf(),
            final(self).dial_upgrade_failures == if old(self).dial_upgrade_failures < u32::MAX {
                old(self).dial_upgrade_failures + 1
            } else {
                old(self).dial_upgrade_failures as int
            },
            final(self).dial_upgrade_failures >= MAX_OUTBOUND_UPGRADE_FAILURES ==> !final(self).can_request_outbound && final(self).pending_messages@.len() == 0,
            final(self).dial_upgrade_failures < MAX_OUTBOUND_UPGRADE_FAILURES ==> final(self).can_request_outbound == old(self).can_request_outbound && final(self).pending_messages@
                == old(self).pending_messages@,
            final(self).inbound_stream == old(self).inbound_stream,
            final(self).outbound_stream == old(self).outbound_stream,
            final(self).inbound_state == old(self).inbound_state,
            final(self).outbound_state == old(self).outbound_state,
            final(self).events@ == old(self).events@,
            final(self).listen_upgrade_failures == old(self).listen_upgrade_failures,
    {
        self.dial_upgrade_failures = self.dial_upgrade_failures.saturating_add(1);
        if self.dial_upgrade_failures >= MAX_OUTBOUND_UPGRADE_FAILURES {
            self.pending_messages.clear();
            self.can_request_outbound = false;
        }
    }

    /// Accepting an inbound stream failed: counted, nothing else.
    pub fn listen_upgrade_error(&mut self)
        requires
            old(self).wf(),
        ensures
            final(self).wf(),
            final(self).listen_upgrade_failures == if old(self).listen_upgrade_failures < u32::MAX {
                old(self).listen_upgrade_failures + 1
            } else {
                old(self).listen_upgrade_failures as int
            },
            final(self).inbound_stream == old(self).inbound_stream,
            final(self).outbound_stream == old(self).outbound_stream,
            final(self).inbound_state == old(self).inbound_state,
            final(self).outbound_state == old(self).outbound_state,
            final(self).pending_messages@ == old(self).pending_messages@,
            final(self).events@ == old(self).events@,
            final(self).dial_upgrade_failures == old(self).dial_upgrade_failures,
            final(self).can_request_outbound == old(self).can_request_outbound,
    {
        self.listen_upgrade_failures = self.listen_upgrade_failures.saturating_add(1);
    }
}

} // verus!
