//! The event types of the reactor: requests pulled from the outside,
//! the discriminant they are routed by, and the responses the engine
//! emits.

use vstd::prelude::*;
use std::sync::Arc;
use crate::action::MessageResponse;
use crate::message::Message;
use crate::registry::{ContextMap, route_message_rel, route_timer_rel};
use crate::timer::TimerEvent;

verus! {

/// An incoming event: a shared message, a timer tick, or the shutdown
/// signal.
#[derive(Debug)]
pub enum Request {
    Message(Arc<Message>),
    Timer(TimerEvent),
    Exit,
}

/// The discriminant a request is routed by: at most one handler is
/// registered per handle.
#[derive(Clone, Copy, Debug, PartialEq, Eq, Structural)]
pub enum RequestHandle {
    Message,
    Timer,
    Exit,
}

/// The handle of a request.
pub open spec fn spec_handle(request: Request) -> RequestHandle {
    match request {
        Request::Message(_) => RequestHandle::Message,
        Request::Timer(_) => RequestHandle::Timer,
        Request::Exit => RequestHandle::Exit,
    }
}

impl Request {
    pub fn handle(&self) -> (h: RequestHandle)
        ensures
            h == spec_handle(*self),
    {
        match self {
            Request::Message(_) => RequestHandle::Message,
            Request::Timer(_) => RequestHandle::Timer,
            Request::Exit => RequestHandle::Exit,
        }
    }
}

/// An outgoing event: a correlated message rendered for one closed
/// context, or the acknowledgement of the shutdown signal.
#[derive(Debug)]
pub enum Response {
    Message(MessageResponse),
    Exit,
}

/// Routes message requests into the registry.
#[derive(Debug)]
pub struct MessageEventHandler;

impl MessageEventHandler {
    pub fn handle(&self) -> (h: RequestHandle)
        ensures
            h == RequestHandle::Message,
    {
        RequestHandle::Message
    }

    pub fn handle_event(&mut self, event: Request, data: &mut ContextMap) -> (rs: Vec<Response>)
        requires
            event is Message,
            old(data).wf(),
        ensures
            final(data).wf(),
            route_message_rel(*old(data), *final(data), event->Message_0, rs@),
    {
        match event {
            Request::Message(message) => data.route_message(message),
            _ => Vec::new(),
        }
    }
}

/// Routes timer requests into the registry.
#[derive(Debug)]
pub struct TimerEventHandler;

impl TimerEventHandler {
    pub fn handle(&self) -> (h: RequestHandle)
        ensures
            h == RequestHandle::Timer,
    {
        RequestHandle::Timer
    }

    pub fn handle_event(&mut self, event: Request, data: &mut ContextMap) -> (rs: Vec<Response>)
        requires
            event is Timer,
            old(data).wf(),
        ensures
            final(data).wf(),
            route_timer_rel(*old(data), *final(data), event->Timer_0.0, rs@),
    {
        match event {
            Request::Timer(timer) => data.route_timer(&timer),
            _ => Vec::new(),
        }
    }
}

/// Acknowledges the shutdown signal.  An exit handler must only ever
/// receive exit requests: anything else is a corrupt routing table.
#[derive(Debug, Default)]
pub struct ExitEventHandler;

impl ExitEventHandler {
    pub fn handle(&self) -> (h: RequestHandle)
        ensures
            h == RequestHandle::Exit,
    {
        RequestHandle::Exit
    }

    pub fn handle_event(&mut self, event: Request) -> (rs: Vec<Response>)
        requires
            event is Exit,
        ensures
            rs@.len() == 1,
            rs@[0] is Exit,
    {
        let mut rs: Vec<Response> = Vec::new();
        rs.push(Response::Exit);
        rs
    }
}

/// A registered handler, routed by its handle.
#[derive(Debug)]
pub enum Handler {
    Message(MessageEventHandler),
    Timer(TimerEventHandler),
    Exit(ExitEventHandler),
}

impl Handler {
    pub open spec fn spec_handle(&self) -> RequestHandle {
        match self {
            Handler::Message(_) => RequestHandle::Message,
            Handler::Timer(_) => RequestHandle::Timer,
            Handler::Exit(_) => RequestHandle::Exit,
        }
    }

    pub fn handle(&self) -> (h: RequestHandle)
        ensures
            h == self.spec_handle(),
    {
        match self {
            Handler::Message(handler) => handler.handle(),
            Handler::Timer(handler) => handler.handle(),
            Handler::Exit(handler) => handler.handle(),
        }
    }
}

/// The single-threaded event loop: owns the registry and one optional
/// handler per request handle, and routes each request to the handler
/// registered for its handle; a request without a handler is dropped.
#[derive(Debug)]
pub struct RequestReactor {
    pub context_map: ContextMap,
    pub message_handler: Option<MessageEventHandler>,
    pub timer_handler: Option<TimerEventHandler>,
    pub exit_handler: Option<ExitEventHandler>,
}

/// The effect of dispatching one request: the handler registered for
/// its handle routes it through the registry; with no handler the
/// request is dropped silently.  Handler registration never changes.
pub open spec fn dispatch_rel(
    before: RequestReactor,
    after: RequestReactor,
    request: Request,
    rs: Seq<Response>,
) -> bool {
    &&& after.message_handler == before.message_handler
    &&& after.timer_handler == before.timer_handler
    &&& after.exit_handler == before.exit_handler
    &&& match request {
        Request::Message(m) => if before.message_handler is Some {
            route_message_rel(before.context_map, after.context_map, m, rs)
        } else {
            after == before && rs.len() == 0
        },
        Request::Timer(t) => if before.timer_handler is Some {
            route_timer_rel(before.context_map, after.context_map, t.0, rs)
        } else {
            after == before && rs.len() == 0
        },
        Request::Exit => if before.exit_handler is Some {
            after.context_map == before.context_map && rs.len() == 1 && rs[0] is Exit
        } else {
            after == before && rs.len() == 0
        },
    }
}

/// All responses of a run, in order.
pub open spec fn concat_all(rss: Seq<Seq<Response>>) -> Seq<Response>
    decreases rss.len(),
{
    if rss.len() == 0 {
        Seq::empty()
    } else {
        concat_all(rss.drop_last()) + rss.last()
    }
}

/// The effect of dispatching a whole run of requests, first to last:
/// some chain of intermediate reactor states links each request to the
/// next by one dispatch step, and the responses are those of the steps
/// concatenated in order.
pub open spec fn dispatch_trace_rel(
    before: RequestReactor,
    after: RequestReactor,
    requests: Seq<Request>,
    rs: Seq<Response>,
) -> bool {
    exists|mids: Seq<RequestReactor>, rss: Seq<Seq<Response>>|
        #![trigger mids.len(), rss.len()]
        {
            &&& mids.len() == requests.len() + 1
            &&& rss.len() == requests.len()
            &&& mids[0] == before
            &&& mids[requests.len() as int] == after
            &&& forall|i: int| 0 <= i < requests.len() ==> dispatch_rel(
                mids[i],
                mids[i + 1],
                requests[i],
                rss[i],
            )
            &&& rs == concat_all(rss)
        }
}

impl RequestReactor {
    pub fn new(context_map: ContextMap) -> (r: RequestReactor)
        ensures
            r.context_map == context_map,
            r.message_handler is None,
            r.timer_handler is None,
            r.exit_handler is None,
    {
        RequestReactor {
            context_map,
            message_handler: None,
            timer_handler: None,
            exit_handler: None,
        }
    }

    /// Registers a handler under its handle; a handler already
    /// registered for that handle is replaced.
    pub fn register_handler(&mut self, handler: Handler)
        ensures
            final(self).context_map == old(self).context_map,
            match handler {
                Handler::Message(h) => final(self).message_handler == Some(h)
                    && final(self).timer_handler == old(self).timer_handler
                    && final(self).exit_handler == old(self).exit_handler,
                Handler::Timer(h) => final(self).timer_handler == Some(h)
                    && final(self).message_handler == old(self).message_handler
                    && final(self).exit_handler == old(self).exit_handler,
                Handler::Exit(h) => final(self).exit_handler == Some(h)
                    && final(self).message_handler == old(self).message_handler
                    && final(self).timer_handler == old(self).timer_handler,
            },
    {
        match handler {
            Handler::Message(handler) => {
                self.message_handler = Some(handler);
            },
            Handler::Timer(handler) => {
                self.timer_handler = Some(handler);
            },
            Handler::Exit(handler) => {
                self.exit_handler = Some(handler);
            },
        }
    }

    /// Removes the handler registered for the handle, if any.
    pub fn remove_handler_by_handle(&mut self, handle: &RequestHandle)
        ensures
            final(self).context_map == old(self).context_map,
            match *handle {
                RequestHandle::Message => final(self).message_handler is None
                    && final(self).timer_handler == old(self).timer_handler
                    && final(self).exit_handler == old(self).exit_handler,
                RequestHandle::Timer => final(self).timer_handler is None
                    && final(self).message_handler == old(self).message_handler
                    && final(self).exit_handler == old(self).exit_handler,
                RequestHandle::Exit => final(self).exit_handler is None
                    && final(self).message_handler == old(self).message_handler
                    && final(self).timer_handler == old(self).timer_handler,
            },
    {
        match handle {
            RequestHandle::Message => {
                self.message_handler = None;
            },
            RequestHandle::Timer => {
                self.timer_handler = None;
            },
            RequestHandle::Exit => {
                self.exit_handler = None;
            },
        }
    }

    /// Dispatches one request to the handler registered for its
    /// handle; a request without a handler is dropped silently.
    pub fn handle_request(&mut self, request: Request) -> (rs: Vec<Response>)
        requires
            old(self).context_map.wf(),
        ensures
            final(self).context_map.wf(),
            dispatch_rel(*old(self), *final(self), request, rs@),
    {
        match request.handle() {
            RequestHandle::Message => {
                match &mut self.message_handler {
                    Some(handler) => handler.handle_event(request, &mut self.context_map),
                    None => Vec::new(),
                }
            },
            RequestHandle::Timer => {
                match &mut self.timer_handler {
                    Some(handler) => handler.handle_event(request, &mut self.context_map),
                    None => Vec::new(),
                }
            },
            RequestHandle::Exit => {
                match &mut self.exit_handler {
                    Some(handler) => handler.handle_event(request),
                    None => Vec::new(),
                }
            },
        }
    }

    /// Pulls the given requests one after another, dispatching each to
    /// its registered handler, and collects every response in order.
    pub fn handle_events(&mut self, requests: Vec<Request>) -> (rs: Vec<Response>)
        requires
            old(self).context_map.wf(),
        ensures
            final(self).context_map.wf(),
            dispatch_trace_rel(*old(self), *final(self), requests@, rs@),
    {
        let ghost all = requests@;
        let mut remaining = requests;
        let mut rs: Vec<Response> = Vec::new();
        let ghost mut processed: Seq<Request> = Seq::empty();
        let ghost mut mids: Seq<RequestReactor> = seq![*old(self)];
        let ghost mut rss: Seq<Seq<Response>> = Seq::empty();
        while remaining.len() > 0
            invariant
                self.context_map.wf(),
                all == processed + remaining@,
                mids.len() == processed.len() + 1,
                rss.len() == processed.len(),
                mids[0] == *old(self),
                mids[processed.len() as int] == *self,
                forall|i: int| 0 <= i < processed.len() ==> dispatch_rel(
                    mids[i],
                    mids[i + 1],
                    processed[i],
                    rss[i],
                ),
                rs@ == concat_all(rss),
            decreases remaining@.len(),
        {
            let request = remaining.remove(0);
            let ghost prev = *self;
            let mut step_rs = self.handle_request(request);
            let ghost step0 = step_rs@;
            proof {
                let rss0 = rss;
                processed = processed.push(request);
                mids = mids.push(*self);
                rss = rss.push(step0);
                assert(rss.drop_last() =~= rss0);
                assert(concat_all(rss) == concat_all(rss0) + step0);
                assert(mids[processed.len() - 1] == prev);
                assert(mids[processed.len() as int] == *self);
                assert(dispatch_rel(prev, *self, request, step0));
            }
            rs.append(&mut step_rs);
            proof {
                assert(all =~= processed + remaining@);
            }
        }
        proof {
            assert(processed =~= all);
            assert(mids.len() == all.len() + 1 && rss.len() == all.len());
        }
        rs
    }
}

} // verus!
