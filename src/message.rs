use vstd::prelude::*;

use crate::error::SpaceError;
use crate::field::FieldValue;
use crate::space::look_outcome;
use crate::space::matching;
use crate::space::not_matching;
use crate::space::tuple_values;
use crate::space::LocalSpace;
use crate::template::Template;
use crate::template::TemplateValue;
use crate::tuple::Tuple;

verus! {

/// What a message asks for, or how a request went.
#[derive(Clone, Copy, Debug, PartialEq, Eq, Structural)]
pub enum MessageType {
    Get,
    Getp,
    Getall,
    Query,
    Queryp,
    Queryall,
    Put,
    /// The request failed: nothing matched.
    Error,
    /// The request was carried out.
    Success,
}

/// A request to a gate, or its response.
pub struct Message {
    pub action: MessageType,
    pub tuple: Vec<Tuple>,
    pub template: Template,
}

/// The mathematical value of a message.
pub struct MessageValue {
    pub action: MessageType,
    pub tuples: Seq<Seq<FieldValue>>,
    pub template: TemplateValue,
}

impl View for Message {
    type V = MessageValue;

    open spec fn view(&self) -> MessageValue {
        MessageValue { action: self.action, tuples: tuple_values(self.tuple@), template: self.template@ }
    }
}

/// What a gate does with a request.
pub enum Dispatch {
    /// Send `response`, and wake the waiters in `woken`.
    Reply { response: Message, woken: Vec<u64> },
    /// Nothing matched a blocking request: the caller was registered as a
    /// waiter and tries again once woken.
    Wait,
    /// The request is not well formed: the connection ends.
    Reject,
}

/// A message with only an action.
pub fn bare(action: MessageType) -> (r: Message)
    ensures
        r@.action == action,
        r@.tuples == Seq::<Seq<FieldValue>>::empty(),
        r@.template == Seq::<(FieldValue, crate::field::TemplateType)>::empty(),
{
    let r = Message { action, tuple: Vec::new(), template: Template::new() };
    assert(r@.tuples =~= Seq::<Seq<FieldValue>>::empty());
    r
}

/// A request that carries a template.
pub fn request(action: MessageType, template: Template) -> (r: Message)
    ensures
        r@.action == action,
        r@.tuples == Seq::<Seq<FieldValue>>::empty(),
        r@.template == template@,
{
    let r = Message { action, tuple: Vec::new(), template };
    assert(r@.tuples =~= Seq::<Seq<FieldValue>>::empty());
    r
}

/// A request to put `tuple`.
pub fn put_request(tuple: Tuple) -> (r: Message)
    ensures
        r@.action == MessageType::Put,
        r@.tuples == seq![tuple@],
        r@.template == Seq::<(FieldValue, crate::field::TemplateType)>::empty(),
{
    let mut tuples: Vec<Tuple> = Vec::new();
    tuples.push(tuple);
    let r = Message { action: MessageType::Put, tuple: tuples, template: Template::new() };
    assert(r@.tuples =~= seq![tuple@]);
    r
}

/// The response that carries one tuple.
fn found(t: Tuple) -> (r: Message)
    ensures
        r@.action == MessageType::Success,
        r@.tuples == seq![t@],
        r@.template == Seq::<(FieldValue, crate::field::TemplateType)>::empty(),
{
    let mut tuples: Vec<Tuple> = Vec::new();
    tuples.push(t);
    let r = Message { action: MessageType::Success, tuple: tuples, template: Template::new() };
    assert(r@.tuples =~= seq![t@]);
    r
}

/// Carries out `request` on `space` on behalf of a remote client;
/// `waiter` names the client should it have to wait.
///
/// Each request has on the space exactly the effect of the operation of
/// the same name called on it directly.
pub fn dispatch(space: &mut LocalSpace, request: Message, waiter: u64) -> (r: Dispatch)
    ensures
        final(space)@.spacetype == old(space)@.spacetype,
        r matches Dispatch::Reply { response, .. } ==> response@.template.len() == 0,
        match request@.action {
            MessageType::Get | MessageType::Query => {
                let destroy = request@.action == MessageType::Get;
                exists|pick: int, res: Result<Tuple, SpaceError>|
                    0 <= pick && #[trigger] look_outcome(
                        old(space)@.spacetype,
                        old(space)@.store,
                        request@.template,
                        pick,
                        destroy,
                        res,
                        final(space)@.store,
                    ) && match res {
                        Ok(t) => (r matches Dispatch::Reply { response, woken } && response@.action == MessageType::Success
                            && response@.tuples == seq![t@] && woken@.len() == 0) && final(space)@.waiters == old(space)@.waiters,
                        Err(_) => r is Wait && final(space)@.waiters == old(space)@.waiters.push(waiter),
                    }
            },
            MessageType::Getp | MessageType::Queryp => {
                let destroy = request@.action == MessageType::Getp;
                &&& final(space)@.waiters == old(space)@.waiters
                &&& exists|pick: int, res: Result<Tuple, SpaceError>|
                    0 <= pick && #[trigger] look_outcome(
                        old(space)@.spacetype,
                        old(space)@.store,
                        request@.template,
                        pick,
                        destroy,
                        res,
                        final(space)@.store,
                    ) && (r matches Dispatch::Reply { response, woken } && woken@.len() == 0 && match res {
                        Ok(t) => response@.action == MessageType::Success && response@.tuples == seq![t@],
                        Err(_) => response@.action == MessageType::Error && response@.tuples.len() == 0,
                    })
            },
            MessageType::Getall => {
                &&& final(space)@.waiters == old(space)@.waiters
                &&& final(space)@.store == not_matching(old(space)@.store, request@.template)
                &&& r matches Dispatch::Reply { response, woken } && woken@.len() == 0
                    && response@.action == MessageType::Success
                    && response@.tuples == matching(old(space)@.store, request@.template)
            },
            MessageType::Queryall => {
                &&& final(space)@ == old(space)@
                &&& r matches Dispatch::Reply { response, woken } && woken@.len() == 0
                    && response@.action == MessageType::Success
                    && response@.tuples == matching(old(space)@.store, request@.template)
            },
            MessageType::Put => if request@.tuples.len() == 1 {
                &&& final(space)@.store == old(space)@.store.push(request@.tuples[0])
                &&& final(space)@.waiters.len() == 0
                &&& r matches Dispatch::Reply { response, woken } && woken@ == old(space)@.waiters
                    && response@.action == MessageType::Success && response@.tuples.len() == 0
            } else {
                &&& final(space)@ == old(space)@
                &&& r is Reject
            },
            MessageType::Success | MessageType::Error => {
                &&& final(space)@ == old(space)@
                &&& r matches Dispatch::Reply { response, woken } && woken@.len() == 0
                    && response@.action == request@.action && response@.tuples.len() == 0
            },
        },
{
    let Message { action, tuple, template } = request;
    match action {
        MessageType::Get | MessageType::Query => {
            let destroy = action == MessageType::Get;
            let res = space.look_or_wait(&template, destroy, waiter);
            proof {
                let pick = choose|pick: int|
                    0 <= pick && #[trigger] look_outcome(
                        old(space)@.spacetype,
                        old(space)@.store,
                        template@,
                        pick,
                        destroy,
                        res,
                        space@.store,
                    );
                assert(look_outcome(old(space)@.spacetype, old(space)@.store, request@.template, pick, destroy, res, space@.store));
            }
            match res {
                Ok(t) => Dispatch::Reply { response: found(t), woken: Vec::new() },
                Err(_) => Dispatch::Wait,
            }
        },
        MessageType::Getp | MessageType::Queryp => {
            let res = if action == MessageType::Getp {
                space.getp(template)
            } else {
                space.queryp(template)
            };
            match res {
                Ok(t) => Dispatch::Reply { response: found(t), woken: Vec::new() },
                Err(_) => Dispatch::Reply { response: bare(MessageType::Error), woken: Vec::new() },
            }
        },
        MessageType::Getall => {
            let tuples = space.getall(template);
            let response = Message { action: MessageType::Success, tuple: tuples, template: Template::new() };
            assert(response@.template.len() == 0);
            Dispatch::Reply { response, woken: Vec::new() }
        },
        MessageType::Queryall => {
            let tuples = space.queryall(template);
            let response = Message { action: MessageType::Success, tuple: tuples, template: Template::new() };
            assert(response@.template.len() == 0);
            Dispatch::Reply { response, woken: Vec::new() }
        },
        MessageType::Put => {
            let mut tuple = tuple;
            if tuple.len() != 1 {
                return Dispatch::Reject;
            }
            let t = tuple.pop().unwrap();
            let woken = space.put(t);
            Dispatch::Reply { response: bare(MessageType::Success), woken }
        },
        MessageType::Success | MessageType::Error => {
            Dispatch::Reply { response: bare(action), woken: Vec::new() }
        },
    }
}

/// What a connection of a gate observed.
#[derive(Clone, Copy, Debug, PartialEq, Eq, Structural)]
pub enum ConnectionEvent {
    /// The server is shutting down.
    Shutdown,
    /// A whole request arrived.
    Request,
    /// No request arrived before the read timeout.
    TimedOut,
    /// The read was interrupted.
    Interrupted,
    /// The peer closed the connection: a read of zero bytes.
    Closed,
    /// The peer sent a frame that is not a well-formed request.
    Malformed,
    /// Reading or writing the socket failed otherwise.
    Failed,
}

/// What a connection does next.
#[derive(Clone, Copy, Debug, PartialEq, Eq, Structural)]
pub enum ConnectionStep {
    /// Answer the request and read the next one.
    Serve,
    /// Read again.
    Retry,
    /// End the connection.
    Stop,
}

/// The rule of a connection: a request is served, a timeout or an
/// interruption is retried, and everything else ends the connection.
pub fn connection_step(event: ConnectionEvent) -> (r: ConnectionStep)
    ensures
        r == match event {
            ConnectionEvent::Request => ConnectionStep::Serve,
            ConnectionEvent::TimedOut | ConnectionEvent::Interrupted => ConnectionStep::Retry,
            _ => ConnectionStep::Stop,
        },
{
    match event {
        ConnectionEvent::Request => ConnectionStep::Serve,
        ConnectionEvent::TimedOut | ConnectionEvent::Interrupted => ConnectionStep::Retry,
        _ => ConnectionStep::Stop,
    }
}

} // verus!
