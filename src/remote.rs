use vstd::prelude::*;

use crate::error::SpaceError;
use crate::field::FieldValue;
use crate::message::Message;
use crate::message::MessageType;
use crate::space::tuple_values;
use crate::tuple::Tuple;
use vstd::string::StringExecFns;

verus! {

/// The byte a gate answers with when it serves the space asked for.
pub const ACCEPT: u8 = 116;

/// The byte a gate answers with when it has no space of the name asked for.
pub const REFUSE: u8 = 102;

/// The answer of a gate to a client that asked for a space by name.
pub fn handshake_reply(found: bool) -> (r: Vec<u8>)
    ensures
        r@ == seq![if found { ACCEPT } else { REFUSE }],
{
    let mut r: Vec<u8> = Vec::new();
    r.push(if found { ACCEPT } else { REFUSE });
    assert(r@ =~= seq![if found { ACCEPT } else { REFUSE }]);
    r
}

/// Whether the answer of a gate says that it serves the space.
pub fn handshake_accepted(reply: &[u8]) -> (r: bool)
    ensures
        r == (reply@ == seq![ACCEPT]),
{
    let ok = reply.len() == 1 && reply[0] == ACCEPT;
    if !ok {
        assert(reply@.len() != 1 || reply@[0] != ACCEPT);
    } else {
        assert(reply@ =~= seq![ACCEPT]);
    }
    ok
}

/// Relies on String::push: appends one character.
#[verifier::external_body]
fn push_char(s: &mut String, c: char)
    ensures
        final(s)@ == old(s)@.push(c),
{
    s.push(c);
}

/// Splits an address `host:port/name` at its last `/` into the socket
/// address and the space name; `InvalidInput` if it has no `/`.
pub fn parse_address(uri: &str) -> (r: Result<(String, String), SpaceError>)
    ensures
        match r {
            Ok((host, name)) => uri@ == host@ + seq!['/'] + name@ && !name@.contains('/'),
            Err(e) => e == SpaceError::InvalidInput && !uri@.contains('/'),
        },
{
    let ghost u = uri@;
    let mut host = String::new();
    let mut name = String::new();
    let mut seen = false;
    for c in it: uri.chars()
        invariant
            it.seq() == u,
            0 <= it.index() <= u.len(),
            forall|m: int| 0 <= m < name@.len() ==> name@[m] != '/',
            seen ==> u.take(it.index()) == host@ + seq!['/'] + name@,
            !seen ==> u.take(it.index()) == name@ && host@.len() == 0,
    {
        let ghost before = u.take(it.index());
        assert(u.take(it.index() + 1) =~= before.push(c));
        if c == '/' {
            if seen {
                push_char(&mut host, '/');
            }
            host.append(name.as_str());
            name = String::new();
            seen = true;
            assert(u.take(it.index() + 1) =~= host@ + seq!['/'] + name@);
        } else {
            push_char(&mut name, c);
            if seen {
                assert(u.take(it.index() + 1) =~= host@ + seq!['/'] + name@);
            } else {
                assert(u.take(it.index() + 1) =~= name@);
            }
        }
    }
    assert(u.take(u.len() as int) =~= u);
    if !seen {
        assert(!u.contains('/')) by {
            if u.contains('/') {
                let m = choose|m: int| 0 <= m < u.len() && u[m] == '/';
                assert(name@[m] == '/');
            }
        }
        return Err(SpaceError::InvalidInput);
    }
    assert(!name@.contains('/'));
    Ok((host, name))
}

/// What a client makes of the response to `get`, `getp`, `query` or
/// `queryp`: the one tuple of a success, `NotFound` for an error, and
/// `Refused` for anything else.
pub fn single_result(response: Message) -> (r: Result<Tuple, SpaceError>)
    ensures
        response@.action == MessageType::Success && response@.tuples.len() == 1 ==> r is Ok
            && r->Ok_0@ == response@.tuples[0],
        response@.action == MessageType::Error ==> r == Err::<Tuple, SpaceError>(SpaceError::NotFound),
        !(response@.action == MessageType::Success && response@.tuples.len() == 1)
            && response@.action != MessageType::Error ==> r == Err::<Tuple, SpaceError>(SpaceError::Refused),
{
    let Message { action, tuple, template: _ } = response;
    let mut tuple = tuple;
    if action == MessageType::Error {
        Err(SpaceError::NotFound)
    } else if action == MessageType::Success && tuple.len() == 1 {
        let ghost tv = tuple_values(tuple@);
        let t = tuple.pop().unwrap();
        assert(t@ == tv[0]);
        Ok(t)
    } else {
        Err(SpaceError::Refused)
    }
}

/// What a client makes of the response to `getall` or `queryall`: the
/// tuples of a success, and `Refused` for anything else.
pub fn bulk_result(response: Message) -> (r: Result<Vec<Tuple>, SpaceError>)
    ensures
        response@.action == MessageType::Success ==> r is Ok && tuple_values(r->Ok_0@) == response@.tuples,
        response@.action != MessageType::Success ==> r == Err::<Vec<Tuple>, SpaceError>(SpaceError::Refused),
{
    if response.action == MessageType::Success {
        Ok(response.tuple)
    } else {
        Err(SpaceError::Refused)
    }
}

/// What a client makes of the response to `put`: done on a success, and
/// `Refused` for anything else.
pub fn put_result(response: &Message) -> (r: Result<(), SpaceError>)
    ensures
        r == if response@.action == MessageType::Success {
            Ok::<(), SpaceError>(())
        } else {
            Err(SpaceError::Refused)
        },
{
    if response.action == MessageType::Success {
        Ok(())
    } else {
        Err(SpaceError::Refused)
    }
}

} // verus!
