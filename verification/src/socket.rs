//! The echo web socket: every message received is sent back unchanged, until
//! the client goes away.

use vstd::prelude::*;

verus! {

/// What the echo loop does next.
pub enum EchoStep<M> {
    /// Send this message back, then wait for the next one.
    Reply(M),
    /// The client is gone: stop serving it.
    Stop,
}

/// The next step of the echo loop, given what waiting for a message gave:
/// a message is echoed back; an error or the end of the stream ends the loop.
pub fn echo_step<M, E>(received: Option<Result<M, E>>) -> (step: EchoStep<M>)
    ensures
        match received {
            Some(Ok(m)) => step == EchoStep::Reply(m),
            _ => step is Stop,
        },
{
    match received {
        Some(Ok(m)) => EchoStep::Reply(m),
        _ => EchoStep::Stop,
    }
}

/// Whether the loop goes on after sending a reply: only if the send succeeded.
pub fn keep_echoing<E>(sent: &Result<(), E>) -> (go_on: bool)
    ensures
        go_on == sent is Ok,
{
    sent.is_ok()
}

} // verus!
