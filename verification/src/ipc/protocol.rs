use vstd::prelude::*;

use crate::dispatch::outcome::dispatch_outcome;
use crate::dispatch::{dispatch_error_text, Command, DispatchError, DispatchResult, Dispatcher, Event};
use crate::state::State;
use crate::text::push_str;

verus! {

/// A request received over the IPC socket (one JSON object per line).
#[derive(Debug)]
pub struct IpcRequest {
    pub id: Option<u64>,
    pub command: Command,
}

/// The response sent back to an IPC client (one JSON object per line).
#[derive(Debug)]
pub struct IpcResponse {
    pub id: Option<u64>,
    pub ok: bool,
    pub result: Option<DispatchResult>,
    pub error: Option<String>,
}

/// `resp` answers request `id` with the dispatch outcome `r`: the result on success, the
/// error's text on failure.
pub open spec fn answers(resp: IpcResponse, id: Option<u64>, r: Result<DispatchResult, DispatchError>) -> bool {
    &&& resp.id == id
    &&& match r {
        Ok(res) => resp.ok && resp.result == Some(res) && resp.error is None,
        Err(e) => {
            &&& !resp.ok
            &&& resp.result is None
            &&& resp.error matches Some(m) && m@ == dispatch_error_text(e)
        },
    }
}

impl IpcResponse {
    pub fn success(id: Option<u64>, result: DispatchResult) -> (r: IpcResponse)
        ensures
            answers(r, id, Ok(result)),
    {
        IpcResponse { id, ok: true, result: Some(result), error: None }
    }

    pub fn error(id: Option<u64>, error: DispatchError) -> (r: IpcResponse)
        ensures
            answers(r, id, Err(error)),
    {
        IpcResponse { id, ok: false, result: None, error: Some(error.message()) }
    }

    /// The answer to a line that is not a valid request; `detail` says why it was not.
    pub fn invalid_request(detail: &str) -> (r: IpcResponse)
        ensures
            r.id is None,
            !r.ok,
            r.result is None,
            r.error matches Some(m) && m@ == "Invalid JSON request: "@ + detail@,
    {
        let mut m = String::from_str("Invalid JSON request: ");
        push_str(&mut m, detail);
        IpcResponse { id: None, ok: false, result: None, error: Some(m) }
    }
}

/// Envelope of an event streamed to IPC clients.
#[derive(Debug)]
pub struct IpcEventMessage {
    pub event: Event,
}

/// Executes a request and builds its answer: the command's dispatch outcome, under the
/// request's id.
pub fn handle_request(dispatcher: &mut Dispatcher, state: &mut State, req: IpcRequest) -> (resp: IpcResponse)
    requires
        old(state).wf(),
    ensures
        exists|r: Result<DispatchResult, DispatchError>|
            #[trigger] answers(resp, req.id, r) && dispatch_outcome(
                *old(dispatcher),
                *final(dispatcher),
                *old(state),
                *final(state),
                req.command,
                r,
            ),
        final(state).wf(),
{
    let id = req.id;
    let r = dispatcher.dispatch(state, req.command);
    let ghost rg = r;
    let resp = match r {
        Ok(res) => IpcResponse::success(id, res),
        Err(err) => IpcResponse::error(id, err),
    };
    assert(answers(resp, id, rg));
    resp
}

} // verus!
