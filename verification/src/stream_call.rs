//! One streamed request to an MLX or TensorRT-LLM worker: what each reply
//! of the worker, a cancellation and a failing token sink lead to. Reading
//! and writing the worker's protocol lines is the caller's.
use vstd::prelude::*;

use crate::artifact::opt_view;
use crate::config::concat_str;
use crate::error::EngineError;
use crate::text::{decimal, u64_to_decimal};

verus! {

/// A reply of a worker, as far as the call's course depends on it: the
/// request it answers, its type (`token` for a streamed token, anything
/// else for the final reply), whether a token reply carries its chunk, the
/// success flag, the error text, and whether the worker reports the request
/// cancelled.
#[derive(Clone, Debug, PartialEq, Eq)]
pub struct WorkerReply {
    pub id: u64,
    pub kind: String,
    pub has_chunk: bool,
    pub ok: Option<bool>,
    pub error: Option<String>,
    pub cancelled: bool,
}

/// What the caller does with a reply.
#[derive(Debug, PartialEq, Eq)]
pub enum CallStep {
    /// Hand the token's chunk to the sink and read on.
    Deliver,
    /// Read on without handing the token on.
    Skip,
    /// The request succeeded: its result is the reply's.
    Finish,
    /// The request failed with this error.
    Fail(EngineError),
}

pub open spec fn id_mismatch_text(got: u64, expected: u64) -> Seq<char> {
    "worker response id "@ + decimal(got as nat) + " did not match request id "@ + decimal(
        expected as nat,
    )
}

fn id_mismatch_message(got: u64, expected: u64) -> (r: String)
    ensures
        r@ == id_mismatch_text(got, expected),
{
    let a = concat_str("worker response id ", u64_to_decimal(got).as_str());
    let b = concat_str(a.as_str(), " did not match request id ");
    concat_str(b.as_str(), u64_to_decimal(expected).as_str())
}

/// The error text of a failed final reply: the worker's, or a generic one.
pub open spec fn reply_error_text(error: Option<Seq<char>>) -> Seq<char> {
    match error {
        Some(e) => e,
        None => "worker returned an unknown error"@,
    }
}

fn reply_error_message(error: &Option<String>) -> (r: String)
    ensures
        r@ == reply_error_text(opt_view(*error)),
{
    match error {
        Some(e) => e.clone(),
        None => "worker returned an unknown error".to_owned(),
    }
}

/// An MLX call in progress: its request id, whether a cancel request was
/// sent to the worker, and the error of the token sink, once it failed.
#[derive(Debug)]
pub struct MlxCall {
    pub id: u64,
    pub cancel_sent: bool,
    pub sink_error: Option<EngineError>,
}

/// `r` is the step an MLX call takes on a reply. A reply for another
/// request, or a token reply without its chunk, fails the call. A token is
/// handed on unless a cancel was sent or the sink failed. A final reply
/// fails with the sink's error if there was one, else as cancelled if a
/// cancel was sent or the worker reports it, else succeeds where the reply
/// says so, else fails with the worker's error.
pub open spec fn is_mlx_step(call: MlxCall, reply: WorkerReply, r: CallStep) -> bool {
    if reply.id != call.id {
        r matches CallStep::Fail(EngineError::Mlx(m)) && m@ == id_mismatch_text(reply.id, call.id)
    } else if reply.kind@ == "token"@ {
        if !reply.has_chunk {
            r matches CallStep::Fail(EngineError::Mlx(m)) && m@ == "worker token message missing chunk"@
        } else if !call.cancel_sent && call.sink_error is None {
            r == CallStep::Deliver
        } else {
            r == CallStep::Skip
        }
    } else {
        match call.sink_error {
            Some(e) => r == CallStep::Fail(e),
            None => if call.cancel_sent || reply.cancelled {
                r == CallStep::Fail(EngineError::Cancelled)
            } else if reply.ok == Some(true) {
                r == CallStep::Finish
            } else {
                r matches CallStep::Fail(EngineError::Mlx(m)) && m@ == reply_error_text(opt_view(reply.error))
            },
        }
    }
}

impl MlxCall {
    /// A call that has just sent request `id`.
    pub fn new(id: u64) -> (r: Self)
        ensures
            r.id == id,
            !r.cancel_sent,
            r.sink_error is None,
    {
        MlxCall { id, cancel_sent: false, sink_error: None }
    }

    /// Whether a cancel request must be sent now: the request was cancelled
    /// and no cancel was sent yet. From then on a cancel counts as sent.
    pub fn poll_cancellation(&mut self, cancelled: bool) -> (send: bool)
        ensures
            send == (cancelled && !old(self).cancel_sent),
            final(self).id == old(self).id,
            final(self).cancel_sent == (old(self).cancel_sent || cancelled),
            final(self).sink_error == old(self).sink_error,
    {
        if cancelled && !self.cancel_sent {
            self.cancel_sent = true;
            return true;
        }
        false
    }

    /// The token sink failed with `error`: the worker is sent a cancel and
    /// the call ends with that error once the worker's final reply comes.
    pub fn on_sink_failure(&mut self, error: EngineError)
        ensures
            final(self).id == old(self).id,
            final(self).cancel_sent,
            final(self).sink_error == Some(error),
    {
        self.cancel_sent = true;
        self.sink_error = Some(error);
    }

    /// The step to take on `reply`.
    pub fn on_reply(&mut self, reply: &WorkerReply) -> (r: CallStep)
        ensures
            is_mlx_step(*old(self), *reply, r),
            final(self).id == old(self).id,
            final(self).cancel_sent == old(self).cancel_sent,
            r is Fail || final(self).sink_error == old(self).sink_error,
    {
        proof {
            reveal_strlit("token");
        }
        if reply.id != self.id {
            return CallStep::Fail(EngineError::Mlx(id_mismatch_message(reply.id, self.id)));
        }
        if crate::text::str_eq(reply.kind.as_str(), "token") {
            if !reply.has_chunk {
                return CallStep::Fail(EngineError::Mlx("worker token message missing chunk".to_owned()));
            }
            if !self.cancel_sent && self.sink_error.is_none() {
                return CallStep::Deliver;
            }
            return CallStep::Skip;
        }
        match self.sink_error.take() {
            Some(e) => CallStep::Fail(e),
            None => {
                if self.cancel_sent || reply.cancelled {
                    CallStep::Fail(EngineError::Cancelled)
                } else if reply.ok == Some(true) {
                    CallStep::Finish
                } else {
                    CallStep::Fail(EngineError::Mlx(reply_error_message(&reply.error)))
                }
            },
        }
    }
}

/// `r` is the step a TensorRT-LLM call takes on a reply: a reply for
/// another request, or a token reply without its chunk, fails the call; a
/// token is handed on; a final reply succeeds where it says so, else fails
/// with the worker's error. (A failing sink or a cancellation ends the call
/// by terminating the worker.)
pub open spec fn is_trt_step(id: u64, reply: WorkerReply, r: CallStep) -> bool {
    if reply.id != id {
        r matches CallStep::Fail(EngineError::TrtLlm(m)) && m@ == id_mismatch_text(reply.id, id)
    } else if reply.kind@ == "token"@ {
        if !reply.has_chunk {
            r matches CallStep::Fail(EngineError::TrtLlm(m)) && m@ == "worker token message missing chunk"@
        } else {
            r == CallStep::Deliver
        }
    } else if reply.ok == Some(true) {
        r == CallStep::Finish
    } else {
        r matches CallStep::Fail(EngineError::TrtLlm(m)) && m@ == reply_error_text(opt_view(reply.error))
    }
}

pub fn trt_reply_step(id: u64, reply: &WorkerReply) -> (r: CallStep)
    ensures
        is_trt_step(id, *reply, r),
{
    proof {
        reveal_strlit("token");
    }
    if reply.id != id {
        return CallStep::Fail(EngineError::TrtLlm(id_mismatch_message(reply.id, id)));
    }
    if crate::text::str_eq(reply.kind.as_str(), "token") {
        if !reply.has_chunk {
            return CallStep::Fail(EngineError::TrtLlm("worker token message missing chunk".to_owned()));
        }
        return CallStep::Deliver;
    }
    if reply.ok == Some(true) {
        CallStep::Finish
    } else {
        CallStep::Fail(EngineError::TrtLlm(reply_error_message(&reply.error)))
    }
}

/// The error of a TensorRT-LLM worker that gave no reply within the request
/// timeout of `seconds`.
pub fn trt_stall_error(seconds: u64) -> (r: EngineError)
    ensures
        r matches EngineError::TrtLlm(m) && m@ == "TensorRT-LLM backend worker stalled for "@
            + decimal(seconds as nat) + "s without a response"@,
{
    let a = concat_str("TensorRT-LLM backend worker stalled for ", u64_to_decimal(seconds).as_str());
    EngineError::TrtLlm(concat_str(a.as_str(), "s without a response"))
}

} // verus!
