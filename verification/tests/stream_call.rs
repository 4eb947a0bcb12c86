use mayhem_engine::error::EngineError;
use mayhem_engine::stream_call::{trt_reply_step, trt_stall_error, CallStep, MlxCall, WorkerReply};

fn reply(id: u64, kind: &str) -> WorkerReply {
    WorkerReply {
        id,
        kind: kind.to_owned(),
        has_chunk: kind == "token",
        ok: None,
        error: None,
        cancelled: false,
    }
}

#[test]
fn mlx_call_hands_tokens_on_until_cancelled() {
    let mut call = MlxCall::new(7);
    assert_eq!(call.on_reply(&reply(7, "token")), CallStep::Deliver);
    assert!(!call.poll_cancellation(false));
    assert!(call.poll_cancellation(true));
    assert!(!call.poll_cancellation(true));
    assert_eq!(call.on_reply(&reply(7, "token")), CallStep::Skip);
    let mut done = reply(7, "response");
    done.ok = Some(true);
    assert_eq!(call.on_reply(&done), CallStep::Fail(EngineError::Cancelled));
}

#[test]
fn mlx_call_reports_sink_errors_and_worker_errors() {
    let mut call = MlxCall::new(3);
    call.on_sink_failure(EngineError::InvalidOutput("sink closed".to_owned()));
    assert_eq!(call.on_reply(&reply(3, "token")), CallStep::Skip);
    assert_eq!(
        call.on_reply(&reply(3, "response")),
        CallStep::Fail(EngineError::InvalidOutput("sink closed".to_owned()))
    );
    let mut call = MlxCall::new(3);
    assert_eq!(
        call.on_reply(&reply(4, "response")),
        CallStep::Fail(EngineError::Mlx("worker response id 4 did not match request id 3".to_owned()))
    );
    let mut missing = reply(3, "token");
    missing.has_chunk = false;
    assert_eq!(
        call.on_reply(&missing),
        CallStep::Fail(EngineError::Mlx("worker token message missing chunk".to_owned()))
    );
    assert_eq!(
        call.on_reply(&reply(3, "response")),
        CallStep::Fail(EngineError::Mlx("worker returned an unknown error".to_owned()))
    );
    let mut ok = reply(3, "response");
    ok.ok = Some(true);
    assert_eq!(call.on_reply(&ok), CallStep::Finish);
}

#[test]
fn trt_call_steps_follow_the_reply() {
    assert_eq!(trt_reply_step(1, &reply(1, "token")), CallStep::Deliver);
    let mut failed = reply(1, "response");
    failed.error = Some("out of memory".to_owned());
    assert_eq!(
        trt_reply_step(1, &failed),
        CallStep::Fail(EngineError::TrtLlm("out of memory".to_owned()))
    );
    failed.ok = Some(true);
    assert_eq!(trt_reply_step(1, &failed), CallStep::Finish);
    assert_eq!(
        trt_reply_step(2, &failed),
        CallStep::Fail(EngineError::TrtLlm("worker response id 1 did not match request id 2".to_owned()))
    );
    assert_eq!(
        trt_stall_error(600),
        EngineError::TrtLlm("TensorRT-LLM backend worker stalled for 600s without a response".to_owned())
    );
}
