//! End-to-end and component tests for the sandbox runtime core.
//!
//! The script engine and the isolation substrate are opaque collaborators,
//! so these tests drive the verified protocol with a small stand-in engine:
//! compile latches the source and hands back a stencil handle, run
//! evaluates the few scripts the tests use.

use js_sandbox::controller::{
    make_exec_call, make_init_call, response_int, validate_limits, ResourceLimits,
};
use js_sandbox::dispatch::{
    dispatch, guest_dispatch_function, hyperlight_main, to_response, DispatchStep, DispatchTable,
};
use js_sandbox::engine::{
    apply_compile, apply_run, CompileOutcome, EngineState, RunOutcome, Stencil,
};
use js_sandbox::envelope::{
    decode_envelope, decode_response, encode_envelope, encode_response, CallEnvelope, Response,
    TypedValue,
};
use js_sandbox::error::GuestError;
use js_sandbox::shim::{
    process_exit, signal_kill, sysconf, ShimAllocator, ShimClock, ShimOutput, SysconfQuery,
};

const FIB_SCRIPT: &str = "function fibonacci(n){if(n<2)return n;return fibonacci(n-1)+fibonacci(n-2);} fibonacci(10);";

fn fib(n: i32) -> i32 {
    if n < 2 {
        n
    } else {
        fib(n - 1) + fib(n - 2)
    }
}

/// Stand-in for the engine's compile: anything that looks like a script
/// compiles to a real stencil; a marked-bad source fails with a message.
fn fake_compile(source: &[u8]) -> CompileOutcome {
    if source.starts_with(b"syntax error") {
        CompileOutcome::Failed(b"SyntaxError: unexpected token".to_vec())
    } else {
        CompileOutcome::Ready(Stencil::from_raw(1))
    }
}

/// Stand-in for the engine's instantiate-and-run: evaluates the scripts
/// these tests use, from the source the state is latched to.
fn fake_run(state: &EngineState) -> RunOutcome {
    match state.source_bytes() {
        Some(src) if src.as_slice() == b"2+2" => RunOutcome::Value(4),
        Some(src) if src.as_slice() == FIB_SCRIPT.as_bytes() => RunOutcome::Value(fib(10)),
        Some(src) if src.as_slice() == b"'a string'" => RunOutcome::NotInt,
        Some(_) => RunOutcome::InstantiateFailed,
        None => RunOutcome::InstantiateFailed,
    }
}

/// One full guest step: dispatch the call, perform the engine work the
/// decision asks for, and finish the call.
fn serve(
    table: &DispatchTable,
    state: &mut EngineState,
    call: &CallEnvelope,
) -> Result<i32, GuestError> {
    match dispatch(table, state, call) {
        Ok(DispatchStep::Done(v)) => Ok(v),
        Ok(DispatchStep::Compile(src)) => {
            let outcome = fake_compile(&src);
            apply_compile(state, src, outcome)
        }
        Ok(DispatchStep::Run(_stencil)) => {
            let outcome = fake_run(state);
            apply_run(outcome)
        }
        Err(e) => Err(e),
    }
}

fn init_call(source: &str) -> CallEnvelope {
    make_init_call(source.as_bytes().to_vec())
}

#[test]
fn exec_twice_yields_same_result() {
    let table = hyperlight_main();
    let mut state = EngineState::new();
    assert_eq!(serve(&table, &mut state, &init_call("2+2")), Ok(0));
    let exec = make_exec_call();
    assert_eq!(serve(&table, &mut state, &exec), Ok(4));
    assert_eq!(serve(&table, &mut state, &exec), Ok(4));
}

#[test]
fn exec_before_init_fails_not_initialized() {
    let table = hyperlight_main();
    let mut state = EngineState::new();
    let r = serve(&table, &mut state, &make_exec_call());
    assert_eq!(r, Err(GuestError::NotInitialized));
    assert_eq!(
        GuestError::NotInitialized.message(),
        b"Engine not initialized. Call Init first.".to_vec()
    );
}

#[test]
fn second_init_keeps_first_script() {
    let table = hyperlight_main();
    let mut state = EngineState::new();
    assert_eq!(serve(&table, &mut state, &init_call("2+2")), Ok(0));
    // A second Init with a different script is a no-op success.
    assert_eq!(serve(&table, &mut state, &init_call(FIB_SCRIPT)), Ok(0));
    // The engine is still latched to the first source and behaves like it.
    assert_eq!(state.source_bytes().map(|v| v.clone()), Some(b"2+2".to_vec()));
    assert_eq!(serve(&table, &mut state, &make_exec_call()), Ok(4));
}

#[test]
fn unregistered_operation_is_not_found_with_exact_name() {
    let table = hyperlight_main();
    let mut state = EngineState::new();
    let call = CallEnvelope { name: b"Frobnicate".to_vec(), params: Vec::new() };
    let r = serve(&table, &mut state, &call);
    assert_eq!(r, Err(GuestError::FunctionNotFound(b"Frobnicate".to_vec())));
    // The fallback dispatcher echoes the exact requested name too.
    let fallback = guest_dispatch_function(&call);
    assert_eq!(fallback, Err(GuestError::FunctionNotFound(b"Frobnicate".to_vec())));
}

#[test]
fn failed_compile_leaves_absent_and_retry_succeeds() {
    let table = hyperlight_main();
    let mut state = EngineState::new();
    let r = serve(&table, &mut state, &init_call("syntax error("));
    assert_eq!(
        r,
        Err(GuestError::CompileFailed(b"SyntaxError: unexpected token".to_vec()))
    );
    // The failure is not sticky: the engine is still Absent...
    assert!(state.source_bytes().is_none());
    // ...so a later Init with a valid source succeeds normally.
    assert_eq!(serve(&table, &mut state, &init_call("2+2")), Ok(0));
    assert_eq!(serve(&table, &mut state, &make_exec_call()), Ok(4));
}

#[test]
fn null_stencil_reports_compile_failure() {
    let mut state = EngineState::new();
    let r = apply_compile(
        &mut state,
        b"2+2".to_vec(),
        CompileOutcome::Ready(Stencil::from_raw(0)),
    );
    assert_eq!(
        r,
        Err(GuestError::CompileFailed(b"Failed to compile script to stencil".to_vec()))
    );
    assert!(state.source_bytes().is_none());
}

#[test]
fn run_failures_keep_engine_compiled() {
    let table = hyperlight_main();
    let mut state = EngineState::new();
    assert_eq!(serve(&table, &mut state, &init_call("'a string'")), Ok(0));
    // A non-numeric result fails the call...
    assert_eq!(
        serve(&table, &mut state, &make_exec_call()),
        Err(GuestError::ExecutionFailed)
    );
    // ...but the compiled script stays latched for a retry.
    assert_eq!(
        state.source_bytes().map(|v| v.clone()),
        Some(b"'a string'".to_vec())
    );
}

#[test]
fn signature_mismatch_is_invalid_parameters() {
    let table = hyperlight_main();
    let mut state = EngineState::new();
    // Init with no parameters.
    let call = CallEnvelope { name: b"Init".to_vec(), params: Vec::new() };
    assert_eq!(serve(&table, &mut state, &call), Err(GuestError::InvalidParameters));
    // Init with an integer instead of a string.
    let call = CallEnvelope { name: b"Init".to_vec(), params: vec![TypedValue::Int32(3)] };
    assert_eq!(serve(&table, &mut state, &call), Err(GuestError::InvalidParameters));
    // Exec with a stray parameter.
    let call = CallEnvelope { name: b"Exec".to_vec(), params: vec![TypedValue::Int32(3)] };
    assert_eq!(serve(&table, &mut state, &call), Err(GuestError::InvalidParameters));
}

#[test]
fn end_to_end_fibonacci_over_the_wire() {
    let table = hyperlight_main();
    let mut state = EngineState::new();

    // Host: build and encode the Init call; guest: decode, serve, respond.
    let init_bytes = encode_envelope(&init_call(FIB_SCRIPT));
    let decoded = decode_envelope(&init_bytes).expect("envelope should decode");
    let result = serve(&table, &mut state, &decoded);
    let resp_bytes = encode_response(&to_response(&result));
    let resp = decode_response(&resp_bytes).expect("response should decode");
    assert_eq!(response_int(&resp), Some(0));

    // Host: the Exec round trip returns fibonacci(10).
    let exec_bytes = encode_envelope(&make_exec_call());
    let decoded = decode_envelope(&exec_bytes).expect("envelope should decode");
    let result = serve(&table, &mut state, &decoded);
    let resp_bytes = encode_response(&to_response(&result));
    let resp = decode_response(&resp_bytes).expect("response should decode");
    assert_eq!(response_int(&resp), Some(55));
}

#[test]
fn envelope_encoding_is_exact() {
    let e = CallEnvelope { name: b"Ab".to_vec(), params: vec![TypedValue::Int32(1)] };
    let bytes = encode_envelope(&e);
    assert_eq!(
        bytes,
        vec![2, 0, 0, 0, 65, 98, 1, 0, 0, 0, 0, 1, 0, 0, 0]
    );
}

#[test]
fn envelope_round_trip() {
    let e = CallEnvelope {
        name: b"Init".to_vec(),
        params: vec![
            TypedValue::Int32(-7),
            TypedValue::Str(b"hi".to_vec()),
            TypedValue::Bytes(vec![0, 255, 3]),
        ],
    };
    let bytes = encode_envelope(&e);
    assert_eq!(decode_envelope(&bytes), Some(e));
}

#[test]
fn envelope_decode_rejects_malformed_input() {
    let e = CallEnvelope { name: b"Init".to_vec(), params: vec![TypedValue::Int32(5)] };
    let bytes = encode_envelope(&e);
    // Truncated input.
    assert_eq!(decode_envelope(&bytes[..bytes.len() - 1]), None);
    // Trailing junk.
    let mut longer = bytes.clone();
    longer.push(0);
    assert_eq!(decode_envelope(&longer), None);
    // An unknown type tag.
    assert_eq!(decode_envelope(&[0, 0, 0, 0, 1, 0, 0, 0, 9]), None);
    // Empty input.
    assert_eq!(decode_envelope(&[]), None);
}

#[test]
fn response_encoding_is_exact() {
    let ok = Response::Value(TypedValue::Int32(55));
    assert_eq!(encode_response(&ok), vec![1, 0, 55, 0, 0, 0]);
    let err = Response::Error { not_found: true, message: b"Nope".to_vec() };
    assert_eq!(
        encode_response(&err),
        vec![0, 1, 4, 0, 0, 0, 78, 111, 112, 101]
    );
}

#[test]
fn response_round_trip() {
    let ok = Response::Value(TypedValue::Int32(-1));
    assert_eq!(decode_response(&encode_response(&ok)), Some(ok));
    let err = Response::Error { not_found: false, message: b"Script execution failed".to_vec() };
    assert_eq!(decode_response(&encode_response(&err)), Some(err.clone()));
    // Truncated and junk-tailed responses are rejected.
    let bytes = encode_response(&err);
    assert_eq!(decode_response(&bytes[..bytes.len() - 1]), None);
    let mut longer = bytes.clone();
    longer.push(7);
    assert_eq!(decode_response(&longer), None);
}

#[test]
fn error_messages_and_wire_codes() {
    let cases: Vec<(GuestError, &[u8], bool)> = vec![
        (
            GuestError::FunctionNotFound(b"Missing".to_vec()),
            b"Missing",
            true,
        ),
        (
            GuestError::InvalidParameters,
            b"Invalid parameters passed to Eval",
            false,
        ),
        (
            GuestError::NotInitialized,
            b"Engine not initialized. Call Init first.",
            false,
        ),
        (
            GuestError::CompileFailed(b"bad".to_vec()),
            b"bad",
            false,
        ),
        (
            GuestError::InstantiateFailed,
            b"Failed to instantiate script from stencil",
            false,
        ),
        (
            GuestError::ExecutionFailed,
            b"Script execution failed",
            false,
        ),
    ];
    for (e, text, not_found) in cases {
        assert_eq!(e.message(), text.to_vec());
        match to_response(&Err(e)) {
            Response::Error { not_found: nf, message } => {
                assert_eq!(nf, not_found);
                assert_eq!(message, text.to_vec());
            }
            other => panic!("expected an error response, got {:?}", other),
        }
    }
    assert_eq!(
        to_response(&Ok(42)),
        Response::Value(TypedValue::Int32(42))
    );
}

#[test]
fn allocator_returns_aligned_blocks() {
    let mut a = ShimAllocator::new(1 << 20);
    let mut align: u32 = 1;
    // Every power-of-two alignment up to the supported maximum.
    while align <= 4096 {
        let p = a.allocate(13, align).expect("heap is far from full");
        assert_eq!(p % align, 0);
        align *= 2;
    }
}

#[test]
fn allocator_exhaustion_is_deterministic() {
    let mut a = ShimAllocator::new(16);
    assert_eq!(a.allocate(8, 8), Some(0));
    // Too big to fit in what remains: fails, and changes nothing.
    assert_eq!(a.allocate(16, 1), None);
    assert_eq!(a.allocate(8, 8), Some(8));
    // The heap is now exactly full.
    assert_eq!(a.allocate(1, 1), None);
    assert_eq!(a.allocate(0, 1), Some(16));
}

#[test]
fn clock_is_monotonic() {
    let mut c = ShimClock::new();
    let mut last = c.now();
    for _ in 0..100 {
        let t = c.now();
        assert!(t >= last);
        last = t;
    }
}

#[test]
fn sysconf_returns_fixed_constants() {
    assert_eq!(sysconf(SysconfQuery::PageSize), 4096);
    assert_eq!(sysconf(SysconfQuery::ProcessorCount), 1);
}

#[test]
fn exit_and_kill_abort_only_the_call() {
    assert_eq!(process_exit(3).status, 3);
    // kill maps to the exit path with the conventional fatal-signal status.
    assert_eq!(signal_kill(1, 9).status, 137);
}

#[test]
fn output_sink_collects_writes_in_order() {
    let mut o = ShimOutput::new();
    assert_eq!(o.write(b"hello "), 6);
    assert_eq!(o.write(b"world"), 5);
    assert_eq!(o.drain(), b"hello world".to_vec());
    assert_eq!(o.drain(), Vec::<u8>::new());
}

#[test]
fn limits_validation() {
    assert!(validate_limits(&ResourceLimits { heap_bytes: 32 * 1024 * 1024, stack_bytes: 1024 * 1024 }));
    assert!(!validate_limits(&ResourceLimits { heap_bytes: 0, stack_bytes: 1024 }));
    assert!(!validate_limits(&ResourceLimits { heap_bytes: 1024, stack_bytes: 0 }));
    assert!(!validate_limits(&ResourceLimits { heap_bytes: u32::MAX, stack_bytes: 1024 }));
    assert!(!validate_limits(&ResourceLimits { heap_bytes: 1024, stack_bytes: u32::MAX }));
}
