//! The script-engine lifecycle: a single per-sandbox state holder with
//! latch-once compile semantics and repeatable execution.
//!
//! The engine itself (compile source to a stencil, instantiate and run a
//! stencil) is an opaque collaborator outside this library.  The lifecycle
//! is therefore split into decision and completion steps: [`init`] and
//! [`exec`] decide what the engine must be asked to do, the surrounding
//! loop performs the foreign work, and [`apply_compile`] / [`apply_run`]
//! turn the outcome into the state transition and the call's result.
//!
//! States: `Absent` (initial) and `Compiled` (terminal, re-enterable for
//! `Exec`).  A second `Init` while `Compiled` is a deliberate no-op: the
//! first compiled script is latched and never replaced.  A failed compile
//! leaves the state `Absent`, so a later `Init` may retry.

use vstd::prelude::*;

use crate::envelope::{models_of, TypedValue, ValueModel};
use crate::error::GuestError;

verus! {

/// A handle to the engine's compiled representation of a script.  The
/// engine hands it out at compile time; a zero handle is the null stencil,
/// the engine's sign that compilation produced nothing.
#[derive(Clone, Copy, Debug, PartialEq, Eq, Structural)]
pub struct Stencil {
    raw: u64,
}

impl Stencil {
    /// The raw handle value.
    pub closed spec fn id(self) -> u64 {
        self.raw
    }

    /// Wrap a raw engine handle.
    pub fn from_raw(raw: u64) -> (s: Stencil)
        ensures
            s.id() == raw,
    {
        Stencil { raw }
    }

    /// Whether this is the null stencil, i.e. no compiled form at all.
    pub fn is_null(&self) -> (r: bool)
        ensures
            r == (self.id() == 0),
    {
        self.raw == 0
    }
}

/// The per-sandbox engine state: nothing yet, or a latched compiled script.
/// `Compiled` records the source the stencil was compiled from, so that
/// contracts (and tests) can say which script the engine is bound to.
#[derive(Clone, Debug, PartialEq, Eq)]
pub enum EngineState {
    Absent,
    Compiled { stencil: Stencil, source: Vec<u8> },
}

impl EngineState {
    /// A compiled state never holds the null stencil.
    pub open spec fn wf(self) -> bool {
        match self {
            EngineState::Absent => true,
            EngineState::Compiled { stencil, source } => stencil.id() != 0,
        }
    }

    /// The source the engine is compiled against, if any.
    pub open spec fn compiled_source(self) -> Option<Seq<u8>> {
        match self {
            EngineState::Absent => None,
            EngineState::Compiled { stencil, source } => Some(source@),
        }
    }

    /// Start with no script.
    pub fn new() -> (s: EngineState)
        ensures
            s == EngineState::Absent,
    {
        EngineState::Absent
    }

    /// Expose which source the engine is latched to, for callers outside
    /// the library.
    pub fn source_bytes(&self) -> (r: Option<&Vec<u8>>)
        ensures
            match r {
                Some(v) => self.compiled_source() == Some(v@),
                None => self is Absent,
            },
    {
        match self {
            EngineState::Absent => None,
            EngineState::Compiled { stencil, source } => Some(source),
        }
    }
}

/// What serving an `Init` call requires of the surrounding loop.
pub enum InitStep {
    /// A script is already latched: report success without compiling.
    AlreadyCompiled,
    /// Ask the engine to compile this source, then call [`apply_compile`].
    NeedCompile(Vec<u8>),
}

/// The parameters of an `Init` call are exactly one string: the source.
pub open spec fn params_valid_init(ps: Seq<ValueModel>) -> bool {
    ps.len() == 1 && ps[0] is Str
}

/// The source carried by valid `Init` parameters.
pub open spec fn init_source(ps: Seq<ValueModel>) -> Seq<u8>
    recommends
        params_valid_init(ps),
{
    ps[0]->Str_0
}

/// The decision an `Init` call leads to, as a pure function of state and
/// parameters.
pub enum InitDecision {
    Reject,
    AlreadyCompiled,
    Compile(Seq<u8>),
}

/// How `Init` must be served: reject bad parameters, latch-once when a
/// script is already compiled, otherwise compile the given source.
pub open spec fn init_decision(s: EngineState, ps: Seq<ValueModel>) -> InitDecision {
    if !params_valid_init(ps) {
        InitDecision::Reject
    } else {
        match s {
            EngineState::Compiled { stencil, source } => InitDecision::AlreadyCompiled,
            EngineState::Absent => InitDecision::Compile(init_source(ps)),
        }
    }
}

/// Serve an `Init` call: validate the parameters and decide whether a
/// compile is needed.  Never changes the state by itself; only a compile
/// outcome applied through [`apply_compile`] can.
pub fn init(state: &EngineState, params: &Vec<TypedValue>) -> (r: Result<InitStep, GuestError>)
    ensures
        match r {
            Ok(InitStep::AlreadyCompiled) => init_decision(*state, models_of(params@))
                == InitDecision::AlreadyCompiled,
            Ok(InitStep::NeedCompile(src)) => init_decision(*state, models_of(params@))
                == InitDecision::Compile(src@),
            Err(e) => e == GuestError::InvalidParameters && init_decision(
                *state,
                models_of(params@),
            ) == InitDecision::Reject,
        },
{
    if params.len() != 1 {
        return Err(GuestError::InvalidParameters);
    }
    match &params[0] {
        TypedValue::Str(source) => {
            match state {
                EngineState::Compiled { stencil, source: latched } => Ok(
                    InitStep::AlreadyCompiled,
                ),
                EngineState::Absent => Ok(InitStep::NeedCompile(source.clone())),
            }
        },
        _ => Err(GuestError::InvalidParameters),
    }
}

/// What the engine reported for a compile request.
pub enum CompileOutcome {
    /// The engine produced a stencil (possibly the null stencil).
    Ready(Stencil),
    /// Engine setup or compilation failed, with its descriptive message.
    Failed(Vec<u8>),
}

/// The state after a compile outcome is applied to an `Absent` engine:
/// only a real (non-null) stencil latches the script.
pub open spec fn state_after_compile(source: Vec<u8>, outcome: CompileOutcome) -> EngineState {
    match outcome {
        CompileOutcome::Ready(st) => if st.id() != 0 {
            EngineState::Compiled { stencil: st, source }
        } else {
            EngineState::Absent
        },
        CompileOutcome::Failed(msg) => EngineState::Absent,
    }
}

/// Whether a compile outcome counts as success.
pub open spec fn compile_succeeded(outcome: CompileOutcome) -> bool {
    match outcome {
        CompileOutcome::Ready(st) => st.id() != 0,
        CompileOutcome::Failed(msg) => false,
    }
}

/// The message reported when the engine yields the null stencil.
pub open spec fn null_stencil_message() -> Seq<u8> {
    "Failed to compile script to stencil"@.map_values(|c: char| c as u8)
}

/// Latch a compile outcome requested by [`init`].  Success stores the
/// stencil and the source it came from; any failure leaves the engine
/// `Absent`, so a later `Init` may retry.
pub fn apply_compile(state: &mut EngineState, source: Vec<u8>, outcome: CompileOutcome) -> (r:
    Result<i32, GuestError>)
    requires
        *old(state) is Absent,
    ensures
        *final(state) == state_after_compile(source, outcome),
        final(state).wf(),
        compile_succeeded(outcome) ==> r == Ok::<i32, GuestError>(0),
        match outcome {
            CompileOutcome::Ready(st) => if st.id() != 0 {
                r == Ok::<i32, GuestError>(0)
            } else {
                r matches Err(GuestError::CompileFailed(m)) && m@ == null_stencil_message()
            },
            CompileOutcome::Failed(msg) => r == Err::<i32, GuestError>(
                GuestError::CompileFailed(msg),
            ),
        },
{
    match outcome {
        CompileOutcome::Ready(st) => {
            if !st.is_null() {
                *state = EngineState::Compiled { stencil: st, source };
                Ok(0)
            } else {
                Err(GuestError::CompileFailed(crate::error::text_to_bytes(
                    "Failed to compile script to stencil",
                )))
            }
        },
        CompileOutcome::Failed(msg) => Err(GuestError::CompileFailed(msg)),
    }
}

/// What serving an `Exec` call yields before the engine is consulted.
pub open spec fn exec_decision(s: EngineState) -> Result<Stencil, GuestError> {
    match s {
        EngineState::Absent => Err(GuestError::NotInitialized),
        EngineState::Compiled { stencil, source } => Ok(stencil),
    }
}

/// Serve an `Exec` call: hand back the latched stencil for the engine to
/// instantiate and run, or fail when no `Init` has succeeded yet.  Takes
/// the state immutably: serving `Exec` can never change it.
pub fn exec(state: &EngineState) -> (r: Result<Stencil, GuestError>)
    ensures
        r == exec_decision(*state),
{
    match state {
        EngineState::Absent => Err(GuestError::NotInitialized),
        EngineState::Compiled { stencil, source } => Ok(*stencil),
    }
}

/// What the engine reported for a run request.
pub enum RunOutcome {
    /// The script ran to completion and yielded a 32-bit integer.
    Value(i32),
    /// A fresh executable form could not be instantiated from the stencil.
    InstantiateFailed,
    /// The script failed, or its result was not a 32-bit integer.
    NotInt,
}

/// The call result a run outcome maps to.
pub open spec fn run_result(outcome: RunOutcome) -> Result<i32, GuestError> {
    match outcome {
        RunOutcome::Value(v) => Ok(v),
        RunOutcome::InstantiateFailed => Err(GuestError::InstantiateFailed),
        RunOutcome::NotInt => Err(GuestError::ExecutionFailed),
    }
}

/// Turn a run outcome into the `Exec` call's result.  Takes no state at
/// all: a failed or successful run never changes what is compiled.
pub fn apply_run(outcome: RunOutcome) -> (r: Result<i32, GuestError>)
    ensures
        r == run_result(outcome),
{
    match outcome {
        RunOutcome::Value(v) => Ok(v),
        RunOutcome::InstantiateFailed => Err(GuestError::InstantiateFailed),
        RunOutcome::NotInt => Err(GuestError::ExecutionFailed),
    }
}

// ---------------------------------------------------------------------------
// Laws of the lifecycle.
// ---------------------------------------------------------------------------

/// One whole `Exec` call as a transition: the state it leaves behind and
/// the result it reports, given what the engine made of the run.  The
/// state passes through untouched either way.
pub open spec fn exec_serve(s: EngineState, outcome: RunOutcome) -> (EngineState, Result<
    i32,
    GuestError,
>) {
    match exec_decision(s) {
        Result::Ok(st) => (s, run_result(outcome)),
        Result::Err(e) => (s, Err(e)),
    }
}

/// Serving `Exec` is repeatable: it never changes the state, so two
/// consecutive `Exec` calls hand the engine the very same compiled form,
/// and when the engine answers alike for that one stencil — as it does
/// for a pure script — the two calls report the same result.
pub proof fn lemma_exec_repeatable(s: EngineState, o1: RunOutcome, o2: RunOutcome)
    requires
        o1 == o2,
    ensures
        exec_serve(s, o1).0 == s,
        exec_serve(exec_serve(s, o1).0, o2).1 == exec_serve(s, o1).1,
        s is Compiled ==> exec_decision(s) == Ok::<Stencil, GuestError>(s->Compiled_stencil),
{
}

/// `Exec` before any successful `Init` fails with exactly the
/// not-initialized error — never a crash or an undefined value.
pub proof fn lemma_exec_requires_init()
    ensures
        exec_decision(EngineState::Absent) == Err::<Stencil, GuestError>(
            GuestError::NotInitialized,
        ),
{
}

/// Latch-once: once a script is compiled, a second `Init` with any other
/// source decides `AlreadyCompiled` — no compile is requested, and since
/// only [`apply_compile`] (which requires an `Absent` state) can change
/// the state, the engine stays bound to the first script.
pub proof fn lemma_init_latches_first_script(st: Stencil, first: Vec<u8>, ps: Seq<ValueModel>)
    requires
        params_valid_init(ps),
    ensures
        init_decision(EngineState::Compiled { stencil: st, source: first }, ps)
            == InitDecision::AlreadyCompiled,
        (EngineState::Compiled { stencil: st, source: first }).compiled_source() == Some(first@),
{
}

/// A failed compile leaves the engine `Absent`, and a later `Init` with a
/// source the engine accepts succeeds normally: the failure is not sticky.
pub proof fn lemma_failed_init_allows_retry(
    bad_src: Vec<u8>,
    msg: Vec<u8>,
    good_src: Vec<u8>,
    st: Stencil,
)
    requires
        st.id() != 0,
    ensures
        state_after_compile(bad_src, CompileOutcome::Failed(msg)) == EngineState::Absent,
        !compile_succeeded(CompileOutcome::Failed(msg)),
        state_after_compile(good_src, CompileOutcome::Ready(st)) == (EngineState::Compiled {
            stencil: st,
            source: good_src,
        }),
        compile_succeeded(CompileOutcome::Ready(st)),
{
}

} // verus!
