//! The function dispatch table: the fixed mapping from operation name to
//! entry point and type signature, built once at guest startup, and the
//! dispatch step that serves one call envelope against it.
//!
//! Lookup is by exact name; an unregistered name fails with a
//! function-not-found error echoing that exact name.  A found entry has the
//! call's parameters checked against its stored signature before its entry
//! point is consulted.  Dispatch itself is stateless across calls.

use vstd::prelude::*;

use crate::bytes_eq;
use crate::engine::{exec_decision, init_decision, EngineState, InitDecision, InitStep, Stencil};
use crate::envelope::{models_of, CallEnvelope, Response, TypeTag, TypedValue, ValueModel};
use crate::error::GuestError;

verus! {

/// The closed set of guest entry points.  The operations a sandbox serves
/// are fixed at build time, so an entry point is a tag, not an address.
#[derive(Clone, Copy, Debug, PartialEq, Eq, Structural)]
pub enum GuestOp {
    Init,
    Exec,
}

/// One registered operation: unique name, parameter signature, declared
/// return type, and the entry point serving it.
#[derive(Clone, Debug, PartialEq, Eq)]
pub struct DispatchEntry {
    pub name: Vec<u8>,
    pub param_types: Vec<TypeTag>,
    pub return_type: TypeTag,
    pub entry: GuestOp,
}

/// The first entry whose name matches, scanning in registration order.
pub open spec fn find_spec(entries: Seq<DispatchEntry>, name: Seq<u8>) -> Option<DispatchEntry>
    decreases entries.len(),
{
    if entries.len() == 0 {
        None
    } else if entries[0].name@ == name {
        Some(entries[0])
    } else {
        find_spec(entries.drop_first(), name)
    }
}

/// The dispatch table.  Built once during guest startup, before any call
/// is dispatched, and immutable afterwards.
pub struct DispatchTable {
    entries: Vec<DispatchEntry>,
}

impl DispatchTable {
    /// The registered entries, in registration order.
    pub closed spec fn entries_seq(self) -> Seq<DispatchEntry> {
        self.entries@
    }

    /// Whether some entry is registered under this name.
    pub open spec fn contains_name(self, name: Seq<u8>) -> bool {
        find_spec(self.entries_seq(), name) is Some
    }

    /// An empty table.
    pub fn new() -> (t: DispatchTable)
        ensures
            t.entries_seq() == Seq::<DispatchEntry>::empty(),
    {
        DispatchTable { entries: Vec::new() }
    }

    /// Register an entry.  Called only during startup; a duplicate name is
    /// a programmer error, excluded here rather than handled at run time.
    pub fn register(&mut self, entry: DispatchEntry)
        requires
            !old(self).contains_name(entry.name@),
        ensures
            final(self).entries_seq() == old(self).entries_seq().push(entry),
    {
        self.entries.push(entry);
    }

    /// Look up an entry by exact name match.
    pub fn lookup(&self, name: &Vec<u8>) -> (r: Option<&DispatchEntry>)
        ensures
            match r {
                Some(e) => find_spec(self.entries_seq(), name@) == Some(*e),
                None => find_spec(self.entries_seq(), name@) is None,
            },
    {
        proof {
            assert(self.entries@.skip(0) =~= self.entries@);
        }
        let mut i: usize = 0;
        while i < self.entries.len()
            invariant
                i <= self.entries@.len(),
                find_spec(self.entries@, name@) == find_spec(
                    self.entries@.skip(i as int),
                    name@,
                ),
            decreases self.entries@.len() - i,
        {
            proof {
                assert(self.entries@.skip(i as int)[0] == self.entries@[i as int]);
                assert(self.entries@.skip(i as int).drop_first() =~= self.entries@.skip(
                    i + 1 as int,
                ));
            }
            if bytes_eq(self.entries[i].name.as_slice(), name.as_slice()) {
                return Some(&self.entries[i]);
            }
            i += 1;
        }
        None
    }
}

/// Whether the parameters carry exactly the registered types, in order.
pub open spec fn sig_matches(tags: Seq<TypeTag>, ps: Seq<ValueModel>) -> bool {
    tags.len() == ps.len() && forall|i: int| 0 <= i < tags.len() ==> ps[i].tag() == tags[i]
}

/// Check a call's parameters against a registered signature.
pub fn check_signature(tags: &Vec<TypeTag>, params: &Vec<TypedValue>) -> (r: bool)
    ensures
        r == sig_matches(tags@, models_of(params@)),
{
    if tags.len() != params.len() {
        return false;
    }
    let mut i: usize = 0;
    while i < tags.len()
        invariant
            i <= tags@.len(),
            tags@.len() == params@.len(),
            forall|j: int| 0 <= j < i ==> models_of(params@)[j].tag() == tags@[j],
        decreases tags@.len() - i,
    {
        let t = params[i].tag();
        if !(t == tags[i]) {
            proof {
                assert(models_of(params@)[i as int].tag() != tags@[i as int]);
            }
            return false;
        }
        i += 1;
    }
    true
}

/// What one dispatched call comes to, as a pure function of the table, the
/// engine state, and the call's name and parameters.
pub enum DispatchDecision {
    /// No entry under the requested name.
    NotFound,
    /// Parameters do not fit the signature the entry was registered with.
    BadParams,
    /// `Exec` was requested while nothing is compiled.
    NotInitialized,
    /// The call is complete with this value (an `Init` that found a script
    /// already latched).
    Done(i32),
    /// The engine must compile this source.
    Compile(Seq<u8>),
    /// The engine must instantiate and run this stencil.
    Run(Stencil),
}

/// The dispatch decision: look the name up, validate the signature, then
/// let the entry point decide from the engine state.
pub open spec fn dispatch_decision(
    t: DispatchTable,
    s: EngineState,
    name: Seq<u8>,
    ps: Seq<ValueModel>,
) -> DispatchDecision {
    match find_spec(t.entries_seq(), name) {
        Option::None => DispatchDecision::NotFound,
        Option::Some(entry) => if !sig_matches(entry.param_types@, ps) {
            DispatchDecision::BadParams
        } else {
            match entry.entry {
                GuestOp::Init => match init_decision(s, ps) {
                    InitDecision::Reject => DispatchDecision::BadParams,
                    InitDecision::AlreadyCompiled => DispatchDecision::Done(0),
                    InitDecision::Compile(src) => DispatchDecision::Compile(src),
                },
                GuestOp::Exec => match exec_decision(s) {
                    Result::Ok(st) => DispatchDecision::Run(st),
                    Result::Err(e) => DispatchDecision::NotInitialized,
                },
            }
        },
    }
}

/// What the surrounding loop must do to finish serving a call.
pub enum DispatchStep {
    /// Respond with this value now.
    Done(i32),
    /// Ask the engine to compile this source, then apply the outcome.
    Compile(Vec<u8>),
    /// Ask the engine to instantiate and run this stencil, then apply the
    /// outcome.
    Run(Stencil),
}

/// Serve one call envelope: resolve the name, validate the parameters, and
/// decide what the engine must be asked to do.  Fails with
/// function-not-found echoing the exact requested name when no entry
/// matches.
pub fn dispatch(table: &DispatchTable, state: &EngineState, call: &CallEnvelope) -> (r: Result<
    DispatchStep,
    GuestError,
>)
    ensures
        ({
            let dd = dispatch_decision(*table, *state, call.name@, models_of(call.params@));
            match r {
                Ok(DispatchStep::Done(v)) => dd == DispatchDecision::Done(v),
                Ok(DispatchStep::Compile(src)) => dd == DispatchDecision::Compile(src@),
                Ok(DispatchStep::Run(st)) => dd == DispatchDecision::Run(st),
                Err(e) => {
                    ||| (dd == DispatchDecision::NotFound && (e matches GuestError::FunctionNotFound(
                        n,
                    ) && n@ == call.name@))
                    ||| (dd == DispatchDecision::BadParams && e == GuestError::InvalidParameters)
                    ||| (dd == DispatchDecision::NotInitialized && e == GuestError::NotInitialized)
                },
            }
        }),
{
    let entry = match table.lookup(&call.name) {
        Some(e) => e,
        None => {
            return Err(GuestError::FunctionNotFound(call.name.clone()));
        },
    };
    if !check_signature(&entry.param_types, &call.params) {
        return Err(GuestError::InvalidParameters);
    }
    match entry.entry {
        GuestOp::Init => match crate::engine::init(state, &call.params) {
            Ok(InitStep::AlreadyCompiled) => Ok(DispatchStep::Done(0)),
            Ok(InitStep::NeedCompile(src)) => Ok(DispatchStep::Compile(src)),
            Err(e) => Err(e),
        },
        GuestOp::Exec => match crate::engine::exec(state) {
            Ok(st) => Ok(DispatchStep::Run(st)),
            Err(e) => Err(e),
        },
    }
}

/// The fallback for a call whose name no table entry serves: fail with
/// function-not-found carrying that exact name.
pub fn guest_dispatch_function(call: &CallEnvelope) -> (r: Result<Vec<u8>, GuestError>)
    ensures
        r matches Err(GuestError::FunctionNotFound(n)) && n@ == call.name@,
{
    Err(GuestError::FunctionNotFound(call.name.clone()))
}

/// Wrap a finished call's result into the response envelope the caller
/// receives: a typed value on success, the error's code and descriptive
/// message on failure.  Function-not-found keeps its own wire code; every
/// other guest failure shares the general one.
pub fn to_response(r: &Result<i32, GuestError>) -> (resp: Response)
    ensures
        match r {
            Ok(v) => resp == Response::Value(TypedValue::Int32(*v)),
            Err(e) => resp matches Response::Error { not_found, message } && not_found
                == e.is_not_found() && message@ == e.message_spec(),
        },
{
    match r {
        Ok(v) => Response::Value(TypedValue::Int32(*v)),
        Err(e) => Response::Error {
            not_found: match e {
                GuestError::FunctionNotFound(n) => true,
                _ => false,
            },
            message: e.message(),
        },
    }
}

/// The operation name `Init`, as wire bytes.
pub open spec fn init_name() -> Seq<u8> {
    "Init"@.map_values(|c: char| c as u8)
}

/// The operation name `Exec`, as wire bytes.
pub open spec fn exec_name() -> Seq<u8> {
    "Exec"@.map_values(|c: char| c as u8)
}

/// Guest startup: build the dispatch table for this sandbox, registering
/// `Init(String) -> Int32` and `Exec() -> Int32`.
pub fn hyperlight_main() -> (t: DispatchTable)
    ensures
        t.entries_seq().len() == 2,
        t.entries_seq()[0].name@ == init_name(),
        t.entries_seq()[0].param_types@ == seq![TypeTag::Str],
        t.entries_seq()[0].return_type == TypeTag::Int32,
        t.entries_seq()[0].entry == GuestOp::Init,
        t.entries_seq()[1].name@ == exec_name(),
        t.entries_seq()[1].param_types@ == Seq::<TypeTag>::empty(),
        t.entries_seq()[1].return_type == TypeTag::Int32,
        t.entries_seq()[1].entry == GuestOp::Exec,
        find_spec(t.entries_seq(), init_name()) == Some(t.entries_seq()[0]),
        find_spec(t.entries_seq(), exec_name()) == Some(t.entries_seq()[1]),
{
    proof {
        reveal_strlit("Init");
        reveal_strlit("Exec");
        assert(init_name()[0] == 'I' as u8);
        assert(exec_name()[0] == 'E' as u8);
        assert(init_name() != exec_name());
    }
    let mut table = DispatchTable::new();
    let mut init_params: Vec<TypeTag> = Vec::new();
    init_params.push(TypeTag::Str);
    let init_entry = DispatchEntry {
        name: crate::error::text_to_bytes("Init"),
        param_types: init_params,
        return_type: TypeTag::Int32,
        entry: GuestOp::Init,
    };
    table.register(init_entry);
    let exec_entry = DispatchEntry {
        name: crate::error::text_to_bytes("Exec"),
        param_types: Vec::new(),
        return_type: TypeTag::Int32,
        entry: GuestOp::Exec,
    };
    proof {
        assert(table.entries_seq().len() == 1);
        assert(table.entries_seq()[0].name@ == init_name());
        assert(table.entries_seq().drop_first() =~= Seq::<DispatchEntry>::empty());
        assert(find_spec(Seq::<DispatchEntry>::empty(), exec_name()) is None);
        assert(find_spec(table.entries_seq(), exec_name()) is None);
    }
    table.register(exec_entry);
    proof {
        let es = table.entries_seq();
        assert(es[0].param_types@ =~= seq![TypeTag::Str]);
        assert(es[1].param_types@ =~= Seq::<TypeTag>::empty());
        assert(es.drop_first() =~= seq![es[1]]);
        assert(find_spec(es, init_name()) == Some(es[0]));
        assert(es[0].name@ != exec_name());
        assert(seq![es[1]][0] == es[1]);
        assert(find_spec(seq![es[1]], exec_name()) == Some(es[1]));
        assert(find_spec(es, exec_name()) == Some(es[1]));
    }
    table
}

} // verus!
