//! The host-side controller's decisions: validating resource limits before
//! a sandbox is created, building the call envelopes it sends, and reading
//! the response that comes back.
//!
//! The isolation substrate itself (loading a guest image, carrying a call
//! across the boundary) stays outside the library; the controller loop
//! hands it the envelopes built here and hands back what arrived.

use vstd::prelude::*;

use crate::dispatch::{exec_name, init_name};
use crate::envelope::{CallEnvelope, Response, ResponseModel, TypedValue, ValueModel};

verus! {

/// The largest heap a sandbox may be created with.
pub const MAX_HEAP_BYTES: u32 = 0x4000_0000;

/// The largest stack a sandbox may be created with.
pub const MAX_STACK_BYTES: u32 = 0x0400_0000;

/// The resource limits a sandbox is created with; immutable for its
/// lifetime.
#[derive(Clone, Copy, Debug, PartialEq, Eq, Structural)]
pub struct ResourceLimits {
    pub heap_bytes: u32,
    pub stack_bytes: u32,
}

/// Limits are valid when neither size is zero nor absurdly large.
pub open spec fn limits_valid(l: ResourceLimits) -> bool {
    &&& 0 < l.heap_bytes <= MAX_HEAP_BYTES
    &&& 0 < l.stack_bytes <= MAX_STACK_BYTES
}

/// Check resource limits before creating a sandbox: creation must fail on
/// zero or absurdly large limits rather than hand them to the substrate.
pub fn validate_limits(l: &ResourceLimits) -> (r: bool)
    ensures
        r == limits_valid(*l),
{
    0 < l.heap_bytes && l.heap_bytes <= MAX_HEAP_BYTES && 0 < l.stack_bytes && l.stack_bytes
        <= MAX_STACK_BYTES
}

/// Build the `Init` call envelope carrying a script source.
pub fn make_init_call(source: Vec<u8>) -> (e: CallEnvelope)
    ensures
        e.name@ == init_name(),
        e.params@ == seq![TypedValue::Str(source)],
{
    let mut params: Vec<TypedValue> = Vec::new();
    params.push(TypedValue::Str(source));
    proof {
        assert(params@ =~= seq![TypedValue::Str(source)]);
    }
    CallEnvelope { name: crate::error::text_to_bytes("Init"), params }
}

/// Build the `Exec` call envelope: no parameters.
pub fn make_exec_call() -> (e: CallEnvelope)
    ensures
        e.name@ == exec_name(),
        e.params@ == Seq::<TypedValue>::empty(),
{
    let params: Vec<TypedValue> = Vec::new();
    proof {
        assert(params@ =~= Seq::<TypedValue>::empty());
    }
    CallEnvelope { name: crate::error::text_to_bytes("Exec"), params }
}

/// Read the scalar result out of a response: the value when the guest
/// answered with a 32-bit integer, and nothing otherwise.
pub fn response_int(resp: &Response) -> (r: Option<i32>)
    ensures
        r == (match resp.model() {
            ResponseModel::Value(v) => match v {
                ValueModel::Int(i) => Some(i),
                ValueModel::Str(s) => None::<i32>,
                ValueModel::Bytes(b) => None::<i32>,
            },
            ResponseModel::Error { not_found, message } => None::<i32>,
        }),
{
    match resp {
        Response::Value(TypedValue::Int32(i)) => Some(*i),
        _ => None,
    }
}

} // verus!
