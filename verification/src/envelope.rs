//! The call-marshalling envelope: a compact, self-describing binary encoding
//! for a named operation invocation and for its typed response.
//!
//! Wire format, little-endian throughout:
//! - a length or count is four bytes (`u32`);
//! - a typed value is a tag byte (`0` = `Int32`, `1` = `Str`, `2` = `Bytes`)
//!   followed by its payload: four bytes for `Int32`, a length plus that many
//!   bytes for `Str` and `Bytes`;
//! - a call envelope is the operation name (length-prefixed) followed by a
//!   parameter count and that many typed values;
//! - a response is an ok flag byte (`1` = value follows, `0` = error follows);
//!   an error is a code byte (`1` = function not found, `0` = any other guest
//!   failure) followed by a length-prefixed message.
//!
//! The type tags make the encoding self-describing: a receiver can check
//! arity and parameter types against a registered signature before any
//! dispatch happens.

use vstd::prelude::*;
use vstd::slice::{slice_subrange, slice_to_vec};

verus! {

/// The type of a parameter or return value, as carried on the wire.
#[derive(Clone, Copy, Debug, PartialEq, Eq, Structural)]
pub enum TypeTag {
    Int32,
    Str,
    Bytes,
}

/// A typed value crossing the call boundary.  Strings travel as their UTF-8
/// bytes; the envelope layer does not interpret them.
#[derive(Clone, Debug, PartialEq, Eq)]
pub enum TypedValue {
    Int32(i32),
    Str(Vec<u8>),
    Bytes(Vec<u8>),
}

/// The mathematical model of a [`TypedValue`].
pub enum ValueModel {
    Int(i32),
    Str(Seq<u8>),
    Bytes(Seq<u8>),
}

impl TypedValue {
    /// Abstract the exec value to its model.
    pub open spec fn model(self) -> ValueModel {
        match self {
            TypedValue::Int32(i) => ValueModel::Int(i),
            TypedValue::Str(s) => ValueModel::Str(s@),
            TypedValue::Bytes(b) => ValueModel::Bytes(b@),
        }
    }

    /// The tag this value carries.
    pub fn tag(&self) -> (t: TypeTag)
        ensures
            t == self.model().tag(),
    {
        match self {
            TypedValue::Int32(_) => TypeTag::Int32,
            TypedValue::Str(_) => TypeTag::Str,
            TypedValue::Bytes(_) => TypeTag::Bytes,
        }
    }
}

impl ValueModel {
    /// The tag of a modelled value.
    pub open spec fn tag(self) -> TypeTag {
        match self {
            ValueModel::Int(_) => TypeTag::Int32,
            ValueModel::Str(_) => TypeTag::Str,
            ValueModel::Bytes(_) => TypeTag::Bytes,
        }
    }

    /// A value fits on the wire when its payload length fits a `u32`.
    pub open spec fn wf(self) -> bool {
        match self {
            ValueModel::Int(_) => true,
            ValueModel::Str(s) => s.len() <= u32::MAX,
            ValueModel::Bytes(b) => b.len() <= u32::MAX,
        }
    }
}

/// A named operation invocation: operation name plus ordered typed
/// parameters.  Produced by the caller, consumed by the receiver's dispatch.
#[derive(Clone, Debug, PartialEq, Eq)]
pub struct CallEnvelope {
    pub name: Vec<u8>,
    pub params: Vec<TypedValue>,
}

/// The mathematical model of a [`CallEnvelope`].
pub struct EnvelopeModel {
    pub name: Seq<u8>,
    pub params: Seq<ValueModel>,
}

/// The models of a sequence of typed values, in order.
pub open spec fn models_of(ps: Seq<TypedValue>) -> Seq<ValueModel> {
    ps.map_values(|v: TypedValue| v.model())
}

impl CallEnvelope {
    /// Abstract the exec envelope to its model.
    pub open spec fn model(self) -> EnvelopeModel {
        EnvelopeModel { name: self.name@, params: models_of(self.params@) }
    }
}

impl EnvelopeModel {
    /// An envelope fits on the wire when every length fits a `u32`.
    pub open spec fn wf(self) -> bool {
        &&& self.name.len() <= u32::MAX
        &&& self.params.len() <= u32::MAX
        &&& forall|i: int| 0 <= i < self.params.len() ==> self.params[i].wf()
    }
}

/// A response crossing the boundary back to the caller: either a typed value
/// or an error code with a descriptive message.
#[derive(Clone, Debug, PartialEq, Eq)]
pub enum Response {
    Value(TypedValue),
    Error { not_found: bool, message: Vec<u8> },
}

/// The mathematical model of a [`Response`].
pub enum ResponseModel {
    Value(ValueModel),
    Error { not_found: bool, message: Seq<u8> },
}

impl Response {
    /// Abstract the exec response to its model.
    pub open spec fn model(self) -> ResponseModel {
        match self {
            Response::Value(v) => ResponseModel::Value(v.model()),
            Response::Error { not_found, message } => ResponseModel::Error {
                not_found,
                message: message@,
            },
        }
    }
}

impl ResponseModel {
    /// A response fits on the wire when its payload length fits a `u32`.
    pub open spec fn wf(self) -> bool {
        match self {
            ResponseModel::Value(v) => v.wf(),
            ResponseModel::Error { not_found, message } => message.len() <= u32::MAX,
        }
    }
}

// ---------------------------------------------------------------------------
// Specification of the encoding.
// ---------------------------------------------------------------------------

/// Four little-endian bytes of a `u32`.
pub open spec fn enc_u32(n: u32) -> Seq<u8> {
    seq![
        (n & 0xff) as u8,
        ((n >> 8) & 0xff) as u8,
        ((n >> 16) & 0xff) as u8,
        ((n >> 24) & 0xff) as u8,
    ]
}

/// One typed value: tag byte, then payload.
pub open spec fn enc_value(v: ValueModel) -> Seq<u8> {
    match v {
        ValueModel::Int(i) => seq![0u8] + enc_u32(i as u32),
        ValueModel::Str(s) => seq![1u8] + enc_u32(s.len() as u32) + s,
        ValueModel::Bytes(b) => seq![2u8] + enc_u32(b.len() as u32) + b,
    }
}

/// A run of typed values, in order.
pub open spec fn enc_values(vs: Seq<ValueModel>) -> Seq<u8>
    decreases vs.len(),
{
    if vs.len() == 0 {
        Seq::empty()
    } else {
        enc_value(vs[0]) + enc_values(vs.drop_first())
    }
}

/// A whole call envelope: length-prefixed name, then counted parameters.
pub open spec fn enc_envelope(e: EnvelopeModel) -> Seq<u8> {
    enc_u32(e.name.len() as u32) + e.name + enc_u32(e.params.len() as u32) + enc_values(e.params)
}

/// A whole response: ok flag, then value or coded message.
pub open spec fn enc_response(r: ResponseModel) -> Seq<u8> {
    match r {
        ResponseModel::Value(v) => seq![1u8] + enc_value(v),
        ResponseModel::Error { not_found, message } => seq![0u8]
            + seq![if not_found { 1u8 } else { 0u8 }]
            + enc_u32(message.len() as u32)
            + message,
    }
}

// ---------------------------------------------------------------------------
// Executable encoder.
// ---------------------------------------------------------------------------

/// Append the little-endian bytes of `n`.
pub fn write_u32(out: &mut Vec<u8>, n: u32)
    ensures
        final(out)@ == old(out)@ + enc_u32(n),
{
    proof {
        assert((n & 0xff) < 256 && ((n >> 8) & 0xff) < 256 && ((n >> 16) & 0xff) < 256 && ((n
            >> 24) & 0xff) < 256) by (bit_vector);
    }
    out.push((n & 0xff) as u8);
    out.push(((n >> 8) & 0xff) as u8);
    out.push(((n >> 16) & 0xff) as u8);
    out.push(((n >> 24) & 0xff) as u8);
    proof {
        assert(out@ =~= old(out)@ + enc_u32(n));
    }
}

/// Append the bytes of a slice.
fn write_bytes(out: &mut Vec<u8>, data: &[u8])
    ensures
        final(out)@ == old(out)@ + data@,
{
    let mut i: usize = 0;
    while i < data.len()
        invariant
            i <= data.len(),
            out@ =~= old(out)@ + data@.take(i as int),
        decreases data.len() - i,
    {
        out.push(data[i]);
        proof {
            assert(data@.take(i + 1 as int) =~= data@.take(i as int).push(data@[i as int]));
        }
        i += 1;
    }
    proof {
        assert(data@.take(data@.len() as int) =~= data@);
    }
}

/// Append one typed value.
pub fn write_value(out: &mut Vec<u8>, v: &TypedValue)
    requires
        v.model().wf(),
    ensures
        final(out)@ == old(out)@ + enc_value(v.model()),
{
    match v {
        TypedValue::Int32(i) => {
            out.push(0u8);
            write_u32(out, *i as u32);
        },
        TypedValue::Str(s) => {
            out.push(1u8);
            write_u32(out, s.len() as u32);
            write_bytes(out, s.as_slice());
        },
        TypedValue::Bytes(b) => {
            out.push(2u8);
            write_u32(out, b.len() as u32);
            write_bytes(out, b.as_slice());
        },
    }
    proof {
        assert(out@ =~= old(out)@ + enc_value(v.model()));
    }
}

/// Encode a call envelope to its wire bytes.
pub fn encode_envelope(e: &CallEnvelope) -> (out: Vec<u8>)
    requires
        e.model().wf(),
    ensures
        out@ == enc_envelope(e.model()),
{
    let mut out: Vec<u8> = Vec::new();
    write_u32(&mut out, e.name.len() as u32);
    write_bytes(&mut out, e.name.as_slice());
    write_u32(&mut out, e.params.len() as u32);
    let mut i: usize = 0;
    while i < e.params.len()
        invariant
            i <= e.params.len(),
            e.model().wf(),
            out@ =~= enc_u32(e.name@.len() as u32) + e.name@ + enc_u32(e.params@.len() as u32)
                + enc_values(e.model().params.take(i as int)),
        decreases e.params.len() - i,
    {
        proof {
            assert(e.model().params[i as int].wf());
        }
        write_value(&mut out, &e.params[i]);
        proof {
            lemma_enc_values_snoc(e.model().params.take(i as int), e.model().params[i as int]);
            assert(e.model().params.take(i + 1 as int) =~= e.model().params.take(i as int).push(
                e.model().params[i as int],
            ));
        }
        i += 1;
    }
    proof {
        assert(e.model().params.take(e.model().params.len() as int) =~= e.model().params);
        assert(out@ =~= enc_envelope(e.model()));
    }
    out
}

/// Encode a response to its wire bytes.
pub fn encode_response(r: &Response) -> (out: Vec<u8>)
    requires
        r.model().wf(),
    ensures
        out@ == enc_response(r.model()),
{
    let mut out: Vec<u8> = Vec::new();
    match r {
        Response::Value(v) => {
            out.push(1u8);
            write_value(&mut out, v);
        },
        Response::Error { not_found, message } => {
            out.push(0u8);
            out.push(if *not_found {
                1u8
            } else {
                0u8
            });
            write_u32(&mut out, message.len() as u32);
            write_bytes(&mut out, message.as_slice());
        },
    }
    proof {
        assert(out@ =~= enc_response(r.model()));
    }
    out
}

/// Appending one value to a run extends its encoding by that value's bytes.
pub proof fn lemma_enc_values_snoc(vs: Seq<ValueModel>, v: ValueModel)
    ensures
        enc_values(vs.push(v)) == enc_values(vs) + enc_value(v),
    decreases vs.len(),
{
    if vs.len() == 0 {
        assert(vs.push(v)[0] == v);
        assert(vs.push(v).drop_first() =~= Seq::<ValueModel>::empty());
        assert(enc_values(vs.push(v)) == enc_value(v) + enc_values(
            Seq::<ValueModel>::empty(),
        ));
        assert(enc_values(Seq::<ValueModel>::empty()) == Seq::<u8>::empty());
        assert(enc_values(vs) == Seq::<u8>::empty());
        assert(enc_values(vs.push(v)) =~= enc_values(vs) + enc_value(v));
    } else {
        assert(vs.push(v)[0] == vs[0]);
        assert(vs.push(v).drop_first() =~= vs.drop_first().push(v));
        lemma_enc_values_snoc(vs.drop_first(), v);
        assert(enc_values(vs.push(v)) == enc_value(vs[0]) + (enc_values(vs.drop_first())
            + enc_value(v)));
        assert(enc_values(vs) == enc_value(vs[0]) + enc_values(vs.drop_first()));
        assert(enc_values(vs.push(v)) =~= enc_values(vs) + enc_value(v));
    }
}

// ---------------------------------------------------------------------------
// Specification of the decoding.
// ---------------------------------------------------------------------------

/// Read four little-endian bytes as a `u32`; yields the value and the rest.
pub open spec fn dec_u32(s: Seq<u8>) -> Option<(u32, Seq<u8>)> {
    if s.len() < 4 {
        None
    } else {
        Some(
            (
                (s[0] as u32) | ((s[1] as u32) << 8) | ((s[2] as u32) << 16) | ((s[3] as u32)
                    << 24),
                s.skip(4),
            ),
        )
    }
}

/// Read one typed value; yields the value and the rest.
pub open spec fn dec_value(s: Seq<u8>) -> Option<(ValueModel, Seq<u8>)> {
    if s.len() < 1 {
        None
    } else if s[0] == 0u8 {
        match dec_u32(s.skip(1)) {
            Some((w, r)) => Some((ValueModel::Int(w as i32), r)),
            None => None,
        }
    } else if s[0] == 1u8 || s[0] == 2u8 {
        match dec_u32(s.skip(1)) {
            Some((len, r)) => if r.len() >= len {
                if s[0] == 1u8 {
                    Some((ValueModel::Str(r.take(len as int)), r.skip(len as int)))
                } else {
                    Some((ValueModel::Bytes(r.take(len as int)), r.skip(len as int)))
                }
            } else {
                None
            },
            None => None,
        }
    } else {
        None
    }
}

/// Read `count` typed values in order; yields them and the rest.
pub open spec fn dec_values(count: nat, s: Seq<u8>) -> Option<(Seq<ValueModel>, Seq<u8>)>
    decreases count,
{
    if count == 0 {
        Some((Seq::empty(), s))
    } else {
        match dec_value(s) {
            Some((v, r)) => match dec_values((count - 1) as nat, r) {
                Some((vs, r2)) => Some((seq![v] + vs, r2)),
                None => None,
            },
            None => None,
        }
    }
}

/// Decode a whole call envelope; the input must be consumed exactly.
pub open spec fn dec_envelope(s: Seq<u8>) -> Option<EnvelopeModel> {
    match dec_u32(s) {
        Some((name_len, r1)) => if r1.len() >= name_len {
            match dec_u32(r1.skip(name_len as int)) {
                Some((count, r3)) => match dec_values(count as nat, r3) {
                    Some((params, r4)) => if r4.len() == 0 {
                        Some(EnvelopeModel { name: r1.take(name_len as int), params })
                    } else {
                        None
                    },
                    None => None,
                },
                None => None,
            }
        } else {
            None
        },
        None => None,
    }
}

/// Decode a whole response; the input must be consumed exactly.
pub open spec fn dec_response(s: Seq<u8>) -> Option<ResponseModel> {
    if s.len() < 2 {
        None
    } else if s[0] == 1u8 {
        match dec_value(s.skip(1)) {
            Some((v, r)) => if r.len() == 0 {
                Some(ResponseModel::Value(v))
            } else {
                None
            },
            None => None,
        }
    } else if s[0] == 0u8 && (s[1] == 0u8 || s[1] == 1u8) {
        match dec_u32(s.skip(2)) {
            Some((len, r)) => if r.len() == len {
                Some(ResponseModel::Error { not_found: s[1] == 1u8, message: r })
            } else {
                None
            },
            None => None,
        }
    } else {
        None
    }
}

// ---------------------------------------------------------------------------
// Round trip: decoding an encoding yields the original.
// ---------------------------------------------------------------------------

/// Decoding four encoded bytes yields the encoded `u32` and the rest.
pub proof fn lemma_dec_enc_u32(n: u32, rest: Seq<u8>)
    ensures
        dec_u32(enc_u32(n) + rest) == Some((n, rest)),
{
    let s = enc_u32(n) + rest;
    assert(s[0] == (n & 0xff) as u8);
    assert(s[1] == ((n >> 8) & 0xff) as u8);
    assert(s[2] == ((n >> 16) & 0xff) as u8);
    assert(s[3] == ((n >> 24) & 0xff) as u8);
    assert((((n & 0xff) as u8) as u32) | ((((n >> 8) & 0xff) as u8) as u32) << 8 | ((((n >> 16)
        & 0xff) as u8) as u32) << 16 | ((((n >> 24) & 0xff) as u8) as u32) << 24 == n)
        by (bit_vector);
    assert(s.skip(4) =~= rest);
}

/// Decoding an encoded value yields that value and the rest.
pub proof fn lemma_dec_enc_value(v: ValueModel, rest: Seq<u8>)
    requires
        v.wf(),
    ensures
        dec_value(enc_value(v) + rest) == Some((v, rest)),
{
    let s = enc_value(v) + rest;
    match v {
        ValueModel::Int(i) => {
            assert(s[0] == 0u8);
            assert(s.skip(1) =~= enc_u32(i as u32) + rest);
            lemma_dec_enc_u32(i as u32, rest);
            assert((i as u32) as i32 == i) by (bit_vector);
        },
        ValueModel::Str(p) => {
            assert(s[0] == 1u8);
            assert(s.skip(1) =~= enc_u32(p.len() as u32) + (p + rest));
            lemma_dec_enc_u32(p.len() as u32, p + rest);
            assert((p.len() as u32) as int == p.len() as int);
            assert((p + rest).take(p.len() as int) =~= p);
            assert((p + rest).skip(p.len() as int) =~= rest);
        },
        ValueModel::Bytes(p) => {
            assert(s[0] == 2u8);
            assert(s.skip(1) =~= enc_u32(p.len() as u32) + (p + rest));
            lemma_dec_enc_u32(p.len() as u32, p + rest);
            assert((p.len() as u32) as int == p.len() as int);
            assert((p + rest).take(p.len() as int) =~= p);
            assert((p + rest).skip(p.len() as int) =~= rest);
        },
    }
}

/// Decoding an encoded run of values yields those values and the rest.
#[verifier::rlimit(50)]
pub proof fn lemma_dec_enc_values(vs: Seq<ValueModel>, rest: Seq<u8>)
    requires
        forall|i: int| 0 <= i < vs.len() ==> vs[i].wf(),
    ensures
        dec_values(vs.len(), enc_values(vs) + rest) == Some((vs, rest)),
    decreases vs.len(),
{
    if vs.len() == 0 {
        assert(enc_values(vs) + rest =~= rest);
        assert(Seq::<ValueModel>::empty() =~= vs);
    } else {
        let s = enc_values(vs) + rest;
        let mid = enc_values(vs.drop_first()) + rest;
        assert(s =~= enc_value(vs[0]) + mid);
        lemma_dec_enc_value(vs[0], mid);
        assert(dec_value(s) == Some((vs[0], mid)));
        lemma_dec_enc_values(vs.drop_first(), rest);
        assert(dec_values((vs.len() - 1) as nat, mid) == Some((vs.drop_first(), rest)));
        assert(dec_values(vs.len(), s) == Some((seq![vs[0]] + vs.drop_first(), rest)));
        assert(seq![vs[0]] + vs.drop_first() =~= vs);
    }
}

/// Round trip for call envelopes: decoding an encoding yields the original.
pub proof fn lemma_round_trip_envelope(e: EnvelopeModel)
    requires
        e.wf(),
    ensures
        dec_envelope(enc_envelope(e)) == Some(e),
{
    let s = enc_envelope(e);
    let tail1 = e.name + (enc_u32(e.params.len() as u32) + enc_values(e.params));
    assert(s =~= enc_u32(e.name.len() as u32) + tail1);
    lemma_dec_enc_u32(e.name.len() as u32, tail1);
    assert((e.name.len() as u32) as int == e.name.len() as int);
    assert(tail1.take(e.name.len() as int) =~= e.name);
    assert(tail1.skip(e.name.len() as int) =~= enc_u32(e.params.len() as u32) + enc_values(
        e.params,
    ));
    lemma_dec_enc_u32(e.params.len() as u32, enc_values(e.params));
    assert((e.params.len() as u32) as nat == e.params.len());
    lemma_dec_enc_values(e.params, Seq::empty());
    assert(enc_values(e.params) + Seq::<u8>::empty() =~= enc_values(e.params));
}

/// Round trip for responses: decoding an encoding yields the original.
pub proof fn lemma_round_trip_response(r: ResponseModel)
    requires
        r.wf(),
    ensures
        dec_response(enc_response(r)) == Some(r),
{
    let s = enc_response(r);
    match r {
        ResponseModel::Value(v) => {
            assert(s[0] == 1u8);
            assert(s.skip(1) =~= enc_value(v) + Seq::<u8>::empty());
            lemma_dec_enc_value(v, Seq::empty());
            assert(s.len() >= 2) by {
                assert(enc_value(v).len() >= 1);
            };
        },
        ResponseModel::Error { not_found, message } => {
            assert(s[0] == 0u8);
            assert(s[1] == (if not_found {
                1u8
            } else {
                0u8
            }));
            assert(s.skip(2) =~= enc_u32(message.len() as u32) + message);
            lemma_dec_enc_u32(message.len() as u32, message);
            assert((message.len() as u32) as nat == message.len());
        },
    }
}

// ---------------------------------------------------------------------------
// Executable decoder.
// ---------------------------------------------------------------------------

/// Read a `u32` at `pos`; `None` when fewer than four bytes remain.
pub fn read_u32(bytes: &[u8], pos: usize) -> (r: Option<(u32, usize)>)
    requires
        pos <= bytes@.len(),
    ensures
        match r {
            Some(p) => {
                &&& dec_u32(bytes@.skip(pos as int)) == Some((p.0, bytes@.skip(p.1 as int)))
                &&& p.1 == pos + 4
            },
            None => dec_u32(bytes@.skip(pos as int)) is None,
        },
{
    if bytes.len() - pos < 4 {
        return None;
    }
    let b0 = bytes[pos] as u32;
    let b1 = bytes[pos + 1] as u32;
    let b2 = bytes[pos + 2] as u32;
    let b3 = bytes[pos + 3] as u32;
    let n = b0 | (b1 << 8) | (b2 << 16) | (b3 << 24);
    proof {
        let s = bytes@.skip(pos as int);
        assert(s[0] == bytes@[pos as int]);
        assert(s[1] == bytes@[pos + 1 as int]);
        assert(s[2] == bytes@[pos + 2 as int]);
        assert(s[3] == bytes@[pos + 3 as int]);
        assert(s.skip(4) =~= bytes@.skip(pos + 4 as int));
    }
    Some((n, pos + 4))
}

/// Read one typed value at `pos`; `None` on a short or ill-formed input.
pub fn read_value(bytes: &[u8], pos: usize) -> (r: Option<(TypedValue, usize)>)
    requires
        pos <= bytes@.len(),
    ensures
        match r {
            Some(p) => {
                &&& dec_value(bytes@.skip(pos as int)) == Some(
                    (p.0.model(), bytes@.skip(p.1 as int)),
                )
                &&& pos < p.1 <= bytes@.len()
            },
            None => dec_value(bytes@.skip(pos as int)) is None,
        },
{
    if pos >= bytes.len() {
        return None;
    }
    let tag = bytes[pos];
    proof {
        assert(bytes@.skip(pos as int)[0] == bytes@[pos as int]);
        assert(bytes@.skip(pos as int).skip(1) =~= bytes@.skip(pos + 1 as int));
    }
    if tag == 0 {
        match read_u32(bytes, pos + 1) {
            Some((w, p2)) => Some((TypedValue::Int32(w as i32), p2)),
            None => None,
        }
    } else if tag == 1 || tag == 2 {
        match read_u32(bytes, pos + 1) {
            Some((len, p2)) => {
                if len as usize <= bytes.len() - p2 {
                    let end = p2 + len as usize;
                    let payload = slice_to_vec(slice_subrange(bytes, p2, end));
                    proof {
                        let r = bytes@.skip(p2 as int);
                        assert(r.take(len as int) =~= bytes@.subrange(p2 as int, end as int));
                        assert(r.skip(len as int) =~= bytes@.skip(end as int));
                    }
                    if tag == 1 {
                        Some((TypedValue::Str(payload), end))
                    } else {
                        Some((TypedValue::Bytes(payload), end))
                    }
                } else {
                    None
                }
            },
            None => None,
        }
    } else {
        None
    }
}

/// Decode a whole call envelope; `None` on any ill-formed input, including
/// trailing bytes.
#[verifier::loop_isolation(false)]
pub fn decode_envelope(bytes: &[u8]) -> (r: Option<CallEnvelope>)
    ensures
        match r {
            Some(e) => dec_envelope(bytes@) == Some(e.model()),
            None => dec_envelope(bytes@) is None,
        },
{
    proof {
        assert(bytes@.skip(0) =~= bytes@);
    }
    let (name_len, p1) = match read_u32(bytes, 0) {
        Some(x) => x,
        None => {
            return None;
        },
    };
    if name_len as usize > bytes.len() - p1 {
        return None;
    }
    let name_end = p1 + name_len as usize;
    let name = slice_to_vec(slice_subrange(bytes, p1, name_end));
    proof {
        let r1 = bytes@.skip(p1 as int);
        assert(r1.take(name_len as int) =~= bytes@.subrange(p1 as int, name_end as int));
        assert(r1.skip(name_len as int) =~= bytes@.skip(name_end as int));
    }
    let (count, p2) = match read_u32(bytes, name_end) {
        Some(x) => x,
        None => {
            return None;
        },
    };
    let mut params: Vec<TypedValue> = Vec::new();
    let mut pos: usize = p2;
    let mut k: u32 = 0;
    while k < count
        invariant
            pos <= bytes@.len(),
            k <= count,
            params@.len() == k,
            ({
                let whole = dec_values(count as nat, bytes@.skip(p2 as int));
                let tail = dec_values((count - k) as nat, bytes@.skip(pos as int));
                match tail {
                    Some(t) => whole == Some((models_of(params@) + t.0, t.1)),
                    None => whole is None,
                }
            }),
        decreases count - k,
    {
        match read_value(bytes, pos) {
            Some((v, p3)) => {
                proof {
                    let pm = models_of(params@);
                    let tail2 = dec_values((count - k - 1) as nat, bytes@.skip(p3 as int));
                    match tail2 {
                        Some(t2) => {
                            assert(pm + (seq![v.model()] + t2.0) =~= pm.push(v.model()) + t2.0);
                            assert(models_of(params@.push(v)) =~= pm.push(v.model()));
                        },
                        None => {
                        },
                    }
                }
                params.push(v);
                pos = p3;
                k = k + 1;
            },
            None => {
                return None;
            },
        }
    }
    if pos != bytes.len() {
        proof {
            assert(bytes@.skip(pos as int).len() != 0);
        }
        return None;
    }
    proof {
        assert(dec_values((count - count) as nat, bytes@.skip(pos as int)) == Some(
            (Seq::<ValueModel>::empty(), bytes@.skip(pos as int)),
        ));
        assert(models_of(params@) + Seq::<ValueModel>::empty() =~= models_of(params@));
        assert(bytes@.skip(pos as int).len() == 0);
    }
    Some(CallEnvelope { name, params })
}

/// Decode a whole response; `None` on any ill-formed input, including
/// trailing bytes.
pub fn decode_response(bytes: &[u8]) -> (r: Option<Response>)
    ensures
        match r {
            Some(resp) => dec_response(bytes@) == Some(resp.model()),
            None => dec_response(bytes@) is None,
        },
{
    if bytes.len() < 2 {
        return None;
    }
    let flag = bytes[0];
    proof {
        assert(bytes@.skip(1).len() == bytes@.len() - 1);
    }
    if flag == 1 {
        match read_value(bytes, 1) {
            Some((v, p2)) => {
                if p2 == bytes.len() {
                    proof {
                        assert(bytes@.skip(1) =~= bytes@.skip(1int));
                        assert(bytes@.skip(p2 as int).len() == 0);
                    }
                    Some(Response::Value(v))
                } else {
                    proof {
                        assert(bytes@.skip(p2 as int).len() != 0);
                    }
                    None
                }
            },
            None => None,
        }
    } else if flag == 0 && (bytes[1] == 0 || bytes[1] == 1) {
        let not_found = bytes[1] == 1;
        match read_u32(bytes, 2) {
            Some((len, p2)) => {
                if len as usize == bytes.len() - p2 {
                    let message = slice_to_vec(slice_subrange(bytes, p2, bytes.len()));
                    proof {
                        assert(bytes@.skip(2) =~= bytes@.skip(2int));
                        assert(bytes@.skip(p2 as int) =~= bytes@.subrange(
                            p2 as int,
                            bytes@.len() as int,
                        ));
                    }
                    Some(Response::Error { not_found, message })
                } else {
                    None
                }
            },
            None => None,
        }
    } else {
        None
    }
}

} // verus!
