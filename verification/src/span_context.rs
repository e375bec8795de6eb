//! The span context and its binary form.
//!
//! A context crosses a process boundary as a block of 37 bytes, laid out as
//! the Jaeger binary carrier has it: the trace id (high half, then low half),
//! the span id, the obsolete parent span id, one byte of flags and the number
//! of baggage items, every integer in big-endian order.

use crate::span::start_follower;
use crate::span::HSpan;
use crate::span_wrap::SpanWrap;
use std::borrow::Cow;
use vstd::prelude::*;

verus! {

/// The binary form of a span context.
pub type EncodedSpanContext = Vec<u8>;

/// The length of the binary form of a span context.
pub const ENCODED_LEN: usize = 37;

/// The flag that marks a context as sampled. It is the only flag that a
/// context of this library carries.
pub const FLAG_SAMPLED: u8 = 1;

/// The 128-bit identifier of a trace.
#[derive(Clone, Copy, Debug, PartialEq, Eq, Structural)]
pub struct TraceId {
    pub high: u64,
    pub low: u64,
}

/// The trace id whose 128 bits are `value`.
pub open spec fn trace_id_of(value: u128) -> TraceId {
    TraceId { high: (value >> 64) as u64, low: (value & 0xffff_ffff_ffff_ffff) as u64 }
}

impl TraceId {
    /// The 128 bits of this trace id as one integer.
    pub open spec fn value(self) -> u128 {
        (self.high as u128) << 64 | (self.low as u128)
    }

    /// The trace id whose 128 bits are `value`: the high half and the low
    /// half.
    pub fn from_u128(value: u128) -> (res: TraceId)
        ensures
            res == trace_id_of(value),
            res.value() == value,
    {
        let high = (value >> 64) as u64;
        let low = (value & 0xffff_ffff_ffff_ffff) as u64;
        assert(((((value >> 64) as u64) as u128) << 64) | (((value & 0xffff_ffff_ffff_ffff) as u64)
            as u128) == value) by (bit_vector);
        TraceId { high, low }
    }

    /// The 128 bits of this trace id as one integer.
    pub fn to_u128(&self) -> (res: u128)
        ensures
            res == self.value(),
            trace_id_of(res) == *self,
    {
        let high = self.high;
        let low = self.low;
        assert((((((high as u128) << 64) | (low as u128)) >> 64) as u64) == high) by (bit_vector);
        assert((((((high as u128) << 64) | (low as u128)) & 0xffff_ffff_ffff_ffff) as u64) == low)
            by (bit_vector);
        ((high as u128) << 64) | (low as u128)
    }
}

/// What is needed to continue a trace elsewhere: the trace and the span that
/// the continuation follows from.
#[derive(Clone, Copy, Debug, PartialEq, Eq, Structural)]
pub struct HSpanContext {
    pub trace_id: TraceId,
    pub span_id: u64,
}

/// Why a context could not be put into its binary form.
#[derive(Clone, Copy, Debug, PartialEq, Eq, Structural)]
pub enum EncodeError {
    /// The backend refused to write the context.
    Carrier,
}

/// Why a block of bytes is not the binary form of a context.
#[derive(Clone, Copy, Debug, PartialEq, Eq, Structural)]
pub enum DecodeError {
    /// The block is shorter or longer than 37 bytes.
    Length,
    /// The block announces baggage items, which it has no room for.
    Baggage,
    /// The flags are not those of a sampled context without debug mark.
    Flags,
    /// The backend refused to read the block.
    Carrier,
}

/// The error type of the tracing backend.
#[verifier::external_type_specification]
#[verifier::external_body]
pub struct ExBackendError(rustracing::Error);

/// The eight bytes of `v`, most significant first.
pub open spec fn be_bytes(v: u64) -> Seq<u8> {
    seq![
        ((v >> 56) & 0xff) as u8,
        ((v >> 48) & 0xff) as u8,
        ((v >> 40) & 0xff) as u8,
        ((v >> 32) & 0xff) as u8,
        ((v >> 24) & 0xff) as u8,
        ((v >> 16) & 0xff) as u8,
        ((v >> 8) & 0xff) as u8,
        (v & 0xff) as u8,
    ]
}

/// The integer whose big-endian bytes are the eight bytes of `b` from `at` on.
pub open spec fn be_value(b: Seq<u8>, at: int) -> u64 {
    (b[at] as u64) << 56 | (b[at + 1] as u64) << 48 | (b[at + 2] as u64) << 40 | (b[at + 3] as u64)
        << 32 | (b[at + 4] as u64) << 24 | (b[at + 5] as u64) << 16 | (b[at + 6] as u64) << 8 | (
    b[at + 7] as u64)
}

/// The binary form of `context`.
pub open spec fn wire_bytes(context: HSpanContext) -> Seq<u8> {
    be_bytes(context.trace_id.high) + be_bytes(context.trace_id.low) + be_bytes(context.span_id)
        + be_bytes(0) + seq![FLAG_SAMPLED] + seq![0u8, 0u8, 0u8, 0u8]
}

/// The context that `enc` is the binary form of, or why it is none.
pub open spec fn wire_context(enc: Seq<u8>) -> Result<HSpanContext, DecodeError> {
    if enc.len() != ENCODED_LEN {
        Err(DecodeError::Length)
    } else if enc[33] != 0 || enc[34] != 0 || enc[35] != 0 || enc[36] != 0 {
        Err(DecodeError::Baggage)
    } else if enc[32] != FLAG_SAMPLED {
        Err(DecodeError::Flags)
    } else {
        Ok(
            HSpanContext {
                trace_id: TraceId { high: be_value(enc, 0), low: be_value(enc, 8) },
                span_id: be_value(enc, 16),
            },
        )
    }
}

/// What the backend reads from a block of bytes.
pub struct WireFields {
    pub trace_id_high: u64,
    pub trace_id_low: u64,
    pub span_id: u64,
    pub flags: u8,
}

/// `SpanContextState::inject_to_binary` of `rustracing_jaeger`, on a context
/// built from the given identifiers and a fresh buffer of 37 bytes. The
/// backend writes the identifiers in big-endian order, zeros for the parent
/// span id, the flags of a sampled context and a baggage count of zero. It
/// fails only where the carrier refuses a write, which a buffer in memory
/// never does.
#[verifier::external_body]
fn inject_to_binary(context: &HSpanContext) -> (res: Result<Vec<u8>, rustracing::Error>)
    ensures
        res is Ok,
        res matches Ok(enc) ==> enc@ == wire_bytes(*context),
{
    let trace_id = rustracing_jaeger::span::TraceId {
        high: context.trace_id.high,
        low: context.trace_id.low,
    };
    let builder = rustracing_jaeger::span::SpanContextStateBuilder::new();
    let state = builder.trace_id(trace_id).span_id(context.span_id).finish();
    let backend_context = rustracing_jaeger::span::SpanContext::new(state, Vec::new());
    let mut enc: Vec<u8> = [0; 37].to_vec();
    let mut slice = &mut enc[..];
    backend_context.inject_to_binary(&mut slice)?;
    Ok(enc)
}

/// `SpanContextState::extract_from_binary` of `rustracing_jaeger`, on a
/// cursor over `enc`. From a block of at least 33 bytes the backend reads the
/// identifiers in big-endian order, skips the parent span id and takes the
/// next byte as the flags. It fails only where the carrier refuses a read,
/// which a buffer in memory never does.
#[verifier::external_body]
fn extract_from_binary(enc: &Vec<u8>) -> (res: Result<WireFields, rustracing::Error>)
    requires
        enc@.len() >= 33,
    ensures
        res is Ok,
        res matches Ok(fields) ==> fields.trace_id_high == be_value(enc@, 0),
        res matches Ok(fields) ==> fields.trace_id_low == be_value(enc@, 8),
        res matches Ok(fields) ==> fields.span_id == be_value(enc@, 16),
        res matches Ok(fields) ==> fields.flags == enc@[32],
{
    let mut cursor = std::io::Cursor::new(enc);
    let backend_context = rustracing_jaeger::span::SpanContext::extract_from_binary(&mut cursor);
    backend_context.map(|x| x.unwrap()).map(|c| WireFields {
        trace_id_high: c.state().trace_id().high,
        trace_id_low: c.state().trace_id().low,
        span_id: c.state().span_id(),
        flags: c.state().flags(),
    })
}

impl HSpanContext {
    /// Creates a follower span from this context, which belongs to the trace
    /// of the context if it is sampled. There is no way to create
    /// a child span from a context: the points where a trace crosses
    /// processes are taken to be asynchronous, so that the span of the
    /// context has ended before the new one does.
    pub fn follower<S: Into<Cow<'static, str>>>(
        &self,
        tracer: &rustracing_jaeger::Tracer,
        operation_name: S,
    ) -> (res: HSpan)
        ensures
            res.context() matches Some(c) ==> c.trace_id == self.trace_id,
    {
        start_follower(self, tracer, operation_name, None)
    }

    /// Creates a follower span from this context, with `tag` where there is
    /// one. The span belongs to the trace of the context if it is sampled.
    pub fn follower_<S: Into<Cow<'static, str>>>(
        &self,
        tracer: &rustracing_jaeger::Tracer,
        operation_name: S,
        tag: Option<rustracing::tag::Tag>,
    ) -> (res: HSpan)
        ensures
            res.context() matches Some(c) ==> c.trace_id == self.trace_id,
    {
        start_follower(self, tracer, operation_name, tag)
    }

    /// The binary form of this context, for packing into a message.
    pub fn encode(&self) -> (res: Result<EncodedSpanContext, EncodeError>)
        ensures
            res is Ok,
            res matches Ok(enc) ==> enc@ == wire_bytes(*self),
    {
        match inject_to_binary(self) {
            Ok(enc) => Ok(enc),
            Err(_) => Err(EncodeError::Carrier),
        }
    }

    /// The context that `enc` is the binary form of.
    pub fn decode(enc: &EncodedSpanContext) -> (res: Result<HSpanContext, DecodeError>)
        ensures
            res == wire_context(enc@),
    {
        if enc.len() != ENCODED_LEN {
            return Err(DecodeError::Length);
        }
        if enc[33] != 0 || enc[34] != 0 || enc[35] != 0 || enc[36] != 0 {
            return Err(DecodeError::Baggage);
        }
        match extract_from_binary(enc) {
            Ok(fields) => {
                if fields.flags != FLAG_SAMPLED {
                    Err(DecodeError::Flags)
                } else {
                    Ok(
                        HSpanContext {
                            trace_id: TraceId {
                                high: fields.trace_id_high,
                                low: fields.trace_id_low,
                            },
                            span_id: fields.span_id,
                        },
                    )
                }
            },
            Err(_) => Err(DecodeError::Carrier),
        }
    }

    /// Wraps this context in a `SpanWrap` along with some user data.
    pub fn wrap<T>(self, data: T) -> (res: SpanWrap<T>)
        ensures
            res.data == data,
            res.span_context == Some(self),
    {
        SpanWrap::new(data, Some(self))
    }
}

/// Reading eight bytes back gives the integer they were made from.
pub proof fn lemma_be_value_of_be_bytes(v: u64)
    ensures
        be_value(be_bytes(v), 0) == v,
{
    assert(((((v >> 56) & 0xff) as u8) as u64) << 56 | ((((v >> 48) & 0xff) as u8) as u64) << 48 | (
    (((v >> 40) & 0xff) as u8) as u64) << 40 | ((((v >> 32) & 0xff) as u8) as u64) << 32 | ((((v
        >> 24) & 0xff) as u8) as u64) << 24 | ((((v >> 16) & 0xff) as u8) as u64) << 16 | ((((v
        >> 8) & 0xff) as u8) as u64) << 8 | (((v & 0xff) as u8) as u64) == v) by (bit_vector);
}

/// The round trip: the binary form of a context has 37 bytes, and decoding
/// it gives the context back.
pub proof fn lemma_decode_encode(context: HSpanContext)
    ensures
        wire_bytes(context).len() == ENCODED_LEN,
        wire_context(wire_bytes(context)) == Ok::<HSpanContext, DecodeError>(context),
{
    let enc = wire_bytes(context);
    lemma_be_value_of_be_bytes(context.trace_id.high);
    lemma_be_value_of_be_bytes(context.trace_id.low);
    lemma_be_value_of_be_bytes(context.span_id);
    assert(be_value(enc, 0) == be_value(be_bytes(context.trace_id.high), 0));
    assert(be_value(enc, 8) == be_value(be_bytes(context.trace_id.low), 0));
    assert(be_value(enc, 16) == be_value(be_bytes(context.span_id), 0));
}

} // verus!
