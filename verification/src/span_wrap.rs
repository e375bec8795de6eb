//! A payload coupled with the span context it travels with.
//!
//! `SpanWrap` holds the context as a value, for use within a process;
//! `EncodedSpanWrap` holds its binary form, for the wire. Going from one to
//! the other never loses the payload: a context that cannot be encoded or
//! decoded is dropped, and the trace ends there.

use crate::span::HSpan;
use crate::span_context::wire_bytes;
use crate::span_context::wire_context;
use crate::span_context::EncodedSpanContext;
use crate::span_context::HSpanContext;
use std::borrow::Cow;
use vstd::prelude::*;

verus! {

/// Some data along with a span context. It is common to send data on a
/// channel to be used on the receiving side, where the trace is to go on.
pub struct SpanWrap<T> {
    pub data: T,
    pub span_context: Option<HSpanContext>,
}

impl<T> SpanWrap<T> {
    pub fn new(data: T, span_context: Option<HSpanContext>) -> (res: Self)
        ensures
            res.data == data,
            res.span_context == span_context,
    {
        Self { data, span_context }
    }

    /// A follower span of the context, where there is one.
    pub fn follower<S: Into<Cow<'static, str>>>(
        &self,
        tracer: &rustracing_jaeger::Tracer,
        operation_name: S,
    ) -> (res: Option<HSpan>)
        ensures
            res is Some <==> self.span_context is Some,
            res matches Some(span) ==> (span.context() matches Some(c) ==> c.trace_id
                == self.span_context->0.trace_id),
    {
        match &self.span_context {
            Some(context) => Some(context.follower(tracer, operation_name)),
            None => None,
        }
    }

    /// A follower span of the context, which belongs to its trace if it is
    /// sampled, or a span that records nothing where there is no context.
    pub fn follower_or_null<S: Into<Cow<'static, str>>>(
        &self,
        tracer: &rustracing_jaeger::Tracer,
        operation_name: S,
    ) -> (res: HSpan)
        ensures
            self.span_context is None ==> res.context() is None,
            res.context() matches Some(c) ==> self.span_context matches Some(from) && c.trace_id
                == from.trace_id,
    {
        match self.follower(tracer, operation_name) {
            Some(span) => span,
            None => HSpan::noop().follower("noop"),
        }
    }

    /// A follower span of the context, with `tag` where there is one.
    pub fn follower_<S: Into<Cow<'static, str>>>(
        &self,
        tracer: &rustracing_jaeger::Tracer,
        operation_name: S,
        tag: Option<rustracing::tag::Tag>,
    ) -> (res: Option<HSpan>)
        ensures
            res is Some <==> self.span_context is Some,
            res matches Some(span) ==> (span.context() matches Some(c) ==> c.trace_id
                == self.span_context->0.trace_id),
    {
        match &self.span_context {
            Some(context) => Some(context.follower_(tracer, operation_name, tag)),
            None => None,
        }
    }

    /// Maps the data to a new value and keeps the span context.
    pub fn map<F: FnOnce(T) -> U, U>(self, f: F) -> (res: SpanWrap<U>)
        requires
            call_requires(f, (self.data,)),
        ensures
            call_ensures(f, (self.data,), res.data),
            res.span_context == self.span_context,
    {
        SpanWrap { data: f(self.data), span_context: self.span_context }
    }

    /// The same data with the binary form of the context.
    pub fn encoded(self) -> (res: EncodedSpanWrap<T>)
        ensures
            res.data == self.data,
            res.span_context is Some <==> self.span_context is Some,
            self.span_context matches Some(c) ==> res.span_context->0@ == wire_bytes(c),
    {
        let span_context = match self.span_context {
            Some(c) => match c.encode() {
                Ok(enc) => Some(enc),
                Err(_) => None,
            },
            None => None,
        };
        EncodedSpanWrap { data: self.data, span_context }
    }
}

/// Some data along with the binary form of a span context.
pub struct EncodedSpanWrap<T> {
    pub data: T,
    pub span_context: Option<EncodedSpanContext>,
}

impl<T> EncodedSpanWrap<T> {
    /// Maps the data to a new value and keeps the span context.
    pub fn map<F: FnOnce(T) -> U, U>(self, f: F) -> (res: EncodedSpanWrap<U>)
        requires
            call_requires(f, (self.data,)),
        ensures
            call_ensures(f, (self.data,), res.data),
            res.span_context == self.span_context,
    {
        EncodedSpanWrap { data: f(self.data), span_context: self.span_context }
    }

    /// A new wrap with `data` and a copy of the context.
    pub fn swapped<U>(&self, data: U) -> (res: EncodedSpanWrap<U>)
        ensures
            res.data == data,
            res.span_context is Some <==> self.span_context is Some,
            self.span_context matches Some(enc) ==> res.span_context->0@ == enc@,
    {
        let span_context = match &self.span_context {
            Some(enc) => Some(enc.clone()),
            None => None,
        };
        EncodedSpanWrap { data, span_context }
    }

    /// The same data with the context that the binary form stands for. A
    /// block of bytes that is not the binary form of a context is dropped.
    pub fn decoded(self) -> (res: SpanWrap<T>)
        ensures
            res.data == self.data,
            res.span_context == match self.span_context {
                Some(enc) => match wire_context(enc@) {
                    Ok(c) => Some(c),
                    Err(_) => None,
                },
                None => None,
            },
    {
        let span_context = match &self.span_context {
            Some(enc) => match HSpanContext::decode(enc) {
                Ok(c) => Some(c),
                Err(_) => None,
            },
            None => None,
        };
        SpanWrap { data: self.data, span_context }
    }
}

impl<T> From<SpanWrap<T>> for EncodedSpanWrap<T> {
    fn from(sw: SpanWrap<T>) -> (res: EncodedSpanWrap<T>)
        ensures
            res.data == sw.data,
            res.span_context is Some <==> sw.span_context is Some,
            sw.span_context matches Some(c) ==> res.span_context->0@ == wire_bytes(c),
    {
        sw.encoded()
    }
}

impl<T> vstd::std_specs::convert::FromSpecImpl<SpanWrap<T>> for EncodedSpanWrap<T> {
    open spec fn obeys_from_spec() -> bool {
        false
    }

    open spec fn from_spec(sw: SpanWrap<T>) -> EncodedSpanWrap<T> {
        EncodedSpanWrap { data: sw.data, span_context: None }
    }
}

impl<T> From<EncodedSpanWrap<T>> for SpanWrap<T> {
    fn from(swe: EncodedSpanWrap<T>) -> (res: SpanWrap<T>)
        ensures
            res.data == swe.data,
            res.span_context == match swe.span_context {
                Some(enc) => match wire_context(enc@) {
                    Ok(c) => Some(c),
                    Err(_) => None,
                },
                None => None,
            },
    {
        swe.decoded()
    }
}

impl<T> vstd::std_specs::convert::FromSpecImpl<EncodedSpanWrap<T>> for SpanWrap<T> {
    open spec fn obeys_from_spec() -> bool {
        true
    }

    open spec fn from_spec(swe: EncodedSpanWrap<T>) -> SpanWrap<T> {
        SpanWrap {
            data: swe.data,
            span_context: match swe.span_context {
                Some(enc) => match wire_context(enc@) {
                    Ok(c) => Some(c),
                    Err(_) => None,
                },
                None => None,
            },
        }
    }
}

} // verus!
