//! The span handle that instrumented code works with.
//!
//! A span belongs to the tracing backend. The library starts spans, hands
//! them on and keeps the context of each beside it. Which span id and start
//! time a span gets is decided by the backend alone; what the library knows
//! is whether a span has a context, and which trace it belongs to.

use crate::span_context::HSpanContext;
use crate::span_context::TraceId;
use crate::span_wrap::SpanWrap;
use std::borrow::Cow;
use vstd::prelude::*;
use vstd::string::StringExecFns;

verus! {

/// A span of the tracing backend, as `rustracing` defines it. Its contents
/// are not visible to the verifier; the library only carries it.
#[verifier::external_type_specification]
#[verifier::external_body]
#[verifier::reject_recursive_types(T)]
pub struct ExSpan<T>(rustracing::span::Span<T>);

/// The Jaeger state (trace id, span id, flags) that a span context carries.
#[verifier::external_type_specification]
#[verifier::external_body]
pub struct ExSpanContextState(rustracing_jaeger::span::SpanContextState);

/// The Jaeger tracer, from which spans are started.
#[verifier::external_type_specification]
#[verifier::external_body]
pub struct ExTracer(rustracing_jaeger::Tracer);

/// A key/value tag on a span.
#[verifier::external_type_specification]
#[verifier::external_body]
pub struct ExTag(rustracing::tag::Tag);

/// The span of the Jaeger backend.
pub type RjSpan = rustracing::span::Span<rustracing_jaeger::span::SpanContextState>;

/// A Jaeger span together with its context. The context is read from the
/// span when the span is made, and a span never changes it.
pub struct HSpan {
    span: RjSpan,
    context: Option<HSpanContext>,
}

impl HSpan {
    /// The context of this span. A span that is not sampled has none.
    pub closed spec fn spec_context(&self) -> Option<HSpanContext> {
        self.context
    }

    /// Logs an event on this span: `Span::log` with the standard `event`
    /// field. The context of the span stays as it is.
    #[verifier::external_body]
    pub fn event<S: Into<Cow<'static, str>>>(&mut self, msg: S)
        ensures
            final(self).spec_context() == old(self).spec_context(),
    {
        self.span.log(|l| {
            l.std().event(msg);
        })
    }

    /// Logs an error on this span: `Span::log` with the standard error
    /// fields, which are the event `error`, its kind and its message. The
    /// context of the span stays as it is.
    #[verifier::external_body]
    pub fn error<S: Into<Cow<'static, str>>>(&mut self, kind: S, msg: S)
        ensures
            final(self).spec_context() == old(self).spec_context(),
    {
        self.span.log(|l| {
            l.error().kind(kind).message(msg);
        })
    }

    /// Sets a tag on this span: `Span::set_tag`. The context of the span
    /// stays as it is.
    #[verifier::external_body]
    pub fn set_tag(&mut self, tag: rustracing::tag::Tag)
        ensures
            final(self).spec_context() == old(self).spec_context(),
    {
        self.span.set_tag(|| tag)
    }

    /// The context of this span: its trace id and span id. A span that is
    /// not sampled has none.
    #[verifier::when_used_as_spec(spec_context)]
    pub fn context(&self) -> (res: Option<HSpanContext>)
        ensures
            res == self.spec_context(),
    {
        self.context
    }

    /// Starts a span that is a child of this one, under a plain operation
    /// name. The child is sampled exactly if this span is, and belongs to
    /// the same trace.
    pub fn child<S: Into<Cow<'static, str>>>(&self, operation_name: S) -> (res: HSpan)
        ensures
            res.context() is Some <==> self.context() is Some,
            res.context() matches Some(c) ==> c.trace_id == self.context()->0.trace_id,
    {
        self.child_(operation_name, None)
    }

    /// Starts a span that follows from this one, under a plain operation
    /// name. The follower is sampled exactly if this span is, and belongs
    /// to the same trace.
    pub fn follower<S: Into<Cow<'static, str>>>(&self, operation_name: S) -> (res: HSpan)
        ensures
            res.context() is Some <==> self.context() is Some,
            res.context() matches Some(c) ==> c.trace_id == self.context()->0.trace_id,
    {
        self.follower_(operation_name, None)
    }

    /// Starts a child of this span, with `tag` where there is one:
    /// `Span::child`, with `StartSpanOptions::tag` and `start`. A span that
    /// is not sampled has no sampled child. The child of a sampled span
    /// takes over its trace id; without a tag it is always sampled, while a
    /// tag may set the sampling priority and so keep it from being sampled.
    #[verifier::external_body]
    pub fn child_<S: Into<Cow<'static, str>>>(
        &self,
        operation_name: S,
        tag: Option<rustracing::tag::Tag>,
    ) -> (res: HSpan)
        ensures
            res.spec_context() is Some ==> self.spec_context() is Some,
            tag is None && self.spec_context() is Some ==> res.spec_context() is Some,
            res.spec_context() matches Some(c) ==> c.trace_id == self.spec_context()->0.trace_id,
    {
        let span = self.span.child(operation_name, |o| match tag {
            Some(tag) => o.tag(tag).start(),
            None => o.start(),
        });
        let context = span.context().map(|c| HSpanContext {
            trace_id: TraceId { high: c.state().trace_id().high, low: c.state().trace_id().low },
            span_id: c.state().span_id(),
        });
        HSpan { span, context }
    }

    /// Starts a follower of this span, with `tag` where there is one:
    /// `Span::follower`, with `StartSpanOptions::tag` and `start`. A span
    /// that is not sampled has no sampled follower. The follower of a
    /// sampled span takes over its trace id; without a tag it is always
    /// sampled, while a tag may set the sampling priority and so keep it
    /// from being sampled.
    #[verifier::external_body]
    pub fn follower_<S: Into<Cow<'static, str>>>(
        &self,
        operation_name: S,
        tag: Option<rustracing::tag::Tag>,
    ) -> (res: HSpan)
        ensures
            res.spec_context() is Some ==> self.spec_context() is Some,
            tag is None && self.spec_context() is Some ==> res.spec_context() is Some,
            res.spec_context() matches Some(c) ==> c.trace_id == self.spec_context()->0.trace_id,
    {
        let span = self.span.follower(operation_name, |o| match tag {
            Some(tag) => o.tag(tag).start(),
            None => o.start(),
        });
        let context = span.context().map(|c| HSpanContext {
            trace_id: TraceId { high: c.state().trace_id().high, low: c.state().trace_id().low },
            span_id: c.state().span_id(),
        });
        HSpan { span, context }
    }

    /// Wraps the context of this span in a `SpanWrap` along with some user
    /// data.
    pub fn wrap<T>(self, data: T) -> (res: SpanWrap<T>)
        ensures
            res.data == data,
            res.span_context == self.context(),
    {
        SpanWrap::new(data, self.context())
    }

    /// A span that records nothing and has no context, for a function that
    /// requires a span where the call is not to be instrumented.
    pub fn noop() -> (res: HSpan)
        ensures
            res.context() is None,
    {
        noop(String::from_str("no-op, intentionally disconnected span"))
    }

    /// Useful for retrofitting existing code with traces. The span records
    /// nothing and has no context, but signals the intent to hook the place
    /// up later, which may take some restructuring of the code around it.
    pub fn todo(reason: &'static str) -> (res: HSpan)
        ensures
            res.context() is None,
    {
        let mut name = String::from_str("TODO: ");
        name.append(reason);
        noop(name)
    }

    /// Like `todo`, where nothing but time is needed to hook the place up.
    pub fn fixme() -> (res: HSpan)
        ensures
            res.context() is None,
    {
        noop(String::from_str("not yet hooked up"))
    }
}

/// Takes a span of the backend into the library: `Span::context`, with the
/// identifiers read from its state; baggage is not taken along. Which
/// identifiers a span has is up to the backend.
#[verifier::external_body]
fn adopt(span: RjSpan) -> (res: HSpan) {
    let context = span.context().map(|c| HSpanContext {
        trace_id: TraceId { high: c.state().trace_id().high, low: c.state().trace_id().low },
        span_id: c.state().span_id(),
    });
    HSpan { span, context }
}

/// `Span::inactive` of the backend: a span that is never traced, and so has
/// no context.
#[verifier::external_body]
fn inactive() -> (res: HSpan)
    ensures
        res.spec_context() is None,
{
    HSpan { span: rustracing::span::Span::inactive(), context: None }
}

impl From<RjSpan> for HSpan {
    fn from(span: RjSpan) -> (res: HSpan) {
        adopt(span)
    }
}

impl vstd::std_specs::convert::FromSpecImpl<RjSpan> for HSpan {
    open spec fn obeys_from_spec() -> bool {
        false
    }

    open spec fn from_spec(span: RjSpan) -> HSpan {
        arbitrary()
    }
}

/// A tracer that samples no span: `Tracer::new` of `rustracing_jaeger` with
/// the `NullSampler`. To be used only as a last resort.
#[verifier::external_body]
pub fn null_tracer() -> (res: rustracing_jaeger::Tracer) {
    rustracing_jaeger::Tracer::new(rustracing::sampler::NullSampler).0
}

/// `Tracer::span` and `StartSpanOptions::start` of the backend: a span of
/// `tracer` with no reference to another. Whether it is sampled is up to
/// the sampler of the tracer.
#[verifier::external_body]
fn start_span(tracer: &rustracing_jaeger::Tracer, name: String) -> (res: HSpan) {
    let span = tracer.span(name).start();
    let context = span.context().map(|c| HSpanContext {
        trace_id: TraceId { high: c.state().trace_id().high, low: c.state().trace_id().low },
        span_id: c.state().span_id(),
    });
    HSpan { span, context }
}

/// `StartSpanOptions::follows_from` and `start` of `rustracing`, on a span
/// that `tracer` begins under `operation_name`, with `tag` set where there is
/// one. Whether the span is sampled is up to the sampler of the tracer and
/// to the tag. A sampled span takes over the trace id of the first span it
/// refers to, which is that of `context`.
#[verifier::external_body]
pub(crate) fn start_follower<S: Into<Cow<'static, str>>>(
    context: &HSpanContext,
    tracer: &rustracing_jaeger::Tracer,
    operation_name: S,
    tag: Option<rustracing::tag::Tag>,
) -> (res: HSpan)
    ensures
        res.spec_context() matches Some(c) ==> c.trace_id == context.trace_id,
{
    let id = rustracing_jaeger::span::TraceId { high: context.trace_id.high, low: context.trace_id.low };
    let builder = rustracing_jaeger::span::SpanContextStateBuilder::new();
    let state = builder.trace_id(id).span_id(context.span_id).finish();
    let from = rustracing_jaeger::span::SpanContext::new(state, Vec::new());
    let options = tracer.span(operation_name).follows_from(&from);
    let span = match tag {
        Some(tag) => options.tag(tag).start(),
        None => options.start(),
    };
    let context = span.context().map(|c| HSpanContext {
        trace_id: TraceId { high: c.state().trace_id().high, low: c.state().trace_id().low },
        span_id: c.state().span_id(),
    });
    HSpan { span, context }
}

/// A span of the null tracer, which records nothing and has no context.
/// Should the tracer have sampled the span after all, an inactive span
/// takes its place.
pub fn noop(name: String) -> (res: HSpan)
    ensures
        res.context() is None,
{
    let tracer = null_tracer();
    let span = start_span(&tracer, name);
    if span.context().is_none() {
        span
    } else {
        inactive()
    }
}

/// A dummy span, for tests that do not test tracing. It records nothing and
/// has no context.
pub fn test_span(name: &str) -> (res: HSpan)
    ensures
        res.context() is None,
{
    noop(String::from_str(name))
}

/// A tag whose value is the debug rendering of `val`: `Tag::new` of the
/// backend on `format!("{:?}", val)`.
#[verifier::external_body]
pub fn debug_tag<N: Into<Cow<'static, str>>, D: std::fmt::Debug>(key: N, val: D) -> (res:
    rustracing::tag::Tag) {
    rustracing::tag::Tag::new(key, format!("{:?}", val))
}

} // verus!
