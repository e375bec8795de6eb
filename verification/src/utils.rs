//! Continuing a trace from a wrap, and wrapping data for the way out.

use crate::span::HSpan;
use crate::span_context::wire_context;
use crate::span_context::EncodedSpanContext;
use crate::span_context::HSpanContext;
use crate::span_wrap::SpanWrap;
use crate::stack::push_span;
use crate::stack::SpanStack;
use crate::stack::SpanStackGuard;
use crate::stack::StackView;
use vstd::prelude::*;

verus! {

/// The stack `after` is `before` with one more span on top, under the next
/// index.
pub open spec fn one_pushed(before: StackView, after: StackView) -> bool {
    &&& after.live == before.live.insert(before.next_index())
    &&& after.spans.len() == before.spans.len() + 1
    &&& after.spans.drop_last() == before.spans
}

/// Adds a span to the stack that follows from the context of `span_wrap`,
/// and belongs to its trace if it is sampled. Without a tracer or without a
/// context nothing is pushed.
pub fn follow<T>(
    stack: &mut SpanStack,
    tracer: &Option<rustracing_jaeger::Tracer>,
    span_wrap: &SpanWrap<T>,
    name: String,
) -> (res: Option<SpanStackGuard>)
    requires
        old(stack).wf(),
        old(stack)@.spans.len() < usize::MAX,
    ensures
        final(stack).wf(),
        res is Some <==> tracer is Some && span_wrap.span_context is Some,
        res is None ==> final(stack)@ == old(stack)@,
        res matches Some(guard) ==> guard.spec_index() == old(stack)@.next_index() && one_pushed(
            old(stack)@,
            final(stack)@,
        ),
        res is Some ==> (final(stack)@.spans.last().context() matches Some(c) ==> c.trace_id
            == span_wrap.span_context->0.trace_id),
{
    match tracer {
        Some(t) => match &span_wrap.span_context {
            Some(c) => {
                let span = c.follower(t, name);
                let guard = push_span(stack, span);
                assert(stack@.spans.drop_last() =~= old(stack)@.spans);
                Some(guard)
            },
            None => None,
        },
        None => None,
    }
}

/// Adds a span to the stack that follows from the context whose binary form
/// is `span_context`.
pub fn follow_encoded(
    stack: &mut SpanStack,
    tracer: &Option<rustracing_jaeger::Tracer>,
    span_context: &EncodedSpanContext,
    name: String,
) -> (res: Option<SpanStackGuard>)
    requires
        old(stack).wf(),
        old(stack)@.spans.len() < usize::MAX,
    ensures
        final(stack).wf(),
        res is Some <==> tracer is Some && wire_context(span_context@) is Ok,
        res is None ==> final(stack)@ == old(stack)@,
        res matches Some(guard) ==> guard.spec_index() == old(stack)@.next_index() && one_pushed(
            old(stack)@,
            final(stack)@,
        ),
        res is Some ==> (final(stack)@.spans.last().context() matches Some(c) ==> c.trace_id
            == wire_context(span_context@)->Ok_0.trace_id),
{
    follow_encoded_tag_inner(stack, tracer, span_context, name, None)
}

/// Adds a span with `tag` to the stack that follows from the context whose
/// binary form is `span_context`.
pub fn follow_encoded_tag(
    stack: &mut SpanStack,
    tracer: &Option<rustracing_jaeger::Tracer>,
    span_context: &EncodedSpanContext,
    name: String,
    tag: rustracing::tag::Tag,
) -> (res: Option<SpanStackGuard>)
    requires
        old(stack).wf(),
        old(stack)@.spans.len() < usize::MAX,
    ensures
        final(stack).wf(),
        res is Some <==> tracer is Some && wire_context(span_context@) is Ok,
        res is None ==> final(stack)@ == old(stack)@,
        res matches Some(guard) ==> guard.spec_index() == old(stack)@.next_index() && one_pushed(
            old(stack)@,
            final(stack)@,
        ),
        res is Some ==> (final(stack)@.spans.last().context() matches Some(c) ==> c.trace_id
            == wire_context(span_context@)->Ok_0.trace_id),
{
    follow_encoded_tag_inner(stack, tracer, span_context, name, Some(tag))
}

/// Decodes `span_context` and pushes a follower of it, with `tag` where
/// there is one. Without a tracer, or where the bytes are not the binary
/// form of a context, nothing is pushed.
pub fn follow_encoded_tag_inner(
    stack: &mut SpanStack,
    tracer: &Option<rustracing_jaeger::Tracer>,
    span_context: &EncodedSpanContext,
    name: String,
    tag: Option<rustracing::tag::Tag>,
) -> (res: Option<SpanStackGuard>)
    requires
        old(stack).wf(),
        old(stack)@.spans.len() < usize::MAX,
    ensures
        final(stack).wf(),
        res is Some <==> tracer is Some && wire_context(span_context@) is Ok,
        res is None ==> final(stack)@ == old(stack)@,
        res matches Some(guard) ==> guard.spec_index() == old(stack)@.next_index() && one_pushed(
            old(stack)@,
            final(stack)@,
        ),
        res is Some ==> (final(stack)@.spans.last().context() matches Some(c) ==> c.trace_id
            == wire_context(span_context@)->Ok_0.trace_id),
{
    match tracer {
        Some(t) => match HSpanContext::decode(span_context) {
            Ok(c) => {
                let span = c.follower_(t, name, tag);
                let guard = push_span(stack, span);
                assert(stack@.spans.drop_last() =~= old(stack)@.spans);
                Some(guard)
            },
            Err(_) => None,
        },
        None => None,
    }
}

/// Wraps `data` with the context of a new follower of the top of the stack,
/// which belongs to the trace of the top. Where the stack is empty or its
/// top is not sampled, the wrap has no context.
pub fn wrap<T>(stack: &SpanStack, data: T, name: String) -> (res: SpanWrap<T>)
    ensures
        res.data == data,
        res.span_context is Some <==> stack@.spans.len() > 0 && stack@.spans.last().context()
            is Some,
        res.span_context matches Some(c) ==> c.trace_id
            == stack@.spans.last().context()->0.trace_id,
{
    wrap_with_tag_inner(stack, data, name, None)
}

/// Wraps `data` with the context of a new follower of the top of the stack,
/// which gets `tag`.
pub fn wrap_with_tag<T>(stack: &SpanStack, data: T, name: String, tag: rustracing::tag::Tag) -> (res:
    SpanWrap<T>)
    ensures
        res.data == data,
        res.span_context matches Some(c) ==> stack@.spans.len() > 0 && stack@.spans.last().context()
            is Some && c.trace_id == stack@.spans.last().context()->0.trace_id,
{
    wrap_with_tag_inner(stack, data, name, Some(tag))
}

/// Starts a follower of the top of the stack, or of a span that records
/// nothing where the stack is empty, and wraps `data` with its context.
pub fn wrap_with_tag_inner<T>(
    stack: &SpanStack,
    data: T,
    name: String,
    tag: Option<rustracing::tag::Tag>,
) -> (res: SpanWrap<T>)
    ensures
        res.data == data,
        res.span_context matches Some(c) ==> stack@.spans.len() > 0 && stack@.spans.last().context()
            is Some && c.trace_id == stack@.spans.last().context()->0.trace_id,
        tag is None && stack@.spans.len() > 0 && stack@.spans.last().context() is Some
            ==> res.span_context is Some,
{
    let child: HSpan = match stack.peek() {
        Some(top) => top.follower_(name, tag),
        None => HSpan::noop().follower_(name, tag),
    };
    child.wrap(data)
}

} // verus!
