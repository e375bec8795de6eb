use holochain_tracing::autotrace::Autotrace;
use holochain_tracing::span::HSpan;
use holochain_tracing::span::null_tracer;
use holochain_tracing::span::test_span;
use holochain_tracing::span_context::HSpanContext;
use holochain_tracing::span_context::TraceId;
use holochain_tracing::span_wrap::SpanWrap;
use holochain_tracing::stack::push_span;
use holochain_tracing::stack::SpanStack;
use holochain_tracing::structured::Output;
use holochain_tracing::tracer_console::new_tracer_with_console_reporter;
use holochain_tracing::utils::follow;
use holochain_tracing::utils::follow_encoded;
use holochain_tracing::utils::follow_encoded_tag;
use holochain_tracing::utils::wrap;
use holochain_tracing::utils::wrap_with_tag;
use std::str::FromStr;

#[test]
fn output_is_read_from_its_name() {
    assert_eq!(Output::from_str("Json"), Ok(Output::Json));
    assert_eq!(Output::from_str("Log"), Ok(Output::Log));
    assert_eq!(Output::from_str("Compact"), Ok(Output::Compact));
    assert_eq!(Output::from_str("None"), Ok(Output::Quiet));
    assert_eq!(Output::parse("Log"), Ok(Output::Log));
    assert_eq!(Output::from_str("json"), Err("Could not parse log output type".to_string()));
    assert_eq!(Output::from_str(""), Err("Could not parse log output type".to_string()));
}

#[test]
fn autotrace_rules() {
    assert!(Autotrace::deep().is_deep());
    assert!(!Autotrace::default().is_deep());
    let at = Autotrace::default();
    let path = |segments: &[&str]| segments.iter().map(|s| s.to_string()).collect::<Vec<String>>();
    assert!(!at.is_no_autotrace(&vec![]));
    assert!(at.is_no_autotrace(&vec![path(&["inline"]), path(&["no_autotrace"])]));
    assert!(at.is_no_autotrace(&vec![path(&["autotrace"])]));
    assert!(!at.is_no_autotrace(&vec![path(&["holochain_tracing_macros", "autotrace"])]));
    assert!(!at.is_no_autotrace(&vec![path(&["inline"]), path(&[])]));
    assert_eq!(
        Autotrace::fn_span_name("c", "crates/tracing_macros/tests/macros.rs:20"),
        "c in crates/tracing_macros/tests/macros.rs:20 (auto:fn)"
    );
    assert_eq!(
        Autotrace::method_span_name("i", "crates/tracing_macros/tests/macros.rs:96"),
        "i in crates/tracing_macros/tests/macros.rs:96 (auto:method)"
    );
}

#[test]
fn silent_spans_have_no_context() {
    assert!(HSpan::noop().context().is_none());
    assert!(HSpan::todo("later").context().is_none());
    assert!(HSpan::fixme().context().is_none());
    assert!(test_span("test").context().is_none());
    assert!(test_span("test").child("c").context().is_none());
    let tracer = null_tracer();
    let span: HSpan = tracer.span("x").start().into();
    assert!(span.context().is_none());
    assert_eq!(test_span("test").wrap(3).data, 3);
    assert_eq!(test_span("test").wrap(3).span_context, None);
}

#[test]
fn span_wrap_carries_the_context_of_the_span() {
    let (tracer, _reporter) = new_tracer_with_console_reporter();
    let span: HSpan = tracer.span("work").start().into();
    let c = span.context().unwrap();
    let wrapped = span.wrap("data");
    assert_eq!(wrapped.data, "data");
    assert_eq!(wrapped.span_context, Some(c));
}

#[test]
fn follow_pushes_a_follower() {
    let (tracer, mut reporter) = new_tracer_with_console_reporter();
    let tracer = Some(tracer);
    let c = HSpanContext { trace_id: TraceId { high: 1, low: 2 }, span_id: 3 };
    let mut stack = SpanStack::new();
    let guard = follow(&mut stack, &tracer, &SpanWrap::new((), Some(c)), "func_name".into());
    assert_eq!(guard.as_ref().map(|g| g.index()), Some(0));
    assert_eq!(stack.len(), 1);
    assert_eq!(stack.peek().unwrap().context().unwrap().trace_id, c.trace_id);
    assert!(follow(&mut stack, &tracer, &SpanWrap::new((), None), "f".into()).is_none());
    assert!(follow(&mut stack, &None, &SpanWrap::new((), Some(c)), "f".into()).is_none());
    assert_eq!(stack.len(), 1);
    guard.unwrap().release(&mut stack);
    assert_eq!(stack.len(), 0);
    assert_eq!(reporter.drain(), 1);
    assert_eq!(reporter.print(false), vec!["[func_name] ".to_string()]);
}

#[test]
fn follow_encoded_needs_a_context_and_a_tracer() {
    let (tracer, mut reporter) = new_tracer_with_console_reporter();
    let tracer = Some(tracer);
    let c = HSpanContext { trace_id: TraceId { high: 1, low: 2 }, span_id: 3 };
    let enc = c.encode().unwrap();
    let mut stack = SpanStack::new();
    let g0 = follow_encoded(&mut stack, &tracer, &enc, "plain".into()).unwrap();
    let tag = holochain_tracing::span::debug_tag("k", 1);
    let g1 = follow_encoded_tag(&mut stack, &tracer, &enc, "tagged".into(), tag).unwrap();
    assert_eq!((g0.index(), g1.index()), (0, 1));
    assert_eq!(stack.len(), 2);
    assert!(follow_encoded(&mut stack, &tracer, &vec![0; 36], "short".into()).is_none());
    assert!(follow_encoded(&mut stack, &None, &enc, "no tracer".into()).is_none());
    assert_eq!(stack.len(), 2);
    g1.release(&mut stack);
    g0.release(&mut stack);
    assert_eq!(reporter.drain(), 2);
    let printed = reporter.print(false);
    assert!(printed.contains(&"[plain] ".to_string()));
    assert!(printed.contains(&"[tagged] {k = String(\"1\")} ".to_string()));
}

#[test]
fn wrap_takes_the_context_of_a_follower_of_the_top() {
    let (tracer, mut reporter) = new_tracer_with_console_reporter();
    let mut stack = SpanStack::new();
    assert_eq!(wrap(&stack, 1, "out".into()).span_context, None);
    let root: HSpan = tracer.span("root").start().into();
    let root_context = root.context().unwrap();
    let guard = push_span(&mut stack, root);
    let wrapped = wrap(&stack, "data", "out".into());
    assert_eq!(wrapped.data, "data");
    let sent = wrapped.span_context.unwrap();
    assert_eq!(sent.trace_id, root_context.trace_id);
    assert_ne!(sent.span_id, root_context.span_id);
    let tag = holochain_tracing::span::debug_tag("k", 1);
    let tagged = wrap_with_tag(&stack, 2, "out_tagged".into(), tag);
    assert_eq!(tagged.data, 2);
    assert_eq!(tagged.span_context.unwrap().trace_id, root_context.trace_id);
    assert_eq!(stack.len(), 1);
    guard.release(&mut stack);
    assert_eq!(reporter.drain(), 3);
}

#[test]
fn children_and_followers_stay_in_the_trace() {
    let (tracer, mut reporter) = new_tracer_with_console_reporter();
    let root: HSpan = tracer.span("root").start().into();
    let root_context = root.context().unwrap();
    let child = root.child("child");
    let follower = root.follower("follower");
    let grand_child = child.child_("grand_child", None);
    let after = follower.follower_("after", Some(holochain_tracing::span::debug_tag("k", 1)));
    for span in [&child, &follower, &grand_child, &after] {
        let c = span.context().unwrap();
        assert_eq!(c.trace_id, root_context.trace_id);
        assert_ne!(c.span_id, root_context.span_id);
    }
    drop((child, follower, grand_child, after, root));
    assert_eq!(reporter.drain(), 5);
}

#[test]
fn a_tag_can_keep_a_span_from_being_sampled() {
    let (tracer, mut reporter) = new_tracer_with_console_reporter();
    let root: HSpan = tracer.span("root").start().into();
    let off = rustracing::tag::StdTag::sampling_priority(0);
    let on = rustracing::tag::StdTag::sampling_priority(1);
    assert!(root.child_("unsampled", Some(off.clone())).context().is_none());
    assert!(root.follower_("unsampled", Some(off)).context().is_none());
    assert!(root.child_("sampled", Some(on.clone())).context().is_some());
    assert!(HSpan::noop().child_("silent", Some(on.clone())).context().is_none());
    assert!(HSpan::noop().follower_("silent", Some(on.clone())).context().is_none());
    let c = HSpanContext { trace_id: TraceId { high: 5, low: 6 }, span_id: 7 };
    let forced = c.follower_(&null_tracer(), "forced", Some(on));
    assert_eq!(forced.context().unwrap().trace_id, c.trace_id);
    assert!(c.follower(&null_tracer(), "silent").context().is_none());
    drop(root);
    assert_eq!(reporter.drain(), 2);
}

#[test]
fn logging_and_tagging_keep_the_context() {
    let (tracer, mut reporter) = new_tracer_with_console_reporter();
    let mut span: HSpan = tracer.span("work").start().into();
    let before = span.context();
    span.event("started");
    span.error("io", "broken");
    span.set_tag(holochain_tracing::span::debug_tag("k", 1));
    assert_eq!(span.context(), before);
    let mut silent = HSpan::noop();
    silent.event("unseen");
    silent.set_tag(holochain_tracing::span::debug_tag("k", 1));
    assert_eq!(silent.context(), None);
    drop(span);
    assert_eq!(reporter.drain(), 1);
    assert_eq!(reporter.print(false)[0], "[work] {k = String(\"1\")} ");
}
