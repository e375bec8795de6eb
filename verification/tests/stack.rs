use holochain_tracing::span::HSpan;
use holochain_tracing::stack::handle_empty_stack;
use holochain_tracing::stack::is_empty;
use holochain_tracing::stack::push_span;
use holochain_tracing::stack::push_span_with;
use holochain_tracing::stack::top_follower;
use holochain_tracing::stack::with_top;
use holochain_tracing::stack::with_top_or_null;
use holochain_tracing::stack::EmptyStackAction;
use holochain_tracing::stack::Mode;
use holochain_tracing::stack::SpanStack;
use holochain_tracing::stack::SpanStackGuard;
use holochain_tracing::stack::MODE;
use holochain_tracing::tracer_console::new_tracer_with_console_reporter;

#[test]
fn test_push() {
    let mut stack = SpanStack::new();
    assert_eq!(stack.len(), 0);
    {
        let g0 = push_span(&mut stack, HSpan::noop());
        assert_eq!(stack.len(), 1);
        {
            let g1 = push_span_with(&mut stack, |s| s.child("1"));
            assert_eq!(stack.len(), 2);
            {
                let g2 = push_span_with(&mut stack, |s| s.child("2"));
                assert_eq!(stack.len(), 3);
                g2.unwrap().release(&mut stack);
            }
            assert_eq!(stack.len(), 2);
            g1.unwrap().release(&mut stack);
        }
        assert_eq!(stack.len(), 1);
        g0.release(&mut stack);
    }
    assert_eq!(stack.len(), 0);
}

#[test]
fn test_weird_drops() {
    let mut stack = SpanStack::new();
    assert_eq!(stack.len(), 0);
    {
        let g0 = push_span(&mut stack, HSpan::noop());
        assert_eq!(stack.len(), 1);
        {
            let g1 = push_span_with(&mut stack, |s| s.child("1"));
            assert_eq!(stack.len(), 2);
            {
                let g2 = push_span_with(&mut stack, |s| s.child("2"));
                assert_eq!(stack.len(), 3);
                {
                    let g3 = push_span_with(&mut stack, |s| s.child("3"));
                    assert_eq!(stack.len(), 4);
                    g0.release(&mut stack);
                    assert_eq!(stack.len(), 4);
                    g2.unwrap().release(&mut stack);
                    assert_eq!(stack.len(), 4);
                    g3.unwrap().release(&mut stack);
                }
            }
            assert_eq!(stack.len(), 2);
            g1.unwrap().release(&mut stack);
        }
        assert_eq!(stack.len(), 0);
    }
    assert_eq!(stack.len(), 0);
}

fn push_four(stack: &mut SpanStack) -> Vec<SpanStackGuard> {
    let mut guards = Vec::new();
    for _ in 0..4 {
        guards.push(push_span(stack, HSpan::noop()));
    }
    guards
}

#[test]
fn indices_are_handed_out_in_order() {
    let mut stack = SpanStack::new();
    let guards = push_four(&mut stack);
    assert_eq!(guards[0].index(), 0);
    assert_eq!(guards[1].index(), 1);
    assert_eq!(guards[2].index(), 2);
    assert_eq!(guards[3].index(), 3);
    assert_eq!(stack.len(), 4);
    assert_eq!(stack.live_length(), 4);
}

#[test]
fn release_out_of_order_cascades_to_empty() {
    let mut stack = SpanStack::new();
    push_four(&mut stack);
    stack.prune(0);
    assert_eq!(stack.len(), 4);
    stack.prune(2);
    assert_eq!(stack.len(), 4);
    stack.prune(1);
    assert_eq!(stack.len(), 4);
    stack.prune(3);
    assert_eq!(stack.len(), 0);
    assert!(is_empty(&stack));
}

#[test]
fn release_out_of_order_stops_at_live_index() {
    let mut stack = SpanStack::new();
    push_four(&mut stack);
    stack.prune(0);
    stack.prune(2);
    assert_eq!(stack.len(), 4);
    stack.prune(3);
    assert_eq!(stack.len(), 2);
    stack.prune(1);
    assert_eq!(stack.len(), 0);
}

#[test]
fn releasing_below_the_top_keeps_the_length() {
    let mut stack = SpanStack::new();
    push_four(&mut stack);
    stack.prune(1);
    assert_eq!(stack.len(), 4);
    assert_eq!(stack.live_length(), 4);
}

#[test]
fn releasing_twice_changes_nothing() {
    let mut stack = SpanStack::new();
    push_four(&mut stack);
    stack.prune(3);
    assert_eq!(stack.len(), 3);
    stack.prune(3);
    assert_eq!(stack.len(), 3);
    stack.prune(7);
    assert_eq!(stack.len(), 3);
}

#[test]
fn every_release_order_of_three_ends_empty() {
    let orders: Vec<Vec<usize>> = vec![
        vec![0, 1, 2],
        vec![0, 2, 1],
        vec![1, 0, 2],
        vec![1, 2, 0],
        vec![2, 0, 1],
        vec![2, 1, 0],
    ];
    for order in orders {
        let mut stack = SpanStack::new();
        for _ in 0..3 {
            push_span(&mut stack, HSpan::noop());
        }
        let mut live = vec![true, true, true];
        for index in order {
            stack.prune(index);
            live[index] = false;
            let expected = live.iter().rposition(|l| *l).map(|i| i + 1).unwrap_or(0);
            assert_eq!(stack.len(), expected);
        }
        assert_eq!(stack.len(), 0);
    }
}

#[test]
fn index_is_reused_after_the_stack_shrank() {
    let mut stack = SpanStack::new();
    let g0 = push_span(&mut stack, HSpan::noop());
    let g1 = push_span(&mut stack, HSpan::noop());
    g1.release(&mut stack);
    let again = push_span(&mut stack, HSpan::noop());
    assert_eq!(again.index(), 1);
    again.release(&mut stack);
    g0.release(&mut stack);
    assert!(stack.is_empty());
}

#[test]
fn empty_stack_gives_no_top() {
    let mut stack = SpanStack::new();
    assert!(is_empty(&stack));
    assert!(stack.top().is_none());
    assert!(stack.peek().is_none());
    assert_eq!(with_top(&mut stack, |_s| 5), None);
    assert!(push_span_with(&mut stack, |s| s.child("x")).is_none());
    assert_eq!(stack.len(), 0);
}

#[test]
fn with_top_applies_to_the_top() {
    let (tracer, mut reporter) = new_tracer_with_console_reporter();
    let mut stack = SpanStack::new();
    let root: HSpan = tracer.span("root").start().into();
    let root_id = root.context().unwrap().span_id;
    let g0 = push_span(&mut stack, root);
    let seen = with_top(&mut stack, |s| s.context().unwrap().span_id);
    assert_eq!(seen, Some(root_id));
    let g1 = push_span_with(&mut stack, |s| s.child("inner")).unwrap();
    let inner_id = with_top(&mut stack, |s| s.context().unwrap().span_id).unwrap();
    assert_ne!(inner_id, root_id);
    assert_eq!(with_top(&mut stack, |s| s.event("seen")), Some(()));
    g1.release(&mut stack);
    assert_eq!(with_top_or_null(&mut stack, |s| s.context().unwrap().span_id), root_id);
    g0.release(&mut stack);
    assert_eq!(reporter.drain(), 2);
}

#[test]
fn with_top_or_null_uses_a_silent_span() {
    let mut stack = SpanStack::new();
    let has_context = with_top_or_null(&mut stack, |s| s.context().is_some());
    assert!(!has_context);
    assert!(stack.is_empty());
    assert!(top_follower(&stack, "next").context().is_none());
}

#[test]
fn top_follower_follows_the_top() {
    let (tracer, mut reporter) = new_tracer_with_console_reporter();
    let mut stack = SpanStack::new();
    let root: HSpan = tracer.span("root").start().into();
    let trace_id = root.context().unwrap().trace_id;
    let g0 = push_span(&mut stack, root);
    let follower = top_follower(&stack, "next");
    assert_eq!(follower.context().unwrap().trace_id, trace_id);
    assert_eq!(stack.len(), 1);
    drop(follower);
    g0.release(&mut stack);
    assert_eq!(reporter.drain(), 2);
    let lines = reporter.print(false);
    assert_eq!(lines, vec!["[root] ".to_string(), "[next] ".to_string()]);
}

#[test]
fn empty_stack_policy() {
    assert_eq!(MODE, Mode::Noop);
    assert_eq!(handle_empty_stack(Mode::Panic), EmptyStackAction::Abort);
    assert_eq!(handle_empty_stack(Mode::Backtrace), EmptyStackAction::Warn);
    assert_eq!(handle_empty_stack(Mode::Noop), EmptyStackAction::Ignore);
}
