use holochain_tracing::sort_key::comes_before;
use holochain_tracing::sort_key::insert_sorted;
use holochain_tracing::sort_key::SortKey;
use holochain_tracing::span::HSpan;
use holochain_tracing::span_map::get_span_position;
use holochain_tracing::span_map::get_span_position_within;
use holochain_tracing::span_map::has_reference;
use holochain_tracing::span_map::indentation;
use holochain_tracing::span_map::print_span;
use holochain_tracing::span_map::print_span_at;
use holochain_tracing::span_map::print_span_events;
use holochain_tracing::span_map::print_span_map;
use holochain_tracing::span_map::print_span_stack;
use holochain_tracing::span_map::reference_limit;
use holochain_tracing::span_map::render_tags;
use holochain_tracing::span_map::select;
use holochain_tracing::span_map::select_keys;
use holochain_tracing::span_map::span_ids;
use holochain_tracing::span_map::LogField;
use holochain_tracing::span_map::Selection;
use holochain_tracing::span_map::SpanLog;
use holochain_tracing::span_map::SpanMap;
use holochain_tracing::span_map::SpanRecord;
use holochain_tracing::span_map::SpanReference;
use holochain_tracing::span_map::SpanReference::ChildOf;
use holochain_tracing::span_map::SpanReference::FollowsFrom;
use holochain_tracing::span_map::SpanTag;
use holochain_tracing::tracer_console::absorb;
use holochain_tracing::tracer_console::new_tracer_with_console_reporter;

fn span(span_id: u64, name: &str, start_time: u128, references: Vec<SpanReference>) -> SpanRecord {
    SpanRecord {
        span_id,
        operation_name: name.to_string(),
        start_time,
        references,
        tags: Vec::new(),
        logs: Vec::new(),
    }
}

fn map_of(spans: Vec<SpanRecord>) -> SpanMap {
    let mut map = SpanMap::new();
    for s in spans {
        absorb(&mut map, s);
    }
    map
}

fn three_levels() -> Vec<SpanRecord> {
    vec![
        span(1, "root", 10, vec![]),
        span(2, "mid", 20, vec![ChildOf(1)]),
        span(3, "leaf", 30, vec![ChildOf(2)]),
    ]
}

fn lines(text: &[&str]) -> Vec<String> {
    text.iter().map(|l| l.to_string()).collect()
}

#[test]
fn positions_in_a_chain() {
    let map = map_of(three_levels());
    assert_eq!(get_span_position(&map, 1), Some((0, 0)));
    assert_eq!(get_span_position(&map, 2), Some((1, 0)));
    assert_eq!(get_span_position(&map, 3), Some((2, 0)));
    assert_eq!(get_span_position(&map, 4), None);
}

#[test]
fn followers_keep_the_depth_and_move_along() {
    let map = map_of(vec![
        span(1, "root", 10, vec![]),
        span(2, "child", 20, vec![ChildOf(1)]),
        span(3, "after_child", 30, vec![FollowsFrom(2)]),
        span(4, "after_that", 40, vec![FollowsFrom(3)]),
        span(5, "after_root", 50, vec![FollowsFrom(1)]),
    ]);
    assert_eq!(get_span_position(&map, 3), Some((1, 1)));
    assert_eq!(get_span_position(&map, 4), Some((1, 2)));
    assert_eq!(get_span_position(&map, 5), Some((0, 1)));
}

#[test]
fn the_last_known_reference_decides() {
    let map = map_of(vec![
        span(1, "a", 10, vec![]),
        span(2, "b", 20, vec![ChildOf(1)]),
        span(3, "both", 30, vec![ChildOf(2), FollowsFrom(1)]),
        span(4, "known_then_unknown", 40, vec![ChildOf(2), ChildOf(99)]),
        span(5, "follows_then_child", 50, vec![FollowsFrom(3), ChildOf(1)]),
    ]);
    assert_eq!(get_span_position(&map, 3), Some((0, 1)));
    assert_eq!(get_span_position(&map, 4), Some((2, 0)));
    assert_eq!(get_span_position(&map, 5), Some((1, 2)));
}

#[test]
fn unknown_ancestor_makes_a_root() {
    let mut spans = three_levels();
    spans.remove(1);
    let map = map_of(spans);
    assert_eq!(get_span_position(&map, 3), Some((0, 0)));
    assert_eq!(get_span_position(&map, 2), None);
    assert_eq!(print_span_map(&map, false), lines(&["[root] ", "[leaf] "]));
}

#[test]
fn a_reference_cycle_ends() {
    let map = map_of(vec![span(1, "a", 10, vec![ChildOf(2)]), span(2, "b", 20, vec![ChildOf(1)])]);
    assert_eq!(reference_limit(&map), 2);
    assert_eq!(get_span_position(&map, 1), Some((2, 0)));
    assert_eq!(get_span_position_within(&map, 1, 0), Some((0, 0)));
    assert_eq!(get_span_position_within(&map, 1, 1), Some((1, 0)));
    assert_eq!(print_span_map(&map, false), Vec::<String>::new());
    assert_eq!(print_span_stack(&map, 1), lines(&["\t\t[a] ", "\t\t[b] ", "\t\t[a] "]));
}

#[test]
fn a_cycle_below_a_root_is_cut() {
    let map = map_of(vec![
        span(1, "root", 10, vec![]),
        span(2, "a", 20, vec![ChildOf(3), ChildOf(1)]),
        span(3, "b", 30, vec![ChildOf(2)]),
    ]);
    let printed = print_span_map(&map, false);
    assert_eq!(printed, lines(&["[root] ", "\t[a] ", "\t\t[b] "]));
}

#[test]
fn tree_is_printed_children_first_then_followers() {
    let map = map_of(vec![
        span(7, "parent_follower_follower_span", 70, vec![FollowsFrom(5)]),
        span(6, "parent_follower_b_span", 60, vec![FollowsFrom(1)]),
        span(5, "parent_follower_span", 50, vec![FollowsFrom(1)]),
        span(4, "child_follower_span", 40, vec![FollowsFrom(2)]),
        span(3, "grand_child_span", 35, vec![ChildOf(2)]),
        span(8, "child_b_span", 30, vec![ChildOf(1)]),
        span(2, "child_span", 20, vec![ChildOf(1)]),
        span(1, "parent", 10, vec![]),
    ]);
    assert_eq!(
        print_span_map(&map, false),
        lines(&[
            "[parent] ",
            "\t[child_span] ",
            "\t\t[grand_child_span] ",
            "\t[child_follower_span] ",
            "\t[child_b_span] ",
            "[parent_follower_span] ",
            "[parent_follower_follower_span] ",
            "[parent_follower_b_span] ",
        ])
    );
}

#[test]
fn equal_start_times_are_ordered_by_span_id() {
    let map = map_of(vec![
        span(9, "r9", 10, vec![]),
        span(3, "r3", 10, vec![]),
        span(5, "r5", 5, vec![]),
        span(8, "c8", 7, vec![ChildOf(3)]),
        span(2, "c2", 7, vec![ChildOf(3)]),
    ]);
    assert_eq!(
        print_span_map(&map, false),
        lines(&["[r5] ", "[r3] ", "\t[c2] ", "\t[c8] ", "[r9] "])
    );
}

#[test]
fn printing_twice_gives_the_same_text() {
    let spans = || {
        vec![
            span(4, "d", 10, vec![FollowsFrom(1)]),
            span(3, "c", 10, vec![ChildOf(1)]),
            span(2, "b", 10, vec![ChildOf(1)]),
            span(1, "a", 10, vec![]),
        ]
    };
    let map = map_of(spans());
    let first = print_span_map(&map, false);
    assert_eq!(print_span_map(&map, false), first);
    let mut reversed = spans();
    reversed.reverse();
    assert_eq!(print_span_map(&map_of(reversed), false), first);
    assert_eq!(first, lines(&["[a] ", "\t[b] ", "\t[c] ", "[d] "]));
}

fn decorated() -> SpanRecord {
    SpanRecord {
        span_id: 2,
        operation_name: "child_span".to_string(),
        start_time: 20,
        references: vec![ChildOf(1)],
        tags: vec![
            SpanTag { name: "id".to_string(), value: "String(\"A\")".to_string() },
            SpanTag { name: "n".to_string(), value: "Integer(5)".to_string() },
        ],
        logs: vec![
            SpanLog {
                fields: vec![LogField {
                    name: "event".to_string(),
                    value: "a log message".to_string(),
                }],
            },
            SpanLog {
                fields: vec![
                    LogField { name: "error.kind".to_string(), value: "io".to_string() },
                    LogField { name: "message".to_string(), value: "broken".to_string() },
                ],
            },
        ],
    }
}

#[test]
fn a_span_is_printed_with_tags_and_logs() {
    let map = map_of(vec![span(1, "parent", 10, vec![]), decorated()]);
    let expected = lines(&[
        "\t[child_span] {id = String(\"A\")} {n = Integer(5)} ",
        "\t!event! a log message",
        "\t!error.kind! io",
        "\t!message! broken",
    ]);
    assert_eq!(print_span(&map, &decorated(), false), expected);
    assert_eq!(print_span_at(&decorated(), 1, false), expected);
    assert_eq!(print_span_at(&decorated(), 0, false)[0], "[child_span] {id = String(\"A\")} {n = Integer(5)} ");
    let mut all = lines(&["[parent] "]);
    all.extend(expected);
    assert_eq!(print_span_map(&map, false), all);
}

#[test]
fn only_events_prints_the_field_values() {
    let map = map_of(vec![span(1, "parent", 10, vec![]), decorated()]);
    let expected = lines(&["a log message", "io", "broken"]);
    assert_eq!(print_span_events(&decorated()), expected);
    assert_eq!(print_span(&SpanMap::new(), &decorated(), true), expected);
    assert_eq!(print_span_map(&map, true), expected);
}

#[test]
fn text_pieces() {
    assert_eq!(indentation(0), "");
    assert_eq!(indentation(3), "\t\t\t");
    assert_eq!(render_tags(&Vec::new()), "");
    assert_eq!(render_tags(&decorated().tags), "{id = String(\"A\")} {n = Integer(5)} ");
}

#[test]
fn span_stack_prints_ancestors_first() {
    let map = map_of(three_levels());
    assert_eq!(print_span_stack(&map, 3), lines(&["[root] ", "\t[mid] ", "\t\t[leaf] "]));
    assert_eq!(print_span_stack(&map, 1), lines(&["[root] "]));
    assert_eq!(print_span_stack(&map, 9), Vec::<String>::new());
}

#[test]
fn selections() {
    let map = map_of(vec![
        span(1, "root", 10, vec![]),
        span(2, "child", 20, vec![ChildOf(1)]),
        span(3, "late", 30, vec![FollowsFrom(1)]),
        span(4, "later", 25, vec![FollowsFrom(3), FollowsFrom(1)]),
    ]);
    let mut ids = span_ids(&map);
    ids.sort();
    assert_eq!(ids, vec![1, 2, 3, 4]);
    assert_eq!(select(&map, Selection::Roots, 1), Some(SortKey { rank: 0, start_time: 10, span_id: 1 }));
    assert_eq!(select(&map, Selection::Roots, 2), None);
    assert_eq!(select(&map, Selection::Roots, 9), None);
    assert_eq!(
        select_keys(&map, &ids, Selection::ChildrenOf(1)),
        vec![SortKey { rank: 0, start_time: 20, span_id: 2 }]
    );
    assert_eq!(
        select_keys(&map, &ids, Selection::FollowersOf(1)),
        vec![
            SortKey { rank: 1, start_time: 25, span_id: 4 },
            SortKey { rank: 1, start_time: 30, span_id: 3 },
        ]
    );
    assert_eq!(
        select_keys(&map, &ids, Selection::FollowersOf(3)),
        vec![SortKey { rank: 1, start_time: 25, span_id: 4 }]
    );
    assert!(has_reference(&vec![ChildOf(1), FollowsFrom(2)], FollowsFrom(2)));
    assert!(!has_reference(&vec![ChildOf(1), FollowsFrom(2)], ChildOf(2)));
}

#[test]
fn keys_are_kept_in_order() {
    let key = |rank, start_time, span_id| SortKey { rank, start_time, span_id };
    let mut keys = Vec::new();
    for k in [key(1, 5, 5), key(0, 9, 1), key(0, 9, 0), key(0, 2, 7), key(1, 5, 5), key(2, 0, 0)] {
        insert_sorted(&mut keys, k);
    }
    assert_eq!(keys, vec![key(0, 2, 7), key(0, 9, 0), key(0, 9, 1), key(1, 5, 5), key(2, 0, 0)]);
    assert!(comes_before(&key(0, 9, 9), &key(1, 0, 0)));
    assert!(comes_before(&key(1, 4, 9), &key(1, 5, 0)));
    assert!(comes_before(&key(1, 5, 0), &key(1, 5, 1)));
    assert!(!comes_before(&key(1, 5, 1), &key(1, 5, 1)));
}

#[test]
fn later_span_of_the_same_id_replaces_the_earlier() {
    let map = map_of(vec![span(1, "first", 10, vec![]), span(1, "second", 20, vec![])]);
    assert_eq!(map.len(), 1);
    assert_eq!(print_span_map(&map, false), lines(&["[second] "]));
}

#[test]
fn span_trace_test() {
    let (tracer, mut reporter) = new_tracer_with_console_reporter();
    {
        let parent_span: HSpan = tracer.span("parent").start().into();
        {
            let mut child_span = parent_span.child("child_span");
            child_span.set_tag(holochain_tracing::span::debug_tag("id", "A"));
            child_span.event("a log message");
            let mut child_b_span = parent_span.child("child_b_span");
            child_b_span.set_tag(holochain_tracing::span::debug_tag("id", "B"));
            let mut _grand_child_span = child_span.child("grand_child_span");
            let mut _follower_span = child_span.follower("child_follower_span");
        }
        let parent_follower_span = parent_span.follower("parent_follower_span");
        let _parent_follower_b_span = parent_span.follower("parent_follower_b_span");
        let mut _parent_follower_follower_span =
            parent_follower_span.follower("parent_follower_follower_span");
    }
    let count = reporter.drain();
    assert_eq!(8, count);
    let printed = reporter.print(false);
    assert_eq!(printed.len(), 9);
    assert_eq!(printed[0], "[parent] ");
    assert!(printed.contains(&"\t[child_span] {id = String(\"\\\"A\\\"\")} ".to_string()));
    assert!(printed.contains(&"\t!event! a log message".to_string()));
    assert!(printed.contains(&"\t\t[grand_child_span] ".to_string()));
    assert!(printed.contains(&"\t[child_follower_span] ".to_string()));
    assert_eq!(reporter.print(true), lines(&["a log message"]));
}

#[test]
fn lib_trace_test() {
    let (tracer, mut reporter) = new_tracer_with_console_reporter();
    {
        let parent_span: HSpan = tracer.span("parent").start().into();
        {
            let mut child_span = parent_span.child("child_span");
            child_span.set_tag(holochain_tracing::span::debug_tag("id", "A"));
            child_span.event("a log message");
            let mut child_b_span = parent_span.child("child_b_span");
            child_b_span.set_tag(holochain_tracing::span::debug_tag("id", "B"));
            let mut _grand_child_span = child_span.child("grand_child_span");
            let mut _follower_span = child_span.follower("child_follower_span");
        }
        let parent_follower_span = parent_span.follower("parent_follower_span");
        let mut _parent_follower_2_span = parent_follower_span.follower("parent_follower_2_span");
    }
    let count = reporter.drain();
    assert_eq!(7, count);
    assert_eq!(reporter.print(false).len(), 8);
    reporter.clear();
    assert_eq!(reporter.drain(), 0);
    assert_eq!(reporter.print(false), Vec::<String>::new());
}

#[test]
fn error_is_logged_with_kind_and_message() {
    let (tracer, mut reporter) = new_tracer_with_console_reporter();
    {
        let mut failing: HSpan = tracer.span("failing").start().into();
        failing.error("io", "broken");
    }
    assert_eq!(reporter.drain(), 1);
    assert_eq!(
        reporter.print(false),
        lines(&["[failing] ", "!error.kind! io", "!event! error", "!message! broken"])
    );
}
