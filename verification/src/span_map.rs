//! Rebuilding the tree of spans from the flat set of finished spans.
//!
//! A finished span names other spans as its parent (`ChildOf`) or as the
//! span it follows (`FollowsFrom`). From these references each span gets a
//! depth and an offset, and the whole set is printed as a forest: the roots
//! in order, and under each span first its children, then its followers. A
//! reference to a span that is not in the set counts for nothing.

use crate::sort_key::insert_sorted;
use crate::sort_key::is_sorted_seq_of;
use crate::sort_key::lemma_sorted_seq_of;
use crate::sort_key::sorted_seq_of;
use crate::sort_key::SortKey;
use std::collections::HashMap;
use vstd::prelude::*;
use vstd::std_specs::iter::IteratorSpec;
use vstd::string::StringExecFns;

verus! {

broadcast use vstd::std_specs::hash::group_hash_axioms;

/// A reference of a span to another span, by its span id.
#[derive(Clone, Copy, Debug, PartialEq, Eq, Structural)]
pub enum SpanReference {
    /// The span was started because of, and nested within, the other.
    ChildOf(u64),
    /// The span was started after the other, and is not nested within it.
    FollowsFrom(u64),
}

/// A key/value tag of a span. The value is held as the text by which it is
/// printed.
pub struct SpanTag {
    pub name: String,
    pub value: String,
}

/// A field of a log entry.
pub struct LogField {
    pub name: String,
    pub value: String,
}

/// A log entry of a span.
pub struct SpanLog {
    pub fields: Vec<LogField>,
}

/// A span that has ended, as the reporter receives it. The start time is
/// given in nanoseconds since the Unix epoch.
pub struct SpanRecord {
    pub span_id: u64,
    pub operation_name: String,
    pub start_time: u128,
    pub references: Vec<SpanReference>,
    pub tags: Vec<SpanTag>,
    pub logs: Vec<SpanLog>,
}

/// The finished spans, by span id.
pub type SpanMap = HashMap<u64, SpanRecord>;

/// How many references are followed from a span at most. In a set without
/// reference cycles no chain of references is longer than the number of
/// spans, so the bound only cuts a chain that runs in a circle.
pub open spec fn reference_bound(spans: Map<u64, SpanRecord>) -> nat {
    if spans.dom().len() <= u32::MAX {
        spans.dom().len()
    } else {
        u32::MAX as nat
    }
}

/// The depth and offset of the span `span_id`, following at most `bound`
/// references in a row; `None` for a span that is not in the set.
pub open spec fn position_within(spans: Map<u64, SpanRecord>, span_id: u64, bound: nat) -> Option<
    (nat, nat),
>
    decreases bound, 1nat, 0nat,
{
    if spans.contains_key(span_id) {
        Some(position_by(spans, spans[span_id].references@, bound))
    } else {
        None
    }
}

/// The depth and offset that the references `refs` give. Each reference to a
/// span of the set sets them anew, so that the last such reference decides:
/// a child is one deeper than its parent, a follower is as deep as the span
/// it follows and one further along. Without such a reference both are 0.
pub open spec fn position_by(spans: Map<u64, SpanRecord>, refs: Seq<SpanReference>, bound: nat) -> (
    nat,
    nat,
)
    decreases bound, 0nat, refs.len(),
{
    if refs.len() == 0 || bound == 0 {
        (0, 0)
    } else {
        let before = position_by(spans, refs.drop_last(), bound);
        match refs.last() {
            SpanReference::ChildOf(parent) => match position_within(
                spans,
                parent,
                (bound - 1) as nat,
            ) {
                Some((depth, _)) => (depth + 1, before.1),
                None => before,
            },
            SpanReference::FollowsFrom(sibling) => match position_within(
                spans,
                sibling,
                (bound - 1) as nat,
            ) {
                Some((depth, offset)) => (depth, offset + 1),
                None => before,
            },
        }
    }
}

/// The depth and offset of the span `span_id` in the set.
pub open spec fn span_position(spans: Map<u64, SpanRecord>, span_id: u64) -> Option<(u32, u32)> {
    match position_within(spans, span_id, reference_bound(spans)) {
        Some((depth, offset)) => Some((depth as u32, offset as u32)),
        None => None,
    }
}

/// A span is a root if no reference of it leads to a span of the set.
pub open spec fn is_root(spans: Map<u64, SpanRecord>, span_id: u64) -> bool {
    span_position(spans, span_id) == Some((0u32, 0u32))
}

/// Neither the depth nor the offset exceeds the number of references that
/// may be followed.
pub proof fn lemma_position_bounded(spans: Map<u64, SpanRecord>, span_id: u64, bound: nat)
    ensures
        position_within(spans, span_id, bound) matches Some((depth, offset)) ==> depth <= bound
            && offset <= bound,
    decreases bound, 1nat, 0nat,
{
    if spans.contains_key(span_id) {
        lemma_position_by_bounded(spans, spans[span_id].references@, bound);
    }
}

/// Neither the depth nor the offset that references give exceeds the
/// number of references that may be followed.
pub proof fn lemma_position_by_bounded(
    spans: Map<u64, SpanRecord>,
    refs: Seq<SpanReference>,
    bound: nat,
)
    ensures
        position_by(spans, refs, bound).0 <= bound,
        position_by(spans, refs, bound).1 <= bound,
    decreases bound, 0nat, refs.len(),
{
    if refs.len() > 0 && bound > 0 {
        lemma_position_by_bounded(spans, refs.drop_last(), bound);
        match refs.last() {
            SpanReference::ChildOf(parent) => {
                lemma_position_bounded(spans, parent, (bound - 1) as nat);
            },
            SpanReference::FollowsFrom(sibling) => {
                lemma_position_bounded(spans, sibling, (bound - 1) as nat);
            },
        }
    }
}

/// Unknown ancestors: a span none of whose references leads to a span of
/// the set is a root, whatever it refers to.
pub proof fn lemma_unknown_ancestors(spans: Map<u64, SpanRecord>, span_id: u64)
    requires
        spans.contains_key(span_id),
        forall|i: int|
            0 <= i < spans[span_id].references@.len() ==> match #[trigger] spans[span_id].references@[i] {
                SpanReference::ChildOf(parent) => !spans.contains_key(parent),
                SpanReference::FollowsFrom(sibling) => !spans.contains_key(sibling),
            },
    ensures
        is_root(spans, span_id),
{
    lemma_unresolved_references(spans, spans[span_id].references@, reference_bound(spans));
}

/// References none of which leads to a span of the set give depth 0 and
/// offset 0.
pub proof fn lemma_unresolved_references(
    spans: Map<u64, SpanRecord>,
    refs: Seq<SpanReference>,
    bound: nat,
)
    requires
        forall|i: int|
            0 <= i < refs.len() ==> match #[trigger] refs[i] {
                SpanReference::ChildOf(parent) => !spans.contains_key(parent),
                SpanReference::FollowsFrom(sibling) => !spans.contains_key(sibling),
            },
    ensures
        position_by(spans, refs, bound) == (0nat, 0nat),
    decreases refs.len(),
{
    if refs.len() > 0 && bound > 0 {
        assert forall|i: int| 0 <= i < refs.drop_last().len() implies match #[trigger] refs.drop_last()[i] {
            SpanReference::ChildOf(parent) => !spans.contains_key(parent),
            SpanReference::FollowsFrom(sibling) => !spans.contains_key(sibling),
        } by {
            assert(refs.drop_last()[i] == refs[i]);
        }
        lemma_unresolved_references(spans, refs.drop_last(), bound);
        match refs[refs.len() - 1] {
            SpanReference::ChildOf(parent) => {
                assert(position_within(spans, parent, (bound - 1) as nat) is None);
            },
            SpanReference::FollowsFrom(sibling) => {
                assert(position_within(spans, sibling, (bound - 1) as nat) is None);
            },
        }
    }
}

/// The span that a reference leads to.
pub open spec fn target(reference: SpanReference) -> u64 {
    match reference {
        SpanReference::ChildOf(parent) => parent,
        SpanReference::FollowsFrom(sibling) => sibling,
    }
}

/// The set has no reference cycle, as `rank` shows: every reference within
/// the set leads to a span of lower rank.
pub open spec fn ranked(spans: Map<u64, SpanRecord>, rank: spec_fn(u64) -> nat) -> bool {
    forall|id: u64, i: int|
        spans.contains_key(id) && 0 <= i < spans[id].references@.len() && spans.contains_key(
            target(#[trigger] spans[id].references@[i]),
        ) ==> rank(target(spans[id].references@[i])) < rank(id)
}

/// In a set without reference cycles the bound cuts nothing: a span has the
/// same depth and offset under every bound that is not below its rank.
pub proof fn lemma_bound_cuts_no_chain(
    spans: Map<u64, SpanRecord>,
    rank: spec_fn(u64) -> nat,
    span_id: u64,
    a: nat,
    b: nat,
)
    requires
        ranked(spans, rank),
        rank(span_id) <= a,
        rank(span_id) <= b,
    ensures
        position_within(spans, span_id, a) == position_within(spans, span_id, b),
    decreases rank(span_id), 1nat, 0nat,
{
    if spans.contains_key(span_id) {
        let refs = spans[span_id].references@;
        lemma_bound_cuts_no_prefix(spans, rank, span_id, refs.len(), a, b);
        assert(refs.take(refs.len() as int) =~= refs);
    }
}

/// The first `k` references of a span give the same depth and offset under
/// every bound that is not below its rank.
pub proof fn lemma_bound_cuts_no_prefix(
    spans: Map<u64, SpanRecord>,
    rank: spec_fn(u64) -> nat,
    span_id: u64,
    k: nat,
    a: nat,
    b: nat,
)
    requires
        ranked(spans, rank),
        spans.contains_key(span_id),
        k <= spans[span_id].references@.len(),
        rank(span_id) <= a,
        rank(span_id) <= b,
    ensures
        position_by(spans, spans[span_id].references@.take(k as int), a) == position_by(
            spans,
            spans[span_id].references@.take(k as int),
            b,
        ),
    decreases rank(span_id), 0nat, k,
{
    let refs = spans[span_id].references@;
    let prefix = refs.take(k as int);
    if a == 0 || b == 0 {
        assert forall|i: int| 0 <= i < prefix.len() implies match #[trigger] prefix[i] {
            SpanReference::ChildOf(parent) => !spans.contains_key(parent),
            SpanReference::FollowsFrom(sibling) => !spans.contains_key(sibling),
        } by {
            assert(prefix[i] == refs[i]);
            if spans.contains_key(target(refs[i])) {
                assert(rank(target(spans[span_id].references@[i])) < rank(span_id));
            }
        }
        lemma_unresolved_references(spans, prefix, a);
        lemma_unresolved_references(spans, prefix, b);
    } else if k > 0 {
        lemma_bound_cuts_no_prefix(spans, rank, span_id, (k - 1) as nat, a, b);
        assert(prefix.drop_last() =~= refs.take(k - 1));
        let last = refs[k - 1];
        assert(prefix.last() == last);
        if spans.contains_key(target(last)) {
            assert(rank(target(spans[span_id].references@[k - 1])) < rank(span_id));
            lemma_bound_cuts_no_chain(
                spans,
                rank,
                target(last),
                (a - 1) as nat,
                (b - 1) as nat,
            );
        }
    }
}

/// The number of references that are followed from a span at most.
pub fn reference_limit(span_map: &SpanMap) -> (bound: u32)
    ensures
        bound == reference_bound(span_map@),
{
    let len = span_map.len();
    if len <= 0xffff_ffff {
        len as u32
    } else {
        0xffff_ffff
    }
}

/// The depth and offset of a span, following at most `bound` references in
/// a row.
pub fn get_span_position_within(span_map: &SpanMap, span_id: u64, bound: u32) -> (res: Option<
    (u32, u32),
>)
    ensures
        res is Some <==> span_map@.contains_key(span_id),
        res matches Some((depth, offset)) ==> position_within(span_map@, span_id, bound as nat)
            == Some((depth as nat, offset as nat)),
    decreases bound,
{
    let span = match span_map.get(&span_id) {
        None => return None,
        Some(s) => s,
    };
    let mut depth: u32 = 0;
    let mut offset: u32 = 0;
    if bound > 0 {
        let mut i: usize = 0;
        while i < span.references.len()
            invariant
                bound > 0,
                i <= span.references@.len(),
                span_map@.contains_key(span_id),
                *span == span_map@[span_id],
                (depth as nat, offset as nat) == position_by(
                    span_map@,
                    span.references@.take(i as int),
                    bound as nat,
                ),
            decreases span.references@.len() - i,
        {
            proof {
                assert(span.references@.take(i + 1).drop_last() =~= span.references@.take(i as int));
                lemma_position_by_bounded(span_map@, span.references@.take(i + 1), bound as nat);
            }
            match span.references[i] {
                SpanReference::ChildOf(parent) => {
                    if let Some((parent_depth, _parent_offset)) = get_span_position_within(
                        span_map,
                        parent,
                        bound - 1,
                    ) {
                        depth = parent_depth + 1;
                    }
                },
                SpanReference::FollowsFrom(sibling) => {
                    if let Some((sibling_depth, sibling_offset)) = get_span_position_within(
                        span_map,
                        sibling,
                        bound - 1,
                    ) {
                        depth = sibling_depth;
                        offset = sibling_offset + 1;
                    }
                },
            }
            i += 1;
        }
        assert(span.references@.take(i as int) =~= span.references@);
    }
    Some((depth, offset))
}

/// Gives the depth and sibling offset of a span, or `None` for a span that
/// is not in the map.
pub fn get_span_position(span_map: &SpanMap, span_id: u64) -> (res: Option<(u32, u32)>)
    ensures
        res == span_position(span_map@, span_id),
{
    let bound = reference_limit(span_map);
    proof {
        lemma_position_bounded(span_map@, span_id, bound as nat);
    }
    get_span_position_within(span_map, span_id, bound)
}

/// The span ids of the map, each once, in no particular order.
pub fn span_ids(span_map: &SpanMap) -> (ids: Vec<u64>)
    ensures
        forall|id: u64| #[trigger] ids@.contains(id) <==> span_map@.contains_key(id),
{
    let mut ids: Vec<u64> = Vec::new();
    let ghost all: Seq<u64> = vstd::std_specs::hash::spec_keys_iter(span_map).remaining().unref();
    for id in it: span_map.keys()
        invariant
            it.seq().unref() == all,
            all.to_set() == span_map@.dom(),
            ids@ == all.take(it.index()),
    {
        ids.push(*id);
    }
    assert(ids@ =~= all);
    assert forall|id: u64| #[trigger] ids@.contains(id) <==> span_map@.contains_key(id) by {
        assert(all.to_set().contains(id) <==> all.contains(id));
    }
    ids
}

/// The text that each line of `lines` holds.
pub open spec fn lines_of(lines: Seq<String>) -> Seq<Seq<char>> {
    Seq::new(lines.len(), |i: int| lines[i]@)
}

/// One tab for each level of depth.
pub open spec fn indent(depth: nat) -> Seq<char>
    decreases depth,
{
    if depth == 0 {
        Seq::empty()
    } else {
        indent((depth - 1) as nat) + "\t"@
    }
}

/// The tags of a span, each as `{name = value} `.
pub open spec fn tags_text(tags: Seq<SpanTag>) -> Seq<char>
    decreases tags.len(),
{
    if tags.len() == 0 {
        Seq::empty()
    } else {
        tags_text(tags.drop_last()) + "{"@ + tags.last().name@ + " = "@ + tags.last().value@
            + "} "@
    }
}

/// The line that names a span: its operation name in brackets, then its
/// tags.
pub open spec fn header_line(span: SpanRecord, depth: nat) -> Seq<char> {
    indent(depth) + "["@ + span.operation_name@ + "] "@ + tags_text(span.tags@)
}

/// The line of a log field: its value alone where only events are printed,
/// else its name between exclamation marks and its value, indented.
pub open spec fn field_line(field: LogField, depth: nat, only_events: bool) -> Seq<char> {
    if only_events {
        field.value@
    } else {
        indent(depth) + "!"@ + field.name@ + "! "@ + field.value@
    }
}

/// The lines of the fields of one log entry.
pub open spec fn fields_lines(fields: Seq<LogField>, depth: nat, only_events: bool) -> Seq<
    Seq<char>,
>
    decreases fields.len(),
{
    if fields.len() == 0 {
        Seq::empty()
    } else {
        fields_lines(fields.drop_last(), depth, only_events).push(
            field_line(fields.last(), depth, only_events),
        )
    }
}

/// The lines of the log entries of a span.
pub open spec fn logs_lines(logs: Seq<SpanLog>, depth: nat, only_events: bool) -> Seq<Seq<char>>
    decreases logs.len(),
{
    if logs.len() == 0 {
        Seq::empty()
    } else {
        logs_lines(logs.drop_last(), depth, only_events) + fields_lines(
            logs.last().fields@,
            depth,
            only_events,
        )
    }
}

/// The lines by which a span is printed at `depth`: its header and its log
/// fields, or the values of its log fields where only events are printed.
pub open spec fn span_lines(span: SpanRecord, depth: nat, only_events: bool) -> Seq<Seq<char>> {
    if only_events {
        logs_lines(span.logs@, depth, true)
    } else {
        seq![header_line(span, depth)] + logs_lines(span.logs@, depth, false)
    }
}

/// The depth of a span of the set, and 0 for any other.
pub open spec fn depth_of(spans: Map<u64, SpanRecord>, span_id: u64) -> nat {
    match span_position(spans, span_id) {
        Some((depth, _)) => depth as nat,
        None => 0,
    }
}

/// The offset of a span of the set, and 0 for any other.
pub open spec fn offset_of(spans: Map<u64, SpanRecord>, span_id: u64) -> u32 {
    match span_position(spans, span_id) {
        Some((_, offset)) => offset,
        None => 0,
    }
}

/// `lines_of` goes through `push`.
pub proof fn lemma_lines_push(lines: Seq<String>, line: String)
    ensures
        lines_of(lines.push(line)) == lines_of(lines).push(line@),
{
    assert(lines_of(lines.push(line)) =~= lines_of(lines).push(line@));
}

/// `lines_of` goes through concatenation.
pub proof fn lemma_lines_add(a: Seq<String>, b: Seq<String>)
    ensures
        lines_of(a + b) == lines_of(a) + lines_of(b),
{
    assert(lines_of(a + b) =~= lines_of(a) + lines_of(b));
}

/// The indentation of a line at `depth`.
pub fn indentation(depth: u32) -> (res: String)
    ensures
        res@ == indent(depth as nat),
{
    let mut spacing = String::new();
    let mut i: u32 = 0;
    while i < depth
        invariant
            i <= depth,
            spacing@ == indent(i as nat),
        decreases depth - i,
    {
        spacing.append("\t");
        i += 1;
    }
    spacing
}

/// The tags of a span as one piece of text.
pub fn render_tags(tags: &Vec<SpanTag>) -> (res: String)
    ensures
        res@ == tags_text(tags@),
{
    let mut text = String::new();
    let mut i: usize = 0;
    while i < tags.len()
        invariant
            i <= tags@.len(),
            text@ == tags_text(tags@.take(i as int)),
        decreases tags@.len() - i,
    {
        proof {
            assert(tags@.take(i + 1).drop_last() =~= tags@.take(i as int));
        }
        text.append("{");
        text.append(tags[i].name.as_str());
        text.append(" = ");
        text.append(tags[i].value.as_str());
        text.append("} ");
        i += 1;
    }
    assert(tags@.take(i as int) =~= tags@);
    text
}

/// The lines by which `span` is printed at `depth`.
pub fn print_span_at(span: &SpanRecord, depth: u32, only_events: bool) -> (lines: Vec<String>)
    ensures
        lines_of(lines@) == span_lines(*span, depth as nat, only_events),
{
    let mut lines: Vec<String> = Vec::new();
    let spacing = indentation(depth);
    if !only_events {
        let mut header = indentation(depth);
        let tags = render_tags(&span.tags);
        header.append("[");
        header.append(span.operation_name.as_str());
        header.append("] ");
        header.append(tags.as_str());
        lines.push(header);
        assert(lines_of(lines@) =~= seq![header_line(*span, depth as nat)]);
    } else {
        assert(lines_of(lines@) =~= Seq::<Seq<char>>::empty());
    }
    let ghost head = lines_of(lines@);
    let mut i: usize = 0;
    while i < span.logs.len()
        invariant
            i <= span.logs@.len(),
            spacing@ == indent(depth as nat),
            lines_of(lines@) == head + logs_lines(
                span.logs@.take(i as int),
                depth as nat,
                only_events,
            ),
        decreases span.logs@.len() - i,
    {
        let fields = &span.logs[i].fields;
        let ghost done = lines_of(lines@);
        let mut j: usize = 0;
        while j < fields.len()
            invariant
                j <= fields@.len(),
                spacing@ == indent(depth as nat),
                lines_of(lines@) == done + fields_lines(
                    fields@.take(j as int),
                    depth as nat,
                    only_events,
                ),
            decreases fields@.len() - j,
        {
            let mut line = String::new();
            if only_events {
                line.append(fields[j].value.as_str());
            } else {
                line.append(spacing.as_str());
                line.append("!");
                line.append(fields[j].name.as_str());
                line.append("! ");
                line.append(fields[j].value.as_str());
            }
            proof {
                assert(fields@.take(j + 1).drop_last() =~= fields@.take(j as int));
                lemma_lines_push(lines@, line);
            }
            lines.push(line);
            j += 1;
        }
        proof {
            assert(fields@.take(j as int) =~= fields@);
            assert(span.logs@.take(i + 1).drop_last() =~= span.logs@.take(i as int));
        }
        i += 1;
    }
    assert(span.logs@.take(i as int) =~= span.logs@);
    lines
}

/// The values of the log fields of a span, one to a line.
pub fn print_span_events(span: &SpanRecord) -> (lines: Vec<String>)
    ensures
        lines_of(lines@) == span_lines(*span, 0, true),
{
    print_span_at(span, 0, true)
}

/// The lines of a single span: its log fields alone where only events are
/// asked for, else its header and log fields at the depth that the span has
/// in the map.
pub fn print_span(span_map: &SpanMap, span: &SpanRecord, only_events: bool) -> (lines: Vec<String>)
    requires
        !only_events ==> span_map@.contains_key(span.span_id),
    ensures
        lines_of(lines@) == span_lines(
            *span,
            if only_events {
                0
            } else {
                depth_of(span_map@, span.span_id)
            },
            only_events,
        ),
{
    if only_events {
        print_span_events(span)
    } else {
        let depth = match get_span_position(span_map, span.span_id) {
            Some((span_depth, _span_offset)) => span_depth,
            None => 0,
        };
        proof {
            lemma_position_bounded(span_map@, span.span_id, reference_bound(span_map@));
        }
        print_span_at(span, depth, false)
    }
}

/// Which spans of the set are asked for.
#[derive(Clone, Copy, Debug, PartialEq, Eq, Structural)]
pub enum Selection {
    /// The roots.
    Roots,
    /// The spans with a `ChildOf` reference to the given span.
    ChildrenOf(u64),
    /// The spans with a `FollowsFrom` reference to the given span.
    FollowersOf(u64),
}

/// The key of the span `span_id` under `selection`, if it is one of the
/// spans asked for. Roots and children are ordered by start time, followers
/// by offset first; the span id breaks every tie.
pub open spec fn selected(spans: Map<u64, SpanRecord>, selection: Selection, span_id: u64) -> Option<
    SortKey,
> {
    if !spans.contains_key(span_id) {
        None
    } else {
        let span = spans[span_id];
        match selection {
            Selection::Roots => if is_root(spans, span_id) {
                Some(SortKey { rank: 0, start_time: span.start_time, span_id })
            } else {
                None
            },
            Selection::ChildrenOf(parent) => if span.references@.contains(
                SpanReference::ChildOf(parent),
            ) {
                Some(SortKey { rank: 0, start_time: span.start_time, span_id })
            } else {
                None
            },
            Selection::FollowersOf(sibling) => if span.references@.contains(
                SpanReference::FollowsFrom(sibling),
            ) {
                Some(
                    SortKey {
                        rank: offset_of(spans, span_id),
                        start_time: span.start_time,
                        span_id,
                    },
                )
            } else {
                None
            },
        }
    }
}

/// The keys of the spans asked for.
pub open spec fn selection_keys(spans: Map<u64, SpanRecord>, selection: Selection) -> Set<
    SortKey,
> {
    Set::new(|k: SortKey| selected(spans, selection, k.span_id) == Some(k))
}

/// The spans asked for, in the order in which they are printed.
pub open spec fn selection_order(spans: Map<u64, SpanRecord>, selection: Selection) -> Seq<
    SortKey,
> {
    sorted_seq_of(selection_keys(spans, selection))
}

/// The lines of the tree below and including the span `span_id`, down to
/// `levels` levels: the span itself, then the trees of its children, then
/// those of its followers. A span that is not in the set has no lines.
pub open spec fn tree_lines(
    spans: Map<u64, SpanRecord>,
    span_id: u64,
    levels: nat,
    only_events: bool,
) -> Seq<Seq<char>>
    decreases levels, 0nat,
{
    if levels == 0 || !spans.contains_key(span_id) {
        Seq::empty()
    } else {
        span_lines(spans[span_id], depth_of(spans, span_id), only_events) + forest_lines(
            spans,
            selection_order(spans, Selection::ChildrenOf(span_id)),
            (levels - 1) as nat,
            only_events,
        ) + forest_lines(
            spans,
            selection_order(spans, Selection::FollowersOf(span_id)),
            (levels - 1) as nat,
            only_events,
        )
    }
}

/// The lines of the trees of the spans of `keys`, one tree after the other.
pub open spec fn forest_lines(
    spans: Map<u64, SpanRecord>,
    keys: Seq<SortKey>,
    levels: nat,
    only_events: bool,
) -> Seq<Seq<char>>
    decreases levels, 1 + keys.len(),
{
    if keys.len() == 0 {
        Seq::empty()
    } else {
        forest_lines(spans, keys.drop_last(), levels, only_events) + tree_lines(
            spans,
            keys.last().span_id,
            levels,
            only_events,
        )
    }
}

/// The lines by which the set of spans is printed: the trees of its roots.
/// No tree is followed deeper than the set has spans, which cuts a chain of
/// references that runs in a circle and nothing else.
pub open spec fn map_lines(spans: Map<u64, SpanRecord>, only_events: bool) -> Seq<Seq<char>> {
    forest_lines(spans, selection_order(spans, Selection::Roots), spans.dom().len(), only_events)
}

/// The lines of a span with its hierarchy: the spans that its references
/// lead to, each with its own hierarchy, and then the span itself.
pub open spec fn stack_lines(spans: Map<u64, SpanRecord>, span_id: u64, bound: nat) -> Seq<
    Seq<char>,
>
    decreases bound, 1nat, 0nat,
{
    if spans.contains_key(span_id) {
        ancestors_lines(spans, spans[span_id].references@, bound) + span_lines(
            spans[span_id],
            depth_of(spans, spans[span_id].span_id),
            false,
        )
    } else {
        Seq::empty()
    }
}

/// The lines of the hierarchies of the spans that `refs` lead to.
pub open spec fn ancestors_lines(
    spans: Map<u64, SpanRecord>,
    refs: Seq<SpanReference>,
    bound: nat,
) -> Seq<Seq<char>>
    decreases bound, 0nat, refs.len(),
{
    if refs.len() == 0 || bound == 0 {
        Seq::empty()
    } else {
        ancestors_lines(spans, refs.drop_last(), bound) + stack_lines(
            spans,
            target(refs.last()),
            (bound - 1) as nat,
        )
    }
}

/// Whether `reference` is among `refs`.
pub fn has_reference(refs: &Vec<SpanReference>, reference: SpanReference) -> (res: bool)
    ensures
        res == refs@.contains(reference),
{
    let mut i: usize = 0;
    while i < refs.len()
        invariant
            i <= refs@.len(),
            forall|j: int| 0 <= j < i ==> refs@[j] != reference,
        decreases refs@.len() - i,
    {
        if refs[i] == reference {
            return true;
        }
        i += 1;
    }
    false
}

/// The key of the span `span_id` under `selection`, if it is asked for.
pub fn select(span_map: &SpanMap, selection: Selection, span_id: u64) -> (res: Option<SortKey>)
    ensures
        res == selected(span_map@, selection, span_id),
{
    let span = match span_map.get(&span_id) {
        None => return None,
        Some(s) => s,
    };
    match selection {
        Selection::Roots => {
            match get_span_position(span_map, span_id) {
                Some((depth, offset)) => {
                    if depth == 0 && offset == 0 {
                        Some(SortKey { rank: 0, start_time: span.start_time, span_id })
                    } else {
                        None
                    }
                },
                None => None,
            }
        },
        Selection::ChildrenOf(parent) => {
            if has_reference(&span.references, SpanReference::ChildOf(parent)) {
                Some(SortKey { rank: 0, start_time: span.start_time, span_id })
            } else {
                None
            }
        },
        Selection::FollowersOf(sibling) => {
            if has_reference(&span.references, SpanReference::FollowsFrom(sibling)) {
                match get_span_position(span_map, span_id) {
                    Some((_depth, offset)) => Some(
                        SortKey { rank: offset, start_time: span.start_time, span_id },
                    ),
                    None => None,
                }
            } else {
                None
            }
        },
    }
}

/// The span at `j` in `ids` is asked for, and `key` is its key.
pub open spec fn picks(
    spans: Map<u64, SpanRecord>,
    selection: Selection,
    ids: Seq<u64>,
    j: int,
    key: SortKey,
) -> bool {
    0 <= j < ids.len() && selected(spans, selection, ids[j]) == Some(key)
}

/// The spans asked for, in the order in which they are printed. `ids` holds
/// the span ids of the map.
pub fn select_keys(span_map: &SpanMap, ids: &Vec<u64>, selection: Selection) -> (keys: Vec<SortKey>)
    requires
        forall|id: u64| #[trigger] ids@.contains(id) <==> span_map@.contains_key(id),
    ensures
        keys@ == selection_order(span_map@, selection),
{
    let mut keys: Vec<SortKey> = Vec::new();
    let mut i: usize = 0;
    while i < ids.len()
        invariant
            i <= ids@.len(),
            crate::sort_key::increasing(keys@),
            forall|k: SortKey| #[trigger]
                keys@.contains(k) <==> exists|j: int|
                    j < i && #[trigger] picks(span_map@, selection, ids@, j, k),
        decreases ids@.len() - i,
    {
        let ghost before = keys@;
        match select(span_map, selection, ids[i]) {
            Some(key) => {
                insert_sorted(&mut keys, key);
                proof {
                    assert(picks(span_map@, selection, ids@, i as int, key));
                }
            },
            None => {},
        }
        proof {
            assert forall|k: SortKey| #[trigger]
                keys@.contains(k) <==> exists|j: int|
                    j < i + 1 && #[trigger] picks(span_map@, selection, ids@, j, k) by {
                if keys@.contains(k) {
                    if before.contains(k) {
                        let j = choose|j: int|
                            j < i && #[trigger] picks(span_map@, selection, ids@, j, k);
                        assert(j < i + 1 && picks(span_map@, selection, ids@, j, k));
                    } else {
                        assert(picks(span_map@, selection, ids@, i as int, k));
                    }
                }
                if exists|j: int| j < i + 1 && #[trigger] picks(span_map@, selection, ids@, j, k) {
                    let j = choose|j: int|
                        j < i + 1 && #[trigger] picks(span_map@, selection, ids@, j, k);
                    if j < i {
                        assert(before.contains(k));
                    }
                }
            }
        }
        i += 1;
    }
    proof {
        let wanted = selection_keys(span_map@, selection);
        assert forall|k: SortKey| #[trigger] keys@.contains(k) <==> wanted.contains(k) by {
            if keys@.contains(k) {
                let j = choose|j: int| j < i && #[trigger] picks(span_map@, selection, ids@, j, k);
                assert(ids@[j] == k.span_id);
            }
            if wanted.contains(k) {
                assert(span_map@.contains_key(k.span_id));
                assert(ids@.contains(k.span_id));
                let j = choose|j: int| 0 <= j < ids@.len() && ids@[j] == k.span_id;
                assert(picks(span_map@, selection, ids@, j, k));
            }
        }
        lemma_sorted_seq_of(keys@, wanted);
    }
    keys
}

/// Appends the lines of the tree of the span `span_id` to `out`, down to
/// `levels` levels.
pub fn print_span_tree(
    span_map: &SpanMap,
    ids: &Vec<u64>,
    span_id: u64,
    levels: usize,
    only_events: bool,
    out: &mut Vec<String>,
)
    requires
        forall|id: u64| #[trigger] ids@.contains(id) <==> span_map@.contains_key(id),
    ensures
        lines_of(final(out)@) == lines_of(old(out)@) + tree_lines(
            span_map@,
            span_id,
            levels as nat,
            only_events,
        ),
    decreases levels, 0nat,
{
    if levels == 0 {
        assert(lines_of(out@) =~= lines_of(out@) + Seq::<Seq<char>>::empty());
        return ;
    }
    let span = match span_map.get(&span_id) {
        None => {
            assert(lines_of(out@) =~= lines_of(out@) + Seq::<Seq<char>>::empty());
            return ;
        },
        Some(s) => s,
    };
    let depth = match get_span_position(span_map, span_id) {
        Some((span_depth, _span_offset)) => span_depth,
        None => 0,
    };
    proof {
        lemma_position_bounded(span_map@, span_id, reference_bound(span_map@));
    }
    let mut lines = print_span_at(span, depth, only_events);
    proof {
        lemma_lines_add(out@, lines@);
    }
    out.append(&mut lines);
    let children = select_keys(span_map, ids, Selection::ChildrenOf(span_id));
    print_span_forest(span_map, ids, &children, levels - 1, only_events, out);
    let followers = select_keys(span_map, ids, Selection::FollowersOf(span_id));
    print_span_forest(span_map, ids, &followers, levels - 1, only_events, out);
    assert(lines_of(out@) =~= lines_of(old(out)@) + tree_lines(
        span_map@,
        span_id,
        levels as nat,
        only_events,
    ));
}

/// Appends the lines of the trees of the spans of `keys` to `out`.
pub fn print_span_forest(
    span_map: &SpanMap,
    ids: &Vec<u64>,
    keys: &Vec<SortKey>,
    levels: usize,
    only_events: bool,
    out: &mut Vec<String>,
)
    requires
        forall|id: u64| #[trigger] ids@.contains(id) <==> span_map@.contains_key(id),
    ensures
        lines_of(final(out)@) == lines_of(old(out)@) + forest_lines(
            span_map@,
            keys@,
            levels as nat,
            only_events,
        ),
    decreases levels, 1nat,
{
    let mut i: usize = 0;
    assert(lines_of(out@) =~= lines_of(out@) + Seq::<Seq<char>>::empty());
    while i < keys.len()
        invariant
            i <= keys@.len(),
            forall|id: u64| #[trigger] ids@.contains(id) <==> span_map@.contains_key(id),
            lines_of(out@) == lines_of(old(out)@) + forest_lines(
                span_map@,
                keys@.take(i as int),
                levels as nat,
                only_events,
            ),
        decreases keys@.len() - i,
    {
        print_span_tree(span_map, ids, keys[i].span_id, levels, only_events, out);
        proof {
            assert(keys@.take(i + 1).drop_last() =~= keys@.take(i as int));
            assert(lines_of(out@) =~= lines_of(old(out)@) + forest_lines(
                span_map@,
                keys@.take(i + 1),
                levels as nat,
                only_events,
            ));
        }
        i += 1;
    }
    assert(keys@.take(i as int) =~= keys@);
}

/// The lines by which the map is printed as a forest: the roots in the order
/// of their start times, and under each span first its children by start
/// time, then its followers by offset.
pub fn print_span_map(span_map: &SpanMap, only_events: bool) -> (lines: Vec<String>)
    ensures
        lines_of(lines@) == map_lines(span_map@, only_events),
{
    let ids = span_ids(span_map);
    let roots = select_keys(span_map, &ids, Selection::Roots);
    let mut out: Vec<String> = Vec::new();
    print_span_forest(span_map, &ids, &roots, span_map.len(), only_events, &mut out);
    assert(lines_of(Seq::<String>::empty()) =~= Seq::<Seq<char>>::empty());
    assert(lines_of(out@) =~= map_lines(span_map@, only_events));
    out
}

/// Appends to `out` the lines of the span `span_id` with its hierarchy,
/// following at most `bound` references in a row.
pub fn print_span_stack_within(
    span_map: &SpanMap,
    span_id: u64,
    bound: u32,
    out: &mut Vec<String>,
)
    ensures
        lines_of(final(out)@) == lines_of(old(out)@) + stack_lines(
            span_map@,
            span_id,
            bound as nat,
        ),
    decreases bound,
{
    let span = match span_map.get(&span_id) {
        None => {
            assert(lines_of(out@) =~= lines_of(out@) + Seq::<Seq<char>>::empty());
            return ;
        },
        Some(s) => s,
    };
    assert(lines_of(out@) =~= lines_of(out@) + Seq::<Seq<char>>::empty());
    if bound > 0 {
        let mut i: usize = 0;
        while i < span.references.len()
            invariant
                bound > 0,
                i <= span.references@.len(),
                lines_of(out@) == lines_of(old(out)@) + ancestors_lines(
                    span_map@,
                    span.references@.take(i as int),
                    bound as nat,
                ),
            decreases span.references@.len() - i,
        {
            let ancestor = match span.references[i] {
                SpanReference::ChildOf(parent) => parent,
                SpanReference::FollowsFrom(sibling) => sibling,
            };
            print_span_stack_within(span_map, ancestor, bound - 1, out);
            proof {
                assert(span.references@.take(i + 1).drop_last() =~= span.references@.take(i as int));
                assert(lines_of(out@) =~= lines_of(old(out)@) + ancestors_lines(
                    span_map@,
                    span.references@.take(i + 1),
                    bound as nat,
                ));
            }
            i += 1;
        }
        assert(span.references@.take(i as int) =~= span.references@);
    }
    let depth = match get_span_position(span_map, span.span_id) {
        Some((span_depth, _span_offset)) => span_depth,
        None => 0,
    };
    proof {
        lemma_position_bounded(span_map@, span.span_id, reference_bound(span_map@));
    }
    let mut lines = print_span_at(span, depth, false);
    proof {
        lemma_lines_add(out@, lines@);
    }
    out.append(&mut lines);
    assert(lines_of(out@) =~= lines_of(old(out)@) + stack_lines(
        span_map@,
        span_id,
        bound as nat,
    ));
}

/// The lines of a single span with its hierarchy: first the spans that its
/// references lead to, then the span itself. A span that is not in the map
/// has no lines.
pub fn print_span_stack(span_map: &SpanMap, span_id: u64) -> (lines: Vec<String>)
    ensures
        lines_of(lines@) == stack_lines(span_map@, span_id, reference_bound(span_map@)),
{
    let mut out: Vec<String> = Vec::new();
    let bound = reference_limit(span_map);
    print_span_stack_within(span_map, span_id, bound, &mut out);
    assert(lines_of(Seq::<String>::empty()) =~= Seq::<Seq<char>>::empty());
    assert(lines_of(out@) =~= stack_lines(span_map@, span_id, reference_bound(span_map@)));
    out
}

/// Printing is a function of the set of spans: whatever was printed from
/// the same set, at whatever time, is the same text.
pub proof fn lemma_print_deterministic(
    spans: Map<u64, SpanRecord>,
    only_events: bool,
    first: Seq<String>,
    second: Seq<String>,
)
    requires
        lines_of(first) == map_lines(spans, only_events),
        lines_of(second) == map_lines(spans, only_events),
    ensures
        first.len() == second.len(),
        forall|i: int| 0 <= i < first.len() ==> #[trigger] first[i]@ == second[i]@,
{
    assert(lines_of(first).len() == first.len());
    assert(lines_of(second).len() == second.len());
    assert forall|i: int| 0 <= i < first.len() implies #[trigger] first[i]@ == second[i]@ by {
        assert(lines_of(first)[i] == first[i]@);
        assert(lines_of(second)[i] == second[i]@);
    }
}

} // verus!
