//! A reporter that keeps the spans it receives, to print them as a tree.

use crate::span_map::print_span_map;
use crate::span_map::lines_of;
use crate::span_map::map_lines;
use crate::span_map::SpanRecord;
use crate::span_map::LogField;
use crate::span_map::SpanLog;
use crate::span_map::SpanMap;
use crate::span_map::SpanReference;
use crate::span_map::SpanTag;
use std::collections::HashMap;
use vstd::prelude::*;

verus! {

broadcast use vstd::std_specs::hash::group_hash_axioms;

/// A finished span as the backend hands it over.
#[verifier::external_type_specification]
#[verifier::external_body]
#[verifier::reject_recursive_types(T)]
pub struct ExFinishedSpan<T>(rustracing::span::FinishedSpan<T>);

/// The receiving end of a channel.
#[verifier::external_type_specification]
#[verifier::external_body]
#[verifier::reject_recursive_types(T)]
pub struct ExReceiver<T>(crossbeam_channel::Receiver<T>);

/// A finished span of the Jaeger backend.
pub type RtFinishedSpan = rustracing::span::FinishedSpan<rustracing_jaeger::span::SpanContextState>;

/// The channel on which finished spans arrive.
pub type SpanReceiver = crossbeam_channel::Receiver<RtFinishedSpan>;

/// `crossbeam_channel::bounded` and `Tracer::with_sender` of the backend: a
/// tracer that samples every span and sends the finished ones into a channel
/// of the given capacity, and the receiving end of that channel.
#[verifier::external_body]
fn tracer_with_channel(capacity: usize) -> (res: (rustracing_jaeger::Tracer, SpanReceiver)) {
    let (span_tx, span_rx) = crossbeam_channel::bounded(capacity);
    let tracer = rustracing_jaeger::Tracer::with_sender(rustracing::sampler::AllSampler, span_tx);
    (tracer, span_rx)
}

/// `Receiver::try_recv` of `crossbeam_channel`: the next finished span, if
/// one is waiting. Whether one is waiting is up to the senders.
#[verifier::external_body]
fn try_recv(span_rx: &SpanReceiver) -> (res: Option<RtFinishedSpan>) {
    span_rx.try_recv().ok()
}

/// The span id of a finished span: `SpanContextState::span_id` on its
/// context.
#[verifier::external_body]
fn span_id_of(span: &RtFinishedSpan) -> (res: u64) {
    span.context().state().span_id()
}

/// `SpanRecord::operation_name` of the backend.
#[verifier::external_body]
fn operation_name_of(span: &RtFinishedSpan) -> (res: String) {
    span.operation_name().to_owned()
}

/// `SpanRecord::start_time` of the backend, in nanoseconds since the Unix
/// epoch.
#[verifier::external_body]
fn start_time_of(span: &RtFinishedSpan) -> (res: u128) {
    let since_epoch = span.start_time().duration_since(std::time::UNIX_EPOCH);
    since_epoch.map(|d| d.as_nanos()).unwrap_or_default()
}

/// `SpanRecord::references` of the backend, each by its kind and the span
/// id it leads to.
#[verifier::external_body]
fn references_of(span: &RtFinishedSpan) -> (res: Vec<SpanReference>) {
    span.references().iter().map(|r| match r {
        rustracing::span::SpanReference::ChildOf(parent) => SpanReference::ChildOf(parent.span_id()),
        rustracing::span::SpanReference::FollowsFrom(sibling) => SpanReference::FollowsFrom(
            sibling.span_id(),
        ),
    }).collect()
}

/// `SpanRecord::tags` of the backend, each with its name and the debug
/// rendering of its value.
#[verifier::external_body]
fn tags_of(span: &RtFinishedSpan) -> (res: Vec<SpanTag>) {
    span.tags().iter().map(|tag| SpanTag {
        name: tag.name().to_owned(),
        value: format!("{:?}", tag.value()),
    }).collect()
}

/// `SpanRecord::logs` of the backend, each with the names and values of
/// its fields.
#[verifier::external_body]
fn logs_of(span: &RtFinishedSpan) -> (res: Vec<SpanLog>) {
    span.logs().iter().map(|log| SpanLog {
        fields: log.fields().iter().map(|field| LogField {
            name: field.name().to_owned(),
            value: field.value().to_owned(),
        }).collect(),
    }).collect()
}

/// What the library keeps of a finished span of the backend.
pub fn record(span: &RtFinishedSpan) -> (res: SpanRecord) {
    SpanRecord {
        span_id: span_id_of(span),
        operation_name: operation_name_of(span),
        start_time: start_time_of(span),
        references: references_of(span),
        tags: tags_of(span),
        logs: logs_of(span),
    }
}

/// The set of spans after the spans of `received` came in, one after the
/// other: each is kept under its span id, in place of an earlier span of
/// that id.
pub open spec fn absorbed(spans: Map<u64, SpanRecord>, received: Seq<SpanRecord>) -> Map<
    u64,
    SpanRecord,
>
    decreases received.len(),
{
    if received.len() == 0 {
        spans
    } else {
        absorbed(spans, received.drop_last()).insert(received.last().span_id, received.last())
    }
}

/// Keeps `span` in the map under its span id.
pub fn absorb(span_map: &mut SpanMap, span: SpanRecord)
    ensures
        final(span_map)@ == old(span_map)@.insert(span.span_id, span),
{
    span_map.insert(span.span_id, span);
}

/// A reporter that stores all spans it receives in a map, with the intent
/// to display them on the console.
pub struct ConsoleReporter {
    span_rx: SpanReceiver,
    span_map: SpanMap,
}

impl View for ConsoleReporter {
    type V = Map<u64, SpanRecord>;

    closed spec fn view(&self) -> Map<u64, SpanRecord> {
        self.span_map@
    }
}

impl ConsoleReporter {
    /// A reporter that has received nothing yet.
    pub fn new(span_rx: SpanReceiver) -> (res: Self)
        ensures
            res@ == Map::<u64, SpanRecord>::empty(),
    {
        ConsoleReporter { span_rx, span_map: HashMap::new() }
    }

    /// Deletes all stored spans, and those that wait in the channel.
    pub fn clear(&mut self)
        ensures
            final(self)@ == Map::<u64, SpanRecord>::empty(),
    {
        let _ = self.drain();
        self.span_map.clear();
    }

    /// Takes the spans that wait in the channel into the map, and returns
    /// their number. One call takes no more than `u32::MAX` spans.
    pub fn drain(&mut self) -> (count: u32)
        ensures
            exists|received: Seq<SpanRecord>|
                received.len() == count && final(self)@ == #[trigger] absorbed(
                    old(self)@,
                    received,
                ),
    {
        let mut count: u32 = 0;
        let ghost mut received: Seq<SpanRecord> = Seq::empty();
        while count < u32::MAX
            invariant
                received.len() == count,
                self@ == absorbed(old(self)@, received),
            decreases u32::MAX - count,
        {
            match try_recv(&self.span_rx) {
                Some(span) => {
                    let kept = record(&span);
                    proof {
                        assert(received.push(kept).drop_last() =~= received);
                        received = received.push(kept);
                    }
                    absorb(&mut self.span_map, kept);
                    count += 1;
                },
                None => {
                    break ;
                },
            }
        }
        count
    }

    /// The lines by which the stored spans are printed as a tree.
    pub fn print(&self, only_events: bool) -> (lines: Vec<String>)
        ensures
            lines_of(lines@) == map_lines(self@, only_events),
    {
        print_span_map(&self.span_map, only_events)
    }
}

/// Creates a tracer, and a reporter that receives all its spans.
pub fn new_tracer_with_console_reporter() -> (res: (rustracing_jaeger::Tracer, ConsoleReporter))
    ensures
        res.1@ == Map::<u64, SpanRecord>::empty(),
{
    let (tracer, span_rx) = tracer_with_channel(1000);
    (tracer, ConsoleReporter::new(span_rx))
}

} // verus!
