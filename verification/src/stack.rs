//! A stack of active spans with guard-based lifetime tracking.
//!
//! Every pushed span is given an index, and a guard that holds this index.
//! Guards may be released in any order. An entry leaves the stack only when
//! no entry above it is still live, so the stack always ends at the highest
//! live index.

use crate::span::HSpan;
use std::borrow::Cow;
use std::collections::BTreeSet;
use vstd::prelude::*;

verus! {

broadcast use {vstd::std_specs::btree::group_btree_axioms, vstd::laws_cmp::group_laws_cmp};

/// One more than the highest live index below `bound`, or 0 if there is none.
pub open spec fn live_length(live: Set<usize>, bound: nat) -> nat
    decreases bound,
{
    if bound == 0 {
        0
    } else if live.contains((bound - 1) as usize) {
        bound
    } else {
        live_length(live, (bound - 1) as nat)
    }
}

/// The mathematical model of a span stack: the entries from the bottom up,
/// and the indices whose guards have not been released.
#[verifier::ext_equal]
pub struct StackView {
    pub spans: Seq<HSpan>,
    pub live: Set<usize>,
}

impl StackView {
    /// The stack with no entry and no guard.
    pub open spec fn empty() -> StackView {
        StackView { spans: Seq::empty(), live: Set::empty() }
    }

    /// Every live index names an entry, and the topmost entry is live.
    pub open spec fn wf(self) -> bool {
        &&& self.spans.len() <= usize::MAX
        &&& forall|i: usize| self.live.contains(i) ==> i < self.spans.len()
        &&& self.spans.len() == 0 || self.live.contains((self.spans.len() - 1) as usize)
    }

    /// The index that the next pushed span gets.
    pub open spec fn next_index(self) -> usize {
        self.spans.len() as usize
    }

    /// The stack after `span` was pushed.
    pub open spec fn pushed(self, span: HSpan) -> StackView {
        StackView { spans: self.spans.push(span), live: self.live.insert(self.next_index()) }
    }

    /// The stack after the guard of `index` was released: the index is no
    /// longer live, and the entries above the highest live index are gone.
    pub open spec fn released(self, index: usize) -> StackView {
        let live = self.live.remove(index);
        StackView {
            spans: self.spans.take(live_length(live, self.spans.len()) as int),
            live,
        }
    }
}

/// The stack of the active spans of one thread, and the indices whose
/// guards are still held.
pub struct SpanStack {
    stack: Vec<HSpan>,
    guards: BTreeSet<usize>,
}

impl View for SpanStack {
    type V = StackView;

    closed spec fn view(&self) -> StackView {
        StackView { spans: self.stack@, live: self.guards@ }
    }
}

/// `BTreeSet::last` of std: the greatest element of the set, which std
/// documents as the maximum of all its elements, or `None` for an empty set.
#[verifier::external_body]
fn greatest_index(set: &BTreeSet<usize>) -> (res: Option<usize>)
    ensures
        res is None ==> forall|i: usize| !set@.contains(i),
        res matches Some(m) ==> set@.contains(m) && forall|i: usize|
            set@.contains(i) ==> i <= m,
{
    set.last().copied()
}

/// The live length is one more than the greatest live index below the
/// bound: that index is live and no live index below the bound is greater;
/// it is 0 where no index below the bound is live.
pub proof fn lemma_live_length_bounds(live: Set<usize>, bound: nat)
    ensures
        live_length(live, bound) <= bound,
        live_length(live, bound) == 0 || live.contains((live_length(live, bound) - 1) as usize),
        forall|i: usize| live.contains(i) && i < bound ==> i < live_length(live, bound),
    decreases bound,
{
    if bound > 0 && !live.contains((bound - 1) as usize) {
        lemma_live_length_bounds(live, (bound - 1) as nat);
    }
}

impl SpanStack {
    /// Every live index names an entry, and the topmost entry is live.
    pub open spec fn wf(&self) -> bool {
        self@.wf()
    }

    /// The empty stack.
    pub fn new() -> (s: SpanStack)
        ensures
            s.wf(),
            s@ == StackView::empty(),
    {
        SpanStack { stack: Vec::new(), guards: BTreeSet::new() }
    }

    /// Puts `span` on top of the stack under the next index, which becomes
    /// live, and returns that index.
    pub fn push_span(&mut self, span: HSpan) -> (index: usize)
        requires
            old(self).wf(),
            old(self)@.spans.len() < usize::MAX,
        ensures
            final(self).wf(),
            index == old(self)@.next_index(),
            final(self)@ == old(self)@.pushed(span),
    {
        assert(old(self)@.live == old(self).guards@);
        let index = self.stack.len();
        self.guards.insert(index);
        self.stack.push(span);
        assert(self@.live == old(self)@.live.insert(index));
        assert(self@.spans == old(self)@.spans.push(span));
        index
    }

    /// Finds the size of the stack disregarding items on top which no longer
    /// have a live guard.
    pub fn live_length(&self) -> (n: usize)
        requires
            forall|i: usize| self@.live.contains(i) ==> i < self@.spans.len(),
        ensures
            n == live_length(self@.live, self@.spans.len()),
    {
        proof {
            lemma_live_length_bounds(self@.live, self@.spans.len());
            vstd::std_specs::vec::axiom_spec_len(&self.stack);
        }
        match greatest_index(&self.guards) {
            Some(i) => i + 1,
            None => 0,
        }
    }

    /// Releases `index`, and pops the entries above the highest index that
    /// is still live. Releasing an index that is not live changes nothing.
    pub fn prune(&mut self, index: usize)
        requires
            old(self).wf(),
        ensures
            final(self).wf(),
            final(self)@ == old(self)@.released(index),
    {
        self.guards.remove(&index);
        assert(self.guards@ == old(self).guards@.remove(index));
        assert(old(self)@.live == old(self).guards@);
        let new_len = self.live_length();
        proof {
            lemma_live_length_bounds(self@.live, old(self)@.spans.len());
        }
        while self.stack.len() > new_len
            invariant
                self.guards@ == old(self).guards@.remove(index),
                new_len <= self.stack@.len() <= old(self).stack@.len(),
                self.stack@ == old(self).stack@.take(self.stack@.len() as int),
            decreases self.stack@.len(),
        {
            self.stack.pop();
        }
        proof {
            lemma_live_length_bounds(self@.live, old(self)@.spans.len());
        }
    }

    /// Whether no span is on the stack.
    pub fn is_empty(&self) -> (b: bool)
        ensures
            b == (self@.spans.len() == 0),
    {
        self.stack.len() == 0
    }

    /// The number of spans on the stack.
    pub fn len(&self) -> (n: usize)
        ensures
            n == self@.spans.len(),
    {
        self.stack.len()
    }

    /// The entry on top of the stack, if there is one.
    pub fn peek(&self) -> (res: Option<&HSpan>)
        ensures
            res is Some <==> self@.spans.len() > 0,
            res matches Some(top) ==> *top == self@.spans.last(),
    {
        let n = self.stack.len();
        if n == 0 {
            None
        } else {
            Some(&self.stack[n - 1])
        }
    }

    /// The entry on top of a stack that is not empty.
    pub fn top_mut(&mut self) -> (res: &mut HSpan)
        requires
            old(self).wf(),
            old(self)@.spans.len() > 0,
        ensures
            *res == old(self)@.spans.last(),
            final(self)@.live == old(self)@.live,
            final(self)@.spans == old(self)@.spans.update(
                old(self)@.spans.len() - 1,
                *final(res),
            ),
    {
        let n = self.stack.len();
        &mut self.stack[n - 1]
    }

    /// The entry on top of the stack, if there is one, to work on.
    pub fn top(&mut self) -> (res: Option<&mut HSpan>)
        requires
            old(self).wf(),
        ensures
            old(self)@.spans.len() == 0 ==> res is None && final(self)@ == old(self)@,
            old(self)@.spans.len() > 0 ==> res is Some
                && *res->0 == old(self)@.spans.last()
                && final(self)@.live == old(self)@.live
                && final(self)@.spans == old(self)@.spans.update(
                    old(self)@.spans.len() - 1, *final(res->0)),
    {
        let n = self.stack.len();
        if n == 0 {
            None
        } else {
            Some(&mut self.stack[n - 1])
        }
    }
}

/// A guard that tracks the lifetime of one entry of the stack. The entry
/// leaves the stack when its guard has been released, together with the
/// guards of all entries pushed after it.
pub struct SpanStackGuard {
    index: usize,
}

impl SpanStackGuard {
    /// The index of the entry that this guard stands for.
    pub closed spec fn spec_index(&self) -> usize {
        self.index
    }

    /// Pushes `span` onto `stack` and returns the guard of the new entry.
    pub fn new(stack: &mut SpanStack, span: HSpan) -> (guard: Self)
        requires
            old(stack).wf(),
            old(stack)@.spans.len() < usize::MAX,
        ensures
            final(stack).wf(),
            final(stack)@ == old(stack)@.pushed(span),
            guard.spec_index() == old(stack)@.next_index(),
    {
        let index = stack.push_span(span);
        Self { index }
    }

    #[verifier::when_used_as_spec(spec_index)]
    pub fn index(&self) -> (index: usize)
        ensures
            index == self.spec_index(),
    {
        self.index
    }

    /// Gives up this guard's claim on its entry.
    pub fn release(self, stack: &mut SpanStack)
        requires
            old(stack).wf(),
        ensures
            final(stack).wf(),
            final(stack)@ == old(stack)@.released(self.spec_index()),
    {
        stack.prune(self.index);
    }
}

/// How an empty stack is treated where a span was expected on it.
#[derive(Clone, Copy, Debug, PartialEq, Eq, Structural)]
pub enum Mode {
    /// Panic when finding an empty stack. Useful for quickly discovering
    /// gaps in tracing coverage.
    Panic,
    /// Emit a warning and a full backtrace. This is noisy and slow.
    Backtrace,
    /// Ignore an empty stack, and go on with a span that records nothing.
    Noop,
}

/// What the caller is to do about an empty stack.
#[derive(Clone, Copy, Debug, PartialEq, Eq, Structural)]
pub enum EmptyStackAction {
    /// Stop the program.
    Abort,
    /// Log a warning with a backtrace.
    Warn,
    /// Nothing.
    Ignore,
}

/// The treatment of an empty stack that is in force.
pub const MODE: Mode = Mode::Noop;

/// What is to be done under `mode` where a span was expected on the stack
/// and none was there. It touches neither the stack nor the control flow of
/// the function that found the stack empty.
pub fn handle_empty_stack(mode: Mode) -> (action: EmptyStackAction)
    ensures
        action == match mode {
            Mode::Panic => EmptyStackAction::Abort,
            Mode::Backtrace => EmptyStackAction::Warn,
            Mode::Noop => EmptyStackAction::Ignore,
        },
{
    match mode {
        Mode::Panic => EmptyStackAction::Abort,
        Mode::Backtrace => EmptyStackAction::Warn,
        Mode::Noop => EmptyStackAction::Ignore,
    }
}

/// Pushes a span onto the stack. The entry is popped when the returned guard
/// has been released, as well as the guards of all spans pushed after it.
pub fn push_span(stack: &mut SpanStack, span: HSpan) -> (guard: SpanStackGuard)
    requires
        old(stack).wf(),
        old(stack)@.spans.len() < usize::MAX,
    ensures
        final(stack).wf(),
        final(stack)@ == old(stack)@.pushed(span),
        guard.spec_index() == old(stack)@.next_index(),
{
    SpanStackGuard::new(stack, span)
}

/// `f` may be called on the top of a stack that holds `spans`.
pub open spec fn accepts_top<A, F: FnOnce(&mut HSpan) -> A>(f: F, spans: Seq<HSpan>) -> bool {
    spans.len() > 0 ==> forall|top: &mut HSpan| *top == spans.last() ==> call_requires(f, (top,))
}

/// Applies `f` to the top of the stack. On an empty stack `f` is not called
/// and `None` is returned.
pub fn with_top<A, F: FnOnce(&mut HSpan) -> A>(stack: &mut SpanStack, f: F) -> (res: Option<A>)
    requires
        old(stack).wf(),
        accepts_top(f, old(stack)@.spans),
    ensures
        final(stack).wf(),
        final(stack)@.live == old(stack)@.live,
        old(stack)@.spans.len() == 0 ==> res is None && final(stack)@ == old(stack)@,
        final(stack)@.spans.len() == old(stack)@.spans.len(),
        final(stack)@.spans.drop_last() == old(stack)@.spans.drop_last(),
        old(stack)@.spans.len() > 0 ==> res is Some && exists|top: &mut HSpan|
            *top == old(stack)@.spans.last() && #[trigger] call_ensures(f, (top,), res->0)
                && *final(top) == final(stack)@.spans.last(),
{
    if stack.is_empty() {
        None
    } else {
        let top = stack.top_mut();
        let a = f(top);
        let res = Some(a);
        assert(res->0 == a);
        return res;
    }
}

/// Applies `f` to the top of the stack and pushes the span it returns. On an
/// empty stack `f` is not called and `None` is returned.
pub fn push_span_with<F: FnOnce(&mut HSpan) -> HSpan>(stack: &mut SpanStack, f: F) -> (res: Option<
    SpanStackGuard,
>)
    requires
        old(stack).wf(),
        old(stack)@.spans.len() < usize::MAX,
        accepts_top(f, old(stack)@.spans),
    ensures
        final(stack).wf(),
        old(stack)@.spans.len() == 0 ==> res is None && final(stack)@ == old(stack)@,
        old(stack)@.spans.len() > 0 ==> res is Some && res->0.spec_index() == old(
            stack,
        )@.next_index() && final(stack)@.live == old(stack)@.live.insert(old(stack)@.next_index())
            && final(stack)@.spans.len() == old(stack)@.spans.len() + 1
            && final(stack)@.spans.take(old(stack)@.spans.len() - 1) == old(
            stack,
        )@.spans.drop_last() && exists|top: &mut HSpan|
            *top == old(stack)@.spans.last() && #[trigger] call_ensures(
                f,
                (top,),
                final(stack)@.spans.last(),
            ) && *final(top) == final(stack)@.spans[old(stack)@.spans.len() - 1],
{
    match with_top(stack, f) {
        Some(span) => {
            let res = Some(SpanStackGuard::new(stack, span));
            assert(stack@.spans.last() == span);
            res
        },
        None => None,
    }
}

/// Applies `f` to the top of the stack, or to a span that records nothing
/// where the stack is empty.
pub fn with_top_or_null<A, F: FnOnce(&mut HSpan) -> A>(stack: &mut SpanStack, f: F) -> (res: A)
    requires
        old(stack).wf(),
        accepts_top(f, old(stack)@.spans),
        old(stack)@.spans.len() == 0 ==> forall|span: &mut HSpan| call_requires(f, (span,)),
    ensures
        final(stack).wf(),
        final(stack)@.live == old(stack)@.live,
        final(stack)@.spans.len() == old(stack)@.spans.len(),
        final(stack)@.spans.drop_last() == old(stack)@.spans.drop_last(),
        old(stack)@.spans.len() == 0 ==> final(stack)@ == old(stack)@ && exists|span: &mut HSpan|
            (*span).context() is None && #[trigger] call_ensures(f, (span,), res),
        old(stack)@.spans.len() > 0 ==> exists|top: &mut HSpan|
            *top == old(stack)@.spans.last() && #[trigger] call_ensures(f, (top,), res)
                && *final(top) == final(stack)@.spans.last(),
{
    if stack.is_empty() {
        let mut span = HSpan::noop();
        f(&mut span)
    } else {
        let top = stack.top_mut();
        f(top)
    }
}

/// A follower of the top of the stack, or of a span that records nothing
/// where the stack is empty. The follower is sampled exactly if the top is,
/// and belongs to its trace. The stack is left as it was.
pub fn top_follower<S: Into<Cow<'static, str>>>(stack: &SpanStack, name: S) -> (res: HSpan)
    ensures
        stack@.spans.len() == 0 ==> res.context() is None,
        stack@.spans.len() > 0 ==> (res.context() is Some <==> stack@.spans.last().context()
            is Some),
        res.context() matches Some(c) ==> stack@.spans.len() > 0 && c.trace_id
            == stack@.spans.last().context()->0.trace_id,
{
    match stack.peek() {
        Some(top) => top.follower(name),
        None => HSpan::noop().follower("noop"),
    }
}

/// Whether no span is on the stack.
pub fn is_empty(stack: &SpanStack) -> (b: bool)
    ensures
        b == (stack@.spans.len() == 0),
{
    stack.is_empty()
}

/// The stack after `spans` were pushed, one after the other.
pub open spec fn pushed_all(stack: StackView, spans: Seq<HSpan>) -> StackView
    decreases spans.len(),
{
    if spans.len() == 0 {
        stack
    } else {
        pushed_all(stack, spans.drop_last()).pushed(spans.last())
    }
}

/// The stack after the guards of `order` were released, one after the other.
pub open spec fn released_all(stack: StackView, order: Seq<usize>) -> StackView
    decreases order.len(),
{
    if order.len() == 0 {
        stack
    } else {
        released_all(stack, order.drop_last()).released(order.last())
    }
}

/// Pushing keeps a stack well formed, and the index it hands out is above
/// every live index: no index is in use twice.
pub proof fn lemma_pushed_wf(stack: StackView, span: HSpan)
    requires
        stack.wf(),
        stack.spans.len() < usize::MAX,
    ensures
        stack.pushed(span).wf(),
        forall|i: usize| stack.live.contains(i) ==> i < stack.next_index(),
{
}

/// After a release the stack ends at the highest index that is still live,
/// and is empty if none is: whatever the order of releases, the length is
/// one more than the greatest remaining live index, or 0.
pub proof fn lemma_released_wf(stack: StackView, index: usize)
    requires
        stack.wf(),
    ensures
        stack.released(index).wf(),
        stack.released(index).live == stack.live.remove(index),
        stack.released(index).spans.len() <= stack.spans.len(),
        stack.released(index).live =~= Set::<usize>::empty() ==> stack.released(index).spans.len()
            == 0,
{
    lemma_live_length_bounds(stack.live.remove(index), stack.spans.len());
}

/// No premature pop: releasing a live index below which another live index
/// stands leaves every entry of the stack in place.
pub proof fn lemma_release_below_top(stack: StackView, index: usize, above: usize)
    requires
        stack.wf(),
        stack.live.contains(above),
        index < above,
    ensures
        stack.released(index).spans == stack.spans,
{
    lemma_live_length_bounds(stack.live.remove(index), stack.spans.len());
}

/// Releasing a guard a second time, or one that was never handed out,
/// changes nothing.
pub proof fn lemma_release_twice(stack: StackView, index: usize)
    requires
        stack.wf(),
        !stack.live.contains(index),
    ensures
        stack.released(index) == stack,
{
    lemma_live_length_bounds(stack.live.remove(index), stack.spans.len());
    assert(stack.live.remove(index) =~= stack.live);
    assert(stack.released(index).spans =~= stack.spans);
}

/// From the empty stack, `n` pushes hand out the indices `0` to `n - 1` and
/// leave all of them live.
pub proof fn lemma_pushed_all(spans: Seq<HSpan>)
    requires
        spans.len() <= usize::MAX,
    ensures
        pushed_all(StackView::empty(), spans).wf(),
        pushed_all(StackView::empty(), spans).spans == spans,
        forall|i: usize|
            pushed_all(StackView::empty(), spans).live.contains(i) <==> i < spans.len(),
    decreases spans.len(),
{
    if spans.len() > 0 {
        lemma_pushed_all(spans.drop_last());
        assert(spans.drop_last().push(spans.last()) =~= spans);
    }
}

/// Release in any order: on a well-formed stack, after the guards of `order`
/// were released the stack is well formed, exactly the indices of `order`
/// have left the live set, and the stack ends at the highest live index.
pub proof fn lemma_released_all(stack: StackView, order: Seq<usize>)
    requires
        stack.wf(),
    ensures
        released_all(stack, order).wf(),
        forall|i: usize|
            #[trigger] released_all(stack, order).live.contains(i) <==> stack.live.contains(i)
                && !order.contains(i),
        released_all(stack, order).spans.len() == live_length(
            released_all(stack, order).live,
            stack.spans.len(),
        ),
        released_all(stack, order).spans == stack.spans.take(
            released_all(stack, order).spans.len() as int,
        ),
    decreases order.len(),
{
    if order.len() == 0 {
        lemma_live_length_bounds(stack.live, stack.spans.len());
        assert(stack.spans =~= stack.spans.take(stack.spans.len() as int));
    } else {
        let before = released_all(stack, order.drop_last());
        let index = order.last();
        lemma_released_all(stack, order.drop_last());
        lemma_released_wf(before, index);
        let after = before.released(index);
        assert(order.drop_last().push(index) =~= order);
        assert forall|i: usize| order.contains(i) <==> order.drop_last().contains(i)
            || i == index by {
            if order.contains(i) {
                let k = choose|k: int| 0 <= k < order.len() && order[k] == i;
                if k < order.len() - 1 {
                    assert(order.drop_last()[k] == i);
                }
            }
            if order.drop_last().contains(i) {
                let k = choose|k: int|
                    0 <= k < order.drop_last().len() && order.drop_last()[k] == i;
                assert(order[k] == i);
            }
            if i == index {
                assert(order[order.len() - 1] == i);
            }
        }
        assert forall|i: usize| after.live.contains(i) implies i < before.spans.len() && i
            < stack.spans.len() by {
            assert(before.live.contains(i));
        }
        lemma_live_length_unique(after.live, before.spans.len(), stack.spans.len());
        lemma_live_length_bounds(after.live, before.spans.len());
        let n = live_length(after.live, before.spans.len());
        assert(after.spans == before.spans.take(n as int));
        assert(before.spans.len() <= stack.spans.len());
        assert(after.spans.len() == n);
        assert(after.spans =~= stack.spans.take(n as int));
    }
}

/// The live length does not depend on the bound, as long as every live
/// index lies below both bounds.
pub proof fn lemma_live_length_unique(live: Set<usize>, a: nat, b: nat)
    requires
        a <= usize::MAX,
        b <= usize::MAX,
        forall|i: usize| live.contains(i) ==> i < a && i < b,
    ensures
        live_length(live, a) == live_length(live, b),
{
    lemma_live_length_bounds(live, a);
    lemma_live_length_bounds(live, b);
    let la = live_length(live, a);
    let lb = live_length(live, b);
    if la > 0 {
        assert(live.contains((la - 1) as usize));
    }
    if lb > 0 {
        assert(live.contains((lb - 1) as usize));
    }
}

/// The law of release in any order: after `spans` were pushed onto the
/// empty stack and all their guards released, each once and in whatever
/// order, the stack is empty.
pub proof fn lemma_release_any_order(spans: Seq<HSpan>, order: Seq<usize>)
    requires
        spans.len() <= usize::MAX,
        forall|i: usize| i < spans.len() ==> order.contains(i),
    ensures
        released_all(pushed_all(StackView::empty(), spans), order).spans.len() == 0,
        released_all(pushed_all(StackView::empty(), spans), order).live =~= Set::<usize>::empty(),
{
    let full = pushed_all(StackView::empty(), spans);
    lemma_pushed_all(spans);
    lemma_released_all(full, order);
    let end = released_all(full, order);
    assert forall|i: usize| !end.live.contains(i) by {
        if end.live.contains(i) {
            assert(full.live.contains(i));
        }
    }
    assert(end.live =~= Set::<usize>::empty());
    lemma_live_length_bounds(end.live, full.spans.len());
    if end.spans.len() > 0 {
        assert(end.live.contains((end.spans.len() - 1) as usize));
    }
}

} // verus!
