//! The run orchestrator: drains the message channel, classifies each event by
//! severity, accumulates counts, and derives the final exit code.

use vstd::prelude::*;

use crate::events::{ChannelItem, ChannelItemView, EndReason, LogEventView, OutputLevel};

verus! {

/// Fatal conditions that propagate to the top-level caller. Conditions that a
/// component handles locally (a rejected client, a lost termination signal)
/// have no variant here: they never propagate.
#[derive(Clone, Copy, Debug, PartialEq, Eq, Structural)]
pub enum RunError {
    /// The target application process could not be spawned.
    LaunchFailed,
    /// The bridge listener could not be created.
    BindFailed,
    /// No valid client connected within the startup timeout.
    NoConnection,
    /// The channel closed without an end marker: a tooling failure, distinct
    /// from a run that completed and reported errors.
    TransportClosedAbnormally,
}

/// Final counts of a completed run, frozen after end-of-stream.
#[derive(Clone, Copy, Debug, PartialEq, Eq, Structural)]
pub struct RunOutcome {
    pub error_count: u64,
    pub warning_count: u64,
    pub print_count: u64,
    /// How the stream ended; never `NoConnection`, which is reported as a
    /// [`RunError`] instead.
    pub end: EndReason,
}

/// Exit code of a run that completed with no error-severity events.
pub const EXIT_SUCCESS: i32 = 0;
/// Exit code of a run that completed with at least one error-severity event.
pub const EXIT_FAILURE: i32 = 1;
/// Exit code when the tooling itself failed before a result was determined.
pub const EXIT_TOOLING_FAILURE: i32 = 2;

/// How many of `events` carry severity `level`.
pub open spec fn count_matching(events: Seq<LogEventView>, level: OutputLevel) -> nat
    decreases events.len(),
{
    if events.len() == 0 {
        0
    } else {
        count_matching(events.drop_last(), level) + (if events.last().level == level {
            1nat
        } else {
            0nat
        })
    }
}

pub proof fn lemma_count_le_len(events: Seq<LogEventView>, level: OutputLevel)
    ensures
        count_matching(events, level) <= events.len(),
    decreases events.len(),
{
    if events.len() > 0 {
        lemma_count_le_len(events.drop_last(), level);
    }
}

/// Whether an event increments the print count: informational and
/// print-severity events both do, and neither affects the exit code.
pub open spec fn counts_as_print(level: OutputLevel) -> bool {
    level == OutputLevel::Print || level == OutputLevel::Info
}

/// How many of `events` increment the print count.
pub open spec fn count_prints(events: Seq<LogEventView>) -> nat
    decreases events.len(),
{
    if events.len() == 0 {
        0
    } else {
        count_prints(events.drop_last()) + (if counts_as_print(events.last().level) {
            1nat
        } else {
            0nat
        })
    }
}

pub proof fn lemma_count_prints_le_len(events: Seq<LogEventView>)
    ensures
        count_prints(events) <= events.len(),
    decreases events.len(),
{
    if events.len() > 0 {
        lemma_count_prints_le_len(events.drop_last());
    }
}

/// The events a correct orchestrator processes: those before the first end
/// marker, in order. Anything after the end marker is ignored.
pub open spec fn events_before_end(items: Seq<ChannelItemView>) -> Seq<LogEventView>
    decreases items.len(),
{
    if items.len() == 0 {
        Seq::empty()
    } else {
        match items[0] {
            ChannelItemView::End(_) => Seq::empty(),
            ChannelItemView::Event(e) => seq![e] + events_before_end(items.skip(1)),
        }
    }
}

/// The reason carried by the first end marker, if any.
pub open spec fn first_end(items: Seq<ChannelItemView>) -> Option<EndReason>
    decreases items.len(),
{
    if items.len() == 0 {
        None
    } else {
        match items[0] {
            ChannelItemView::End(r) => Some(r),
            ChannelItemView::Event(_) => first_end(items.skip(1)),
        }
    }
}

/// Mathematical model of the orchestrator: the events counted so far, and
/// whether (and how) the stream has ended.
pub struct OrchestratorView {
    pub observed: Seq<LogEventView>,
    pub done: Option<EndReason>,
}

/// The orchestrator's initial state: nothing observed, stream open.
pub open spec fn orch_init() -> OrchestratorView {
    OrchestratorView { observed: Seq::empty(), done: None }
}

/// One transition of the orchestrator's state machine. After the end marker
/// the state is absorbing: further items change nothing.
pub open spec fn orch_step(s: OrchestratorView, item: ChannelItemView) -> OrchestratorView {
    if s.done is Some {
        s
    } else {
        match item {
            ChannelItemView::Event(e) => OrchestratorView {
                observed: s.observed.push(e),
                done: None,
            },
            ChannelItemView::End(r) => OrchestratorView { observed: s.observed, done: Some(r) },
        }
    }
}

/// The orchestrator's state after consuming `items` in order from state `s`.
pub open spec fn orch_run(s: OrchestratorView, items: Seq<ChannelItemView>) -> OrchestratorView
    decreases items.len(),
{
    if items.len() == 0 {
        s
    } else {
        orch_run(orch_step(s, items[0]), items.skip(1))
    }
}

pub proof fn lemma_orch_run_snoc(s: OrchestratorView, items: Seq<ChannelItemView>, item: ChannelItemView)
    ensures
        orch_run(s, items.push(item)) == orch_step(orch_run(s, items), item),
    decreases items.len(),
{
    let pushed = items.push(item);
    assert(pushed.len() > 0);
    assert(orch_run(s, pushed) == orch_run(orch_step(s, pushed[0]), pushed.skip(1)));
    if items.len() == 0 {
        assert(pushed.skip(1) =~= Seq::<ChannelItemView>::empty());
        assert(pushed[0] == item);
        assert(orch_run(orch_step(s, item), Seq::<ChannelItemView>::empty()) == orch_step(
            s,
            item,
        ));
    } else {
        assert(pushed.skip(1) =~= items.skip(1).push(item));
        assert(pushed[0] == items[0]);
        lemma_orch_run_snoc(orch_step(s, items[0]), items.skip(1), item);
        assert(orch_run(s, items) == orch_run(orch_step(s, items[0]), items.skip(1)));
    }
}

/// An ended orchestrator ignores every further item.
pub proof fn lemma_orch_run_absorbing(s: OrchestratorView, items: Seq<ChannelItemView>)
    requires
        s.done is Some,
    ensures
        orch_run(s, items) == s,
    decreases items.len(),
{
    if items.len() > 0 {
        lemma_orch_run_absorbing(s, items.skip(1));
    }
}

/// From an open state, a run observes exactly the events before the first end
/// marker, and ends with that marker's reason.
pub proof fn lemma_orch_run_open(s: OrchestratorView, items: Seq<ChannelItemView>)
    requires
        s.done is None,
    ensures
        orch_run(s, items).observed == s.observed + events_before_end(items),
        orch_run(s, items).done == first_end(items),
    decreases items.len(),
{
    if items.len() == 0 {
        assert(s.observed + events_before_end(items) =~= s.observed);
    } else {
        match items[0] {
            ChannelItemView::End(r) => {
                lemma_orch_run_absorbing(orch_step(s, items[0]), items.skip(1));
                assert(s.observed + events_before_end(items) =~= s.observed);
            },
            ChannelItemView::Event(e) => {
                lemma_orch_run_open(orch_step(s, items[0]), items.skip(1));
                assert(s.observed.push(e) + events_before_end(items.skip(1)) =~= s.observed + (
                seq![e] + events_before_end(items.skip(1))));
            },
        }
    }
}

/// For every sequence of log events followed by one end marker — and whatever
/// is (wrongly) sent after it — the orchestrator observes exactly those
/// events, so each final count is the exact tally of its severity, and it
/// records the marker's reason. Nothing after the end marker is processed.
pub proof fn lemma_orchestrator_tally(
    events: Seq<LogEventView>,
    reason: EndReason,
    trailing: Seq<ChannelItemView>,
)
    ensures
        ({
            let items = events.map_values(|e: LogEventView| ChannelItemView::Event(e)) + seq![
                ChannelItemView::End(reason),
            ] + trailing;
            &&& orch_run(orch_init(), items).observed == events
            &&& orch_run(orch_init(), items).done == Some(reason)
        }),
{
    let items = events.map_values(|e: LogEventView| ChannelItemView::Event(e)) + seq![
        ChannelItemView::End(reason),
    ] + trailing;
    lemma_orch_run_open(orch_init(), items);
    lemma_events_shape(events, reason, trailing);
    assert(Seq::<LogEventView>::empty() + events =~= events);
}

/// The channel items of a well-formed run have a fixed shape: the orchestrator
/// processes exactly the leading events and stops at the marker.
pub proof fn lemma_events_shape(
    events: Seq<LogEventView>,
    reason: EndReason,
    trailing: Seq<ChannelItemView>,
)
    ensures
        ({
            let items = events.map_values(|e: LogEventView| ChannelItemView::Event(e)) + seq![
                ChannelItemView::End(reason),
            ] + trailing;
            &&& events_before_end(items) == events
            &&& first_end(items) == Some(reason)
        }),
    decreases events.len(),
{
    let items = events.map_values(|e: LogEventView| ChannelItemView::Event(e)) + seq![
        ChannelItemView::End(reason),
    ] + trailing;
    if events.len() == 0 {
        assert(items[0] == ChannelItemView::End(reason));
        assert(events_before_end(items) =~= events);
    } else {
        let tail_events = events.skip(1);
        lemma_events_shape(tail_events, reason, trailing);
        assert(items[0] == ChannelItemView::Event(events[0]));
        assert(items.skip(1) =~= tail_events.map_values(
            |e: LogEventView| ChannelItemView::Event(e),
        ) + seq![ChannelItemView::End(reason)] + trailing);
        assert(seq![events[0]] + events_before_end(items.skip(1)) =~= events);
    }
}

/// The run orchestrator. Consumes channel items one at a time; counts are
/// exact tallies of the observed events' severities, and once the end marker
/// is seen further items are ignored.
pub struct Orchestrator {
    pub errors: u64,
    pub warnings: u64,
    pub prints: u64,
    pub done: Option<EndReason>,
    pub observed: Ghost<Seq<LogEventView>>,
}

impl Orchestrator {
    pub open spec fn view(&self) -> OrchestratorView {
        OrchestratorView { observed: self.observed@, done: self.done }
    }

    /// The counts are exactly the tallies of the observed events.
    pub open spec fn wf(&self) -> bool {
        &&& self.errors == count_matching(self.observed@, OutputLevel::Error)
        &&& self.warnings == count_matching(self.observed@, OutputLevel::Warning)
        &&& self.prints == count_prints(self.observed@)
    }

    pub fn new() -> (r: Orchestrator)
        ensures
            r.wf(),
            r@ == orch_init(),
    {
        Orchestrator {
            errors: 0,
            warnings: 0,
            prints: 0,
            done: None,
            observed: Ghost(Seq::empty()),
        }
    }

    /// Consume one channel item: count an event by its severity, or freeze on
    /// the end marker. Ignores everything once the stream has ended.
    pub fn observe(&mut self, item: &ChannelItem)
        requires
            old(self).wf(),
            old(self)@.observed.len() < u64::MAX,
        ensures
            final(self).wf(),
            final(self)@ == orch_step(old(self)@, item@),
    {
        proof {
            lemma_count_le_len(self.observed@, OutputLevel::Error);
            lemma_count_le_len(self.observed@, OutputLevel::Warning);
            lemma_count_prints_le_len(self.observed@);
        }
        if self.done.is_some() {
            return ;
        }
        match item {
            ChannelItem::End(r) => {
                self.done = Some(*r);
            },
            ChannelItem::Event(e) => {
                match e.level {
                    OutputLevel::Error => {
                        self.errors = self.errors + 1;
                    },
                    OutputLevel::Warning => {
                        self.warnings = self.warnings + 1;
                    },
                    OutputLevel::Print => {
                        self.prints = self.prints + 1;
                    },
                    OutputLevel::Info => {
                        self.prints = self.prints + 1;
                    },
                }
                proof {
                    self.observed@ = self.observed@.push(e@);
                    assert(self.observed@.drop_last() =~= old(self).observed@);
                }
            },
        }
    }

    /// Whether the end marker has been observed.
    pub fn is_done(&self) -> (r: bool)
        ensures
            r == (self@.done is Some),
    {
        self.done.is_some()
    }

    pub fn error_count(&self) -> (r: u64)
        requires
            self.wf(),
        ensures
            r == count_matching(self@.observed, OutputLevel::Error),
    {
        self.errors
    }

    pub fn warning_count(&self) -> (r: u64)
        requires
            self.wf(),
        ensures
            r == count_matching(self@.observed, OutputLevel::Warning),
    {
        self.warnings
    }

    pub fn print_count(&self) -> (r: u64)
        requires
            self.wf(),
        ensures
            r == count_prints(self@.observed),
    {
        self.prints
    }

    /// Freeze the run. A normal end (finish frame, or the lenient implicit
    /// completion on a clean disconnect) yields the final counts; an end
    /// marker carrying `NoConnection` and a stream that never ended are the
    /// two fatal tooling conditions, kept distinct from a content failure.
    pub fn finish(self) -> (r: Result<RunOutcome, RunError>)
        requires
            self.wf(),
        ensures
            (match self@.done {
                Some(EndReason::NoConnection) => r == Err::<RunOutcome, RunError>(
                    RunError::NoConnection,
                ),
                Some(reason) => r == Ok::<RunOutcome, RunError>(
                    RunOutcome {
                        error_count: count_matching(self@.observed, OutputLevel::Error) as u64,
                        warning_count: count_matching(self@.observed, OutputLevel::Warning) as u64,
                        print_count: count_prints(self@.observed) as u64,
                        end: reason,
                    },
                ),
                None => r == Err::<RunOutcome, RunError>(RunError::TransportClosedAbnormally),
            }),
    {
        match self.done {
            None => Err(RunError::TransportClosedAbnormally),
            Some(EndReason::NoConnection) => Err(RunError::NoConnection),
            Some(reason) => Ok(
                RunOutcome {
                    error_count: self.errors,
                    warning_count: self.warnings,
                    print_count: self.prints,
                    end: reason,
                },
            ),
        }
    }
}

/// The view of a whole channel transcript.
pub open spec fn seq_view(items: Seq<ChannelItem>) -> Seq<ChannelItemView> {
    items.map_values(|it: ChannelItem| it@)
}

/// Drain a complete channel transcript: the whole run of the orchestrator's
/// state machine as one call.
pub fn drain(items: &Vec<ChannelItem>) -> (r: Result<RunOutcome, RunError>)
    ensures
        ({
            let vs = seq_view(items@);
            match first_end(vs) {
                None => r == Err::<RunOutcome, RunError>(RunError::TransportClosedAbnormally),
                Some(EndReason::NoConnection) => r == Err::<RunOutcome, RunError>(
                    RunError::NoConnection,
                ),
                Some(reason) => r == Ok::<RunOutcome, RunError>(
                    RunOutcome {
                        error_count: count_matching(events_before_end(vs), OutputLevel::Error) as u64,
                        warning_count: count_matching(
                            events_before_end(vs),
                            OutputLevel::Warning,
                        ) as u64,
                        print_count: count_prints(events_before_end(vs)) as u64,
                        end: reason,
                    },
                ),
            }
        }),
{
    let ghost vs = seq_view(items@);
    let mut orch = Orchestrator::new();
    let mut i: usize = 0;
    while i < items.len()
        invariant
            0 <= i <= items.len(),
            orch.wf(),
            orch@ == orch_run(orch_init(), vs.take(i as int)),
            vs == seq_view(items@),
            vs.len() == items@.len(),
        decreases items.len() - i,
    {
        proof {
            lemma_orch_run_observed_bound(orch_init(), vs.take(i as int));
        }
        orch.observe(&items[i]);
        proof {
            assert(vs.take(i as int).push(vs[i as int]) =~= vs.take(i + 1));
            lemma_orch_run_snoc(orch_init(), vs.take(i as int), vs[i as int]);
        }
        i = i + 1;
    }
    proof {
        assert(vs.take(items@.len() as int) =~= vs);
        lemma_orch_run_open(orch_init(), vs);
        assert(Seq::<LogEventView>::empty() + events_before_end(vs) =~= events_before_end(vs));
    }
    orch.finish()
}

/// A run never observes more events than it consumed items.
pub proof fn lemma_orch_run_observed_bound(s: OrchestratorView, items: Seq<ChannelItemView>)
    ensures
        orch_run(s, items).observed.len() <= s.observed.len() + items.len(),
    decreases items.len(),
{
    if items.len() > 0 {
        lemma_orch_run_observed_bound(orch_step(s, items[0]), items.skip(1));
    }
}

/// The exit code derived from a completed run's counts: failure exactly when
/// at least one error-severity event occurred, success otherwise — whatever
/// the warning and print counts are.
pub open spec fn spec_exit_code(error_count: u64) -> i32 {
    if error_count > 0 {
        EXIT_FAILURE
    } else {
        EXIT_SUCCESS
    }
}

pub fn derive_exit_code(outcome: &RunOutcome) -> (r: i32)
    ensures
        r == spec_exit_code(outcome.error_count),
{
    if outcome.error_count > 0 {
        EXIT_FAILURE
    } else {
        EXIT_SUCCESS
    }
}

/// The derived exit code depends on the error count alone: two outcomes with
/// the same error count get the same exit code, whatever their warning and
/// print counts.
pub proof fn lemma_exit_code_ignores_warnings_and_prints(a: RunOutcome, b: RunOutcome)
    requires
        a.error_count == b.error_count,
    ensures
        spec_exit_code(a.error_count) == spec_exit_code(b.error_count),
{
}

/// The whole run's process exit code: the counts' verdict where the run
/// completed, the distinct tooling-failure code where it did not.
pub fn process_exit_code(result: &Result<RunOutcome, RunError>) -> (r: i32)
    ensures
        (match result {
            Ok(outcome) => r == spec_exit_code(outcome.error_count),
            Err(_) => r == EXIT_TOOLING_FAILURE,
        }),
{
    match result {
        Ok(outcome) => derive_exit_code(outcome),
        Err(_) => EXIT_TOOLING_FAILURE,
    }
}

} // verus!
