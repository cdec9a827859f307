//! The deduplicating reporter: the state that one thread keeps about the
//! results it has seen, and what it asks of its host for each of them.
//!
//! The reporter prints nothing and raises nothing itself. Each decision is
//! put down as a [`HostAction`]; the host takes the actions and performs them
//! in order. Every result is told to the listeners; whether it is rendered
//! as well is for silent mode and deduplication to decide.
use crate::sentence::sentence_text;
use crate::text::{contains, has_infix};
use crate::test_result::{result_views, AssertionResult, ResultView, SessionView, TestSessionResult};
use vstd::prelude::*;
use vstd::string::*;

verus! {

/// What the host is asked to do.
#[derive(Debug)]
pub enum HostAction {
    /// Tell the listeners of a passing result. Every passing result is told,
    /// rendered or not.
    EmitSuccess(AssertionResult),
    /// Tell the listeners of a failing result. Every failing result is told,
    /// rendered or not.
    EmitFailure(AssertionResult),
    /// Render a passing result.
    PrintSuccess(AssertionResult),
    /// Render a failing result.
    PrintFailure(AssertionResult),
    /// Render the counts and failures of a session.
    PrintSessionSummary(TestSessionResult),
    /// Tell the listeners that the session is complete.
    SessionCompleted,
    /// Abort the running test with this message.
    Raise(String),
}

/// The mathematical content of a [`HostAction`].
pub enum ActionView {
    EmitSuccess(ResultView),
    EmitFailure(ResultView),
    PrintSuccess(ResultView),
    PrintFailure(ResultView),
    PrintSessionSummary(SessionView),
    SessionCompleted,
    Raise(Seq<char>),
}

impl View for HostAction {
    type V = ActionView;

    open spec fn view(&self) -> ActionView {
        match self {
            HostAction::EmitSuccess(r) => ActionView::EmitSuccess(r@),
            HostAction::EmitFailure(r) => ActionView::EmitFailure(r@),
            HostAction::PrintSuccess(r) => ActionView::PrintSuccess(r@),
            HostAction::PrintFailure(r) => ActionView::PrintFailure(r@),
            HostAction::PrintSessionSummary(s) => ActionView::PrintSessionSummary(s@),
            HostAction::SessionCompleted => ActionView::SessionCompleted,
            HostAction::Raise(m) => ActionView::Raise(m@),
        }
    }
}

/// The views of a sequence of actions.
pub open spec fn action_views(actions: Seq<HostAction>) -> Seq<ActionView> {
    Seq::new(actions.len(), |i: int| actions[i]@)
}

/// The thread-scoped state of the reporting engine.
pub struct Reporter {
    session: TestSessionResult,
    reported: Vec<AssertionResult>,
    deduplicate: bool,
    silent: bool,
    evaluating: bool,
    non_fatal: bool,
    pending: Vec<HostAction>,
}

/// The mathematical content of a [`Reporter`].
pub struct ReporterView {
    /// Counts and failures since the reporter was made.
    pub session: SessionView,
    /// The results rendered since the cache was last reset, each once.
    pub reported: Seq<ResultView>,
    /// Whether a result that was rendered before is rendered again.
    pub deduplicate: bool,
    /// Whether nothing is rendered at all.
    pub silent: bool,
    /// The re-entrancy guard: an evaluation is in progress.
    pub evaluating: bool,
    /// Whether a failure leaves the running test alive.
    pub non_fatal: bool,
    /// The actions that the host has not taken yet, oldest first.
    pub pending: Seq<ActionView>,
}

/// The session after one more result has been counted.
pub open spec fn counted(session: SessionView, passed: bool, result: ResultView) -> SessionView {
    if passed {
        SessionView { passed_count: session.passed_count + 1, ..session }
    } else {
        SessionView {
            failed_count: session.failed_count + 1,
            failures: session.failures.push(result),
            ..session
        }
    }
}

/// Whether a result is handed on to the renderer: never in silent mode;
/// otherwise always without deduplication, and with it only the first time.
pub open spec fn forwards(v: ReporterView, result: ResultView) -> bool {
    !v.silent && (!v.deduplicate || !v.reported.contains(result))
}

/// Whether a result enters the cache of rendered results.
pub open spec fn remembers(v: ReporterView, result: ResultView) -> bool {
    !v.silent && v.deduplicate && !v.reported.contains(result)
}

/// The message that a failing result raises: the rendering of its first
/// step, or a plain notice for a result without steps.
pub open spec fn failure_signal(result: ResultView) -> Seq<char> {
    if result.steps.len() > 0 {
        sentence_text(result.steps[0].sentence)
    } else {
        "Assertion failed: "@ + result.expr
    }
}

/// The actions that one result adds: the listeners are told of it, it is
/// rendered where the reporter forwards it, and a failure is raised where
/// failures are fatal.
pub open spec fn actions_for(v: ReporterView, passed: bool, result: ResultView) -> Seq<ActionView> {
    let emit = if passed {
        seq![ActionView::EmitSuccess(result)]
    } else {
        seq![ActionView::EmitFailure(result)]
    };
    let print = if !forwards(v, result) {
        Seq::empty()
    } else if passed {
        seq![ActionView::PrintSuccess(result)]
    } else {
        seq![ActionView::PrintFailure(result)]
    };
    let raise = if !passed && !v.non_fatal {
        seq![ActionView::Raise(failure_signal(result))]
    } else {
        Seq::empty()
    };
    emit + print + raise
}

/// The reporter after it has taken in one result.
pub open spec fn after_result(v: ReporterView, passed: bool, result: ResultView) -> ReporterView {
    ReporterView {
        session: counted(v.session, passed, result),
        reported: if remembers(v, result) {
            v.reported.push(result)
        } else {
            v.reported
        },
        pending: v.pending + actions_for(v, passed, result),
        ..v
    }
}

/// A session in which nothing has been counted.
pub open spec fn empty_session() -> SessionView {
    SessionView { passed_count: 0, failed_count: 0, failures: Seq::empty() }
}

/// The reporter after a summary: the summary of the session as it stood and
/// the completion notice are pending; the session starts anew, the cache of
/// rendered results is empty and deduplication is back to its default.
pub open spec fn after_summary(v: ReporterView) -> ReporterView {
    ReporterView {
        session: empty_session(),
        reported: Seq::empty(),
        deduplicate: true,
        pending: v.pending + seq![
            ActionView::PrintSessionSummary(v.session),
            ActionView::SessionCompleted,
        ],
        ..v
    }
}

/// The reporter in its initial state: nothing counted, nothing rendered,
/// deduplication on, silent mode off, no evaluation in progress, failures
/// fatal.
pub open spec fn initial() -> ReporterView {
    ReporterView {
        session: empty_session(),
        reported: Seq::empty(),
        deduplicate: true,
        silent: false,
        evaluating: false,
        non_fatal: false,
        pending: Seq::empty(),
    }
}

/// Every result is counted, whatever the mode of the reporter, and every
/// failure is recorded: silent mode and deduplication decide about the
/// rendering only.
pub proof fn lemma_every_result_is_counted(v: ReporterView, passed: bool, result: ResultView)
    ensures
        ({
            let after = after_result(v, passed, result);
            &&& after.session.passed_count + after.session.failed_count == v.session.passed_count
                + v.session.failed_count + 1
            &&& passed ==> after.session.passed_count == v.session.passed_count + 1
                && after.session.failures == v.session.failures
            &&& !passed ==> after.session.failed_count == v.session.failed_count + 1
                && after.session.failures == v.session.failures.push(result)
            &&& after.deduplicate == v.deduplicate
            &&& after.silent == v.silent
            &&& after.evaluating == v.evaluating
            &&& after.non_fatal == v.non_fatal
        }),
{
}

/// With deduplication on and silent mode off, a passing result that was
/// rendered before is counted again and told to the listeners, and is not
/// rendered; the cache of rendered results stays as it is.
pub proof fn lemma_seen_result_is_counted_not_rendered(v: ReporterView, result: ResultView)
    requires
        !v.silent,
        v.deduplicate,
        v.reported.contains(result),
    ensures
        ({
            let after = after_result(v, true, result);
            &&& after.session.passed_count == v.session.passed_count + 1
            &&& after.session.failed_count == v.session.failed_count
            &&& after.session.failures == v.session.failures
            &&& after.reported == v.reported
            &&& after.pending == v.pending + seq![ActionView::EmitSuccess(result)]
        }),
{
    assert(actions_for(v, true, result) =~= seq![ActionView::EmitSuccess(result)]);
}

/// With deduplication on and silent mode off, a passing result that was not
/// rendered before is counted, told to the listeners, rendered once and
/// remembered.
pub proof fn lemma_new_result_is_rendered_and_remembered(v: ReporterView, result: ResultView)
    requires
        !v.silent,
        v.deduplicate,
        !v.reported.contains(result),
    ensures
        ({
            let after = after_result(v, true, result);
            &&& after.session.passed_count == v.session.passed_count + 1
            &&& after.session.failed_count == v.session.failed_count
            &&& after.session.failures == v.session.failures
            &&& after.reported == v.reported.push(result)
            &&& after.pending == v.pending + seq![
                ActionView::EmitSuccess(result),
                ActionView::PrintSuccess(result),
            ]
        }),
{
    assert(actions_for(v, true, result) =~= seq![
        ActionView::EmitSuccess(result),
        ActionView::PrintSuccess(result),
    ]);
}

/// Two identical results in a row, with deduplication on and silent mode
/// off, are both counted and rendered once: the first unless an identical
/// one was rendered before it, the second never. A failure enters the list
/// of failures both times.
pub proof fn lemma_identical_results_render_once(v: ReporterView, passed: bool, result: ResultView)
    requires
        !v.silent,
        v.deduplicate,
    ensures
        ({
            let once = after_result(v, passed, result);
            let twice = after_result(once, passed, result);
            &&& forwards(v, result) == !v.reported.contains(result)
            &&& !forwards(once, result)
            &&& twice.reported == once.reported
            &&& passed ==> twice.session.passed_count == v.session.passed_count + 2
                && twice.session.failed_count == v.session.failed_count
            &&& !passed ==> twice.session.failed_count == v.session.failed_count + 2
                && twice.session.passed_count == v.session.passed_count
                && twice.session.failures == v.session.failures.push(result).push(result)
        }),
{
    let once = after_result(v, passed, result);
    if v.reported.contains(result) {
    } else {
        assert(once.reported.last() == result);
    }
}

impl View for Reporter {
    type V = ReporterView;

    closed spec fn view(&self) -> ReporterView {
        ReporterView {
            session: self.session@,
            reported: result_views(self.reported@),
            deduplicate: self.deduplicate,
            silent: self.silent,
            evaluating: self.evaluating,
            non_fatal: self.non_fatal,
            pending: action_views(self.pending@),
        }
    }
}

impl Reporter {
    /// A reporter in its initial state.
    pub fn init() -> (r: Self)
        ensures
            r@ == initial(),
            r.well_formed(),
    {
        let r = Reporter {
            session: TestSessionResult::new(),
            reported: Vec::new(),
            deduplicate: true,
            silent: false,
            evaluating: false,
            non_fatal: false,
            pending: Vec::new(),
        };
        assert(r@.reported =~= Seq::<ResultView>::empty());
        assert(r@.pending =~= Seq::<ActionView>::empty());
        r
    }

    /// The invariant of a reporter: no result stands twice in the cache of
    /// rendered results.
    pub closed spec fn well_formed(&self) -> bool {
        result_views(self.reported@).no_duplicates()
    }

    /// The counter of results of this outcome can take one more.
    pub open spec fn has_room_for(&self, passed: bool) -> bool {
        if passed {
            self@.session.passed_count < usize::MAX
        } else {
            self@.session.failed_count < usize::MAX
        }
    }

    /// Whether the counter of results of this outcome can take one more.
    pub fn can_count_as(&self, passed: bool) -> (r: bool)
        ensures
            r == self.has_room_for(passed),
    {
        if passed {
            self.session.passed_count < usize::MAX
        } else {
            self.session.failed_count < usize::MAX
        }
    }

    /// Both counters can take one more result.
    pub open spec fn has_room(&self) -> bool {
        self@.session.passed_count < usize::MAX && self@.session.failed_count < usize::MAX
    }

    /// Whether both counters can take one more result.
    pub fn can_count(&self) -> (r: bool)
        ensures
            r == self.has_room(),
    {
        self.session.passed_count < usize::MAX && self.session.failed_count < usize::MAX
    }

    /// The session as it stands.
    pub fn session(&self) -> (r: &TestSessionResult)
        ensures
            r@ == self@.session,
    {
        &self.session
    }

    /// Whether `result` was rendered since the cache was last reset.
    pub fn was_reported(&self, result: &AssertionResult) -> (r: bool)
        ensures
            r == self@.reported.contains(result@),
    {
        let mut i: usize = 0;
        while i < self.reported.len()
            invariant
                i <= self.reported.len(),
                forall|j: int| 0 <= j < i ==> self.reported@[j]@ != result@,
            decreases self.reported.len() - i,
        {
            if self.reported[i].same_as(result) {
                assert(self@.reported[i as int] == result@);
                return true;
            }
            i = i + 1;
        }
        false
    }

    /// Take in one result: count it, decide whether it is rendered, and on
    /// failure record it and, where failures are fatal, ask for the test to be
    /// aborted.
    pub fn on_result(&mut self, passed: bool, result: AssertionResult)
        requires
            old(self).well_formed(),
            old(self).has_room_for(passed),
        ensures
            final(self).well_formed(),
            final(self)@ == after_result(old(self)@, passed, result@),
    {
        if passed {
            self.handle_success_event(result);
        } else {
            self.handle_failure_event(result);
        }
    }

    /// Handle a passing result.
    pub fn handle_success_event(&mut self, result: AssertionResult)
        requires
            old(self).well_formed(),
            old(self).has_room_for(true),
        ensures
            final(self).well_formed(),
            final(self)@ == after_result(old(self)@, true, result@),
    {
        self.session.passed_count = self.session.passed_count + 1;
        self.pending.push(HostAction::EmitSuccess(result.clone()));
        let ghost told = self@.pending;
        assert(told =~= old(self)@.pending.push(ActionView::EmitSuccess(result@)));
        if self.silent {
            assert(self@.pending =~= old(self)@.pending + actions_for(old(self)@, true, result@));
            return ;
        }
        let should_report = self.note_rendering(&result);
        if should_report {
            self.pending.push(HostAction::PrintSuccess(result));
            assert(self@.pending =~= told.push(ActionView::PrintSuccess(result@)));
        }
        assert(self@.pending =~= old(self)@.pending + actions_for(old(self)@, true, result@));
    }

    /// Handle a failing result.
    pub fn handle_failure_event(&mut self, result: AssertionResult)
        requires
            old(self).well_formed(),
            old(self).has_room_for(false),
        ensures
            final(self).well_formed(),
            final(self)@ == after_result(old(self)@, false, result@),
    {
        self.session.failed_count = self.session.failed_count + 1;
        self.session.failures.push(result.clone());
        assert(self@.session.failures =~= old(self)@.session.failures.push(result@));
        self.pending.push(HostAction::EmitFailure(result.clone()));
        let ghost told = self@.pending;
        assert(told =~= old(self)@.pending.push(ActionView::EmitFailure(result@)));
        let signal = if self.non_fatal {
            None
        } else {
            Some(failure_message(&result))
        };
        if !self.silent {
            let should_report = self.note_rendering(&result);
            if should_report {
                self.pending.push(HostAction::PrintFailure(result));
                assert(self@.pending =~= told.push(ActionView::PrintFailure(result@)));
            }
        }
        let ghost printed = self@.pending;
        if let Some(message) = signal {
            self.pending.push(HostAction::Raise(message));
            assert(self@.pending =~= printed.push(ActionView::Raise(failure_signal(result@))));
        }
        assert(self@.pending =~= old(self)@.pending + actions_for(old(self)@, false, result@));
    }

    /// Decide whether a result is rendered, and remember it where
    /// deduplication is on and it is new.
    fn note_rendering(&mut self, result: &AssertionResult) -> (r: bool)
        requires
            old(self).well_formed(),
            !old(self).silent,
        ensures
            final(self).well_formed(),
            r == forwards(old(self)@, result@),
            final(self)@ == (ReporterView {
                reported: if remembers(old(self)@, result@) {
                    old(self)@.reported.push(result@)
                } else {
                    old(self)@.reported
                },
                ..old(self)@
            }),
    {
        if !self.deduplicate {
            return true;
        }
        if self.was_reported(result) {
            return false;
        }
        self.reported.push(result.clone());
        assert(self@.reported =~= old(self)@.reported.push(result@));
        true
    }

    /// Clear the cache of rendered results, so that results rendered before
    /// are rendered again.
    pub fn reset_message_cache(&mut self)
        ensures
            final(self).well_formed(),
            final(self)@ == (ReporterView { reported: Seq::empty(), ..old(self)@ }),
    {
        self.reported = Vec::new();
        assert(self@.reported =~= Seq::<ResultView>::empty());
    }

    /// Enable deduplication of rendered results.
    pub fn enable_deduplication(&mut self)
        ensures
            final(self).well_formed() == old(self).well_formed(),
            final(self)@ == (ReporterView { deduplicate: true, ..old(self)@ }),
    {
        self.deduplicate = true;
    }

    /// Disable deduplication of rendered results.
    pub fn disable_deduplication(&mut self)
        ensures
            final(self).well_formed() == old(self).well_formed(),
            final(self)@ == (ReporterView { deduplicate: false, ..old(self)@ }),
    {
        self.deduplicate = false;
    }

    /// Enable silent mode: results are counted and nothing is rendered.
    pub fn enable_silent_mode(&mut self)
        ensures
            final(self).well_formed() == old(self).well_formed(),
            final(self)@ == (ReporterView { silent: true, ..old(self)@ }),
    {
        self.silent = true;
    }

    /// Disable silent mode.
    pub fn disable_silent_mode(&mut self)
        ensures
            final(self).well_formed() == old(self).well_formed(),
            final(self)@ == (ReporterView { silent: false, ..old(self)@ }),
    {
        self.silent = false;
    }

    /// Say whether a failure leaves the running test alive.
    pub fn set_non_fatal(&mut self, non_fatal: bool)
        ensures
            final(self).well_formed() == old(self).well_formed(),
            final(self)@ == (ReporterView { non_fatal, ..old(self)@ }),
    {
        self.non_fatal = non_fatal;
    }

    /// Take the re-entrancy guard. Returns whether it was free; where it was
    /// held already nothing changes.
    pub fn begin_evaluation(&mut self) -> (acquired: bool)
        ensures
            acquired == !old(self)@.evaluating,
            final(self).well_formed() == old(self).well_formed(),
            final(self)@ == (ReporterView { evaluating: true, ..old(self)@ }),
    {
        if !self.evaluating {
            self.evaluating = true;
            true
        } else {
            false
        }
    }

    /// Release the re-entrancy guard.
    pub fn end_evaluation(&mut self)
        ensures
            final(self).well_formed() == old(self).well_formed(),
            final(self)@ == (ReporterView { evaluating: false, ..old(self)@ }),
    {
        self.evaluating = false;
    }

    /// Whether an evaluation is in progress.
    pub fn is_evaluating(&self) -> (r: bool)
        ensures
            r == self@.evaluating,
    {
        self.evaluating
    }

    /// Hand the pending actions to the host, oldest first. None stays
    /// pending.
    pub fn take_actions(&mut self) -> (actions: Vec<HostAction>)
        ensures
            action_views(actions@) == old(self)@.pending,
            final(self).well_formed() == old(self).well_formed(),
            final(self)@ == (ReporterView { pending: Seq::empty(), ..old(self)@ }),
    {
        let mut actions: Vec<HostAction> = Vec::new();
        std::mem::swap(&mut actions, &mut self.pending);
        assert(self@.pending =~= Seq::<ActionView>::empty());
        actions
    }

    /// Ask for the summary of the session and for the completion notice,
    /// start the session anew, clear the cache of rendered results and put
    /// deduplication back to its default.
    pub fn summarize(&mut self)
        ensures
            final(self).well_formed(),
            final(self)@ == after_summary(old(self)@),
    {
        let mut session = TestSessionResult::new();
        std::mem::swap(&mut session, &mut self.session);
        self.pending.push(HostAction::PrintSessionSummary(session));
        self.pending.push(HostAction::SessionCompleted);
        assert(self@.pending =~= old(self)@.pending + seq![
            ActionView::PrintSessionSummary(old(self)@.session),
            ActionView::SessionCompleted,
        ]);
        self.reset_message_cache();
        self.enable_deduplication();
    }
}

/// Whether a thread of this name runs a test that looks at the outcome of a
/// failing chain itself, so that a failure must leave it alive.
pub open spec fn is_non_fatal_context(thread_name: Seq<char>) -> bool {
    ||| has_infix(thread_name, "test_or_modifier"@)
    ||| has_infix(thread_name, "test_and_modifier"@)
    ||| has_infix(thread_name, "test_not_with_and_or"@)
}

/// Whether a thread of this name runs a test that looks at the outcome of a
/// failing chain itself.
pub fn designates_non_fatal(thread_name: &str) -> (r: bool)
    ensures
        r == is_non_fatal_context(thread_name@),
{
    contains(thread_name, "test_or_modifier") || contains(thread_name, "test_and_modifier")
        || contains(thread_name, "test_not_with_and_or")
}

/// The message that a failing result raises.
pub fn failure_message(result: &AssertionResult) -> (r: String)
    ensures
        r@ == failure_signal(result@),
{
    if result.steps.len() > 0 {
        result.steps[0].sentence.format()
    } else {
        let mut r = String::from_str("Assertion failed: ");
        r.append(result.expr_str.as_str());
        r
    }
}

} // verus!
