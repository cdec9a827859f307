//! Events and the table of their handlers.
//!
//! The emitter does not hold the handlers themselves. A handler is known to
//! it by a number that the host chose; to emit an event is to say which
//! handlers the host has to call, and in which order.
use crate::reporter::{HostAction, Reporter};
use crate::test_result::{AssertionResult, ResultView};
use vstd::prelude::*;

verus! {

/// Event types that can be emitted within the testing system.
#[derive(Debug)]
pub enum AssertionEvent {
    /// A successful assertion
    Success(AssertionResult),
    /// A failed assertion
    Failure(AssertionResult),
    /// Test session completed
    SessionCompleted,
}

/// The mathematical content of an [`AssertionEvent`].
pub enum EventView {
    Success(ResultView),
    Failure(ResultView),
    SessionCompleted,
}

impl View for AssertionEvent {
    type V = EventView;

    open spec fn view(&self) -> EventView {
        match self {
            AssertionEvent::Success(r) => EventView::Success(r@),
            AssertionEvent::Failure(r) => EventView::Failure(r@),
            AssertionEvent::SessionCompleted => EventView::SessionCompleted,
        }
    }
}

impl Clone for AssertionEvent {
    fn clone(&self) -> (r: Self)
        ensures
            r@ == self@,
    {
        match self {
            AssertionEvent::Success(result) => AssertionEvent::Success(result.clone()),
            AssertionEvent::Failure(result) => AssertionEvent::Failure(result.clone()),
            AssertionEvent::SessionCompleted => AssertionEvent::SessionCompleted,
        }
    }
}

/// EventEmitter is responsible for managing event handlers and for saying
/// which of them an event goes to.
#[derive(Debug)]
pub struct EventEmitter {
    initialized: bool,
    success_handlers: Vec<usize>,
    failure_handlers: Vec<usize>,
    session_completed_handlers: Vec<usize>,
}

/// The mathematical content of an [`EventEmitter`]: the handlers of each
/// kind of event in the order of their registration.
pub struct EmitterView {
    pub initialized: bool,
    pub success_handlers: Seq<usize>,
    pub failure_handlers: Seq<usize>,
    pub session_completed_handlers: Seq<usize>,
}

/// The handlers that an event goes to, first to last.
pub open spec fn receivers(emitter: EmitterView, event: EventView) -> Seq<usize> {
    match event {
        EventView::Success(_) => emitter.success_handlers,
        EventView::Failure(_) => emitter.failure_handlers,
        EventView::SessionCompleted => emitter.session_completed_handlers,
    }
}

/// The event that an action of the reporter asks to be emitted: a result,
/// rendered or not, or the end of the session.
pub open spec fn announced(action: crate::reporter::ActionView) -> Option<EventView> {
    match action {
        crate::reporter::ActionView::EmitSuccess(r) => Some(EventView::Success(r)),
        crate::reporter::ActionView::EmitFailure(r) => Some(EventView::Failure(r)),
        crate::reporter::ActionView::SessionCompleted => Some(EventView::SessionCompleted),
        _ => None,
    }
}

impl View for EventEmitter {
    type V = EmitterView;

    closed spec fn view(&self) -> EmitterView {
        EmitterView {
            initialized: self.initialized,
            success_handlers: self.success_handlers@,
            failure_handlers: self.failure_handlers@,
            session_completed_handlers: self.session_completed_handlers@,
        }
    }
}

impl EventEmitter {
    /// An emitter without handlers, not initialized.
    pub fn new() -> (r: Self)
        ensures
            r@ == (EmitterView {
                initialized: false,
                success_handlers: Seq::empty(),
                failure_handlers: Seq::empty(),
                session_completed_handlers: Seq::empty(),
            }),
    {
        EventEmitter {
            initialized: false,
            success_handlers: Vec::new(),
            failure_handlers: Vec::new(),
            session_completed_handlers: Vec::new(),
        }
    }

    /// Initialize the event system. Doing so again changes nothing.
    pub fn init(&mut self)
        ensures
            final(self)@ == (EmitterView { initialized: true, ..old(self)@ }),
    {
        if !self.initialized {
            self.initialized = true;
        }
    }

    /// Whether the event system has been initialized.
    pub fn is_initialized(&self) -> (r: bool)
        ensures
            r == self@.initialized,
    {
        self.initialized
    }

    /// Emit an event: the handlers registered for its kind, each once, in
    /// the order of their registration.
    pub fn emit(&self, event: &AssertionEvent) -> (r: Vec<usize>)
        ensures
            r@ == receivers(self@, event@),
    {
        match event {
            AssertionEvent::Success(_) => self.success_handlers.clone(),
            AssertionEvent::Failure(_) => self.failure_handlers.clone(),
            AssertionEvent::SessionCompleted => self.session_completed_handlers.clone(),
        }
    }
}

/// Register a handler for success events.
pub fn on_success(emitter: &mut EventEmitter, handler: usize)
    ensures
        final(emitter)@ == (EmitterView {
            success_handlers: old(emitter)@.success_handlers.push(handler),
            ..old(emitter)@
        }),
{
    emitter.success_handlers.push(handler);
}

/// Register a handler for failure events.
pub fn on_failure(emitter: &mut EventEmitter, handler: usize)
    ensures
        final(emitter)@ == (EmitterView {
            failure_handlers: old(emitter)@.failure_handlers.push(handler),
            ..old(emitter)@
        }),
{
    emitter.failure_handlers.push(handler);
}

/// Register a handler for session completion events.
pub fn on_session_completed(emitter: &mut EventEmitter, handler: usize)
    ensures
        final(emitter)@ == (EmitterView {
            session_completed_handlers: old(emitter)@.session_completed_handlers.push(handler),
            ..old(emitter)@
        }),
{
    emitter.session_completed_handlers.push(handler);
}

/// Start the event system and make the reporter that goes with it.
pub fn initialize_event_system(emitter: &mut EventEmitter) -> (r: Reporter)
    ensures
        final(emitter)@ == (EmitterView { initialized: true, ..old(emitter)@ }),
        r.well_formed(),
        r@ == crate::reporter::initial(),
{
    emitter.init();
    Reporter::init()
}

/// The event that an action of the reporter asks to be emitted, if it asks
/// for one.
pub fn event_of(action: &HostAction) -> (r: Option<AssertionEvent>)
    ensures
        match r {
            Some(event) => announced(action@) == Some(event@),
            None => announced(action@) is None,
        },
{
    match action {
        HostAction::EmitSuccess(result) => Some(AssertionEvent::Success(result.clone())),
        HostAction::EmitFailure(result) => Some(AssertionEvent::Failure(result.clone())),
        HostAction::SessionCompleted => Some(AssertionEvent::SessionCompleted),
        _ => None,
    }
}

} // verus!
