//! Command-and-search coordination core: shared application state, an event
//! bus with broadcast fan-out, a first-match command registry, and an
//! extension manager that loads untrusted extensions into a permission-gated
//! sandbox.
pub mod commands;
pub mod config;
pub mod context;
pub mod events;
pub mod extensions;
pub mod manifest;
pub mod sandbox;
pub mod state;

use vstd::prelude::*;

use crate::commands::CommandHandler;
use crate::context::AppContext;
use crate::context::handle_event_post;
use crate::events::AppEvent;
use crate::state::AppMode;

verus! {

/// The assembled runtime: it owns the application context and gives the
/// surrounding program one handle for it. The surrounding program drives the
/// event-processing loop by draining the bus and handing each event to
/// `handle_event`; everything slow (extension directories, sandboxes) also
/// lives out there and talks to the context through its operations.
pub struct Core<H: CommandHandler> {
    context: AppContext<H>,
}

impl<H: CommandHandler> Core<H> {
    /// The owned context.
    pub closed spec fn model(&self) -> AppContext<H> {
        self.context
    }

    /// A runtime around a fresh context.
    pub fn new() -> (r: Self)
        ensures
            r.model().wf(),
            r.model().state@.query.len() == 0,
            r.model().state@.items.len() == 0,
            r.model().state@.selected_index == 0,
            r.model().state@.mode == AppMode::Search,
            r.model().event_bus.history().len() == 0,
            r.model().event_bus.receiver_count() == 0,
            r.model().event_bus.capacity() == crate::events::DEFAULT_EVENT_CAPACITY,
            r.model().extension_manager.table().len() == 0,
            r.model().extension_manager.next_identifier() == 0,
            r.model().command_registry.handlers().len() == 0,
    {
        Core { context: AppContext::new() }
    }

    /// The shared context, read-only.
    pub fn context(&self) -> (r: &AppContext<H>)
        ensures
            *r == self.model(),
    {
        &self.context
    }

    /// The shared context, for the operations that mutate it.
    pub fn context_mut(&mut self) -> (r: &mut AppContext<H>)
        ensures
            *r == old(self).model(),
            final(self).model() == *final(r),
    {
        &mut self.context
    }

    /// One step of the event-processing loop: reacts to one consumed event.
    /// A failure while reacting stays local to that event; the loop goes on.
    pub fn handle_event(&mut self, event: &AppEvent)
        requires
            old(self).model().wf(),
        ensures
            final(self).model().wf(),
            handle_event_post(old(self).model(), final(self).model(), event@),
    {
        self.context.handle_event(event);
    }
}

} // verus!
