//! The application context: the single composition root and synchronization
//! point. It owns the shared state, the event bus, the configuration, the
//! extension manager and the command registry; every mutation of shared state
//! goes through a context operation that holds the context exclusively, so an
//! observer never sees a half-applied mutation.
use vstd::prelude::*;

use crate::commands::CommandError;
use crate::commands::CommandHandler;
use crate::commands::CommandRegistry;
use crate::commands::CommandResult;
use crate::commands::accepting_index;
use crate::config::ConfigManager;
use crate::events::AppEvent;
use crate::events::AppEventView;
use crate::events::EventBus;
use crate::extensions::ExtensionManager;
use crate::extensions::route_event;
use crate::state::AppMode;
use crate::state::AppState;
use crate::state::Item;
use crate::state::ItemView;

verus! {

/// How far one page jump moves the selection.
pub const PAGE_JUMP: usize = 10;

/// The selection one step up from `idx`.
pub open spec fn move_up(idx: usize) -> usize {
    if idx > 0 {
        (idx - 1) as usize
    } else {
        0
    }
}

/// The selection one step down from `idx` in a list of `len` items, clamped
/// to the last item.
pub open spec fn move_down(idx: usize, len: int) -> usize {
    if idx + 1 < len {
        (idx + 1) as usize
    } else if len > 0 {
        (len - 1) as usize
    } else {
        0
    }
}

/// The selection one page up from `idx`.
pub open spec fn page_up(idx: usize) -> usize {
    if idx >= PAGE_JUMP {
        (idx - PAGE_JUMP) as usize
    } else {
        0
    }
}

/// The selection one page down from `idx` in a list of `len` items, clamped
/// to the last item.
pub open spec fn page_down(idx: usize, len: int) -> usize {
    if len == 0 {
        0
    } else if idx + PAGE_JUMP < len {
        (idx + PAGE_JUMP) as usize
    } else {
        (len - 1) as usize
    }
}

/// `st` with its item list replaced (selection and the rest unchanged; an
/// index out of the new list's range reads as "no selection").
pub open spec fn state_with_items(
    st: crate::state::AppStateView,
    items: Seq<ItemView>,
) -> crate::state::AppStateView {
    crate::state::AppStateView { items, ..st }
}

/// `st` with its selection moved.
pub open spec fn state_with_selection(
    st: crate::state::AppStateView,
    idx: usize,
) -> crate::state::AppStateView {
    crate::state::AppStateView { selected_index: idx, ..st }
}

/// `st` with its mode switched.
pub open spec fn state_with_mode(
    st: crate::state::AppStateView,
    mode: AppMode,
) -> crate::state::AppStateView {
    crate::state::AppStateView { mode, ..st }
}

/// The position of the first item carrying `id`, if any.
pub open spec fn index_of_item(items: Seq<ItemView>, id: u128) -> Option<int>
    decreases items.len(),
{
    if items.len() == 0 {
        None
    } else if items[0].id == id {
        Some(0int)
    } else {
        match index_of_item(items.drop_first(), id) {
            Some(i) => Some(i + 1),
            None => None,
        }
    }
}

/// The relation one event-processing step leaves between the context before
/// and after it: the event is routed to the extensions it concerns, the
/// shared state reacts as the event asks, and everything else — bus history,
/// configuration, handlers — stays.
pub open spec fn handle_event_post<H: CommandHandler>(
    pre: AppContext<H>,
    post: AppContext<H>,
    event: AppEventView,
) -> bool {
    &&& post.config == pre.config
    &&& post.command_registry.handlers() == pre.command_registry.handlers()
    &&& post.event_bus.history() == pre.event_bus.history()
    &&& post.event_bus.capacity() == pre.event_bus.capacity()
    &&& post.event_bus.receiver_count() == pre.event_bus.receiver_count()
    &&& post.extension_manager.table() == route_event(pre.extension_manager.table(), event)
    &&& post.extension_manager.next_identifier() == pre.extension_manager.next_identifier()
    &&& {
        let st = pre.state@;
        let st2 = post.state@;
        match event {
            AppEventView::ResultsUpdated(items) => st2 == state_with_items(st, items),
            AppEventView::ItemSelected(id) => match index_of_item(st.items, id) {
                Some(i) => st2 == state_with_selection(st, i as usize),
                None => st2 == st,
            },
            AppEventView::MoveUp => st2 == state_with_selection(st, move_up(st.selected_index)),
            AppEventView::MoveDown => st2 == state_with_selection(
                st,
                move_down(st.selected_index, st.items.len() as int),
            ),
            AppEventView::PageUp => st2 == state_with_selection(st, page_up(st.selected_index)),
            AppEventView::PageDown => st2 == state_with_selection(
                st,
                page_down(st.selected_index, st.items.len() as int),
            ),
            AppEventView::EnterCommandMode => st2 == state_with_mode(st, AppMode::Command),
            AppEventView::ExitToSearch => st2 == state_with_mode(st, AppMode::Search),
            _ => st2 == st,
        }
    }
}

/// Why activating the current selection fails: no item is selected (an
/// out-of-range index means "no selection", never an error elsewhere), the
/// selected item carries no action, or no handler accepted the resolved
/// command.
#[derive(Debug)]
pub enum ActivateError {
    NothingSelected,
    NoActionAvailable,
    Dispatch(CommandError),
}

impl ActivateError {
    /// A user-facing description of the failure.
    pub fn message(&self) -> (r: String)
        ensures
            self matches ActivateError::NothingSelected ==> r@ == "nothing selected"@,
            self matches ActivateError::NoActionAvailable ==> r@ == "no action available"@,
            (self matches ActivateError::Dispatch(CommandError::Unhandled { command }) ==> r@
                == crate::commands::unhandled_message(command@)),
    {
        match self {
            ActivateError::NothingSelected => ("nothing selected").to_owned(),
            ActivateError::NoActionAvailable => ("no action available").to_owned(),
            ActivateError::Dispatch(e) => e.message(),
        }
    }
}

/// The relation activating the current selection leaves between the context
/// before and after it and the reported result: the state itself never
/// changes; with nothing selected or no action on the selected item the named
/// failure comes back and nothing is published; otherwise the first action's
/// command is dispatched to the first accepting handler, and only a
/// dispatched command publishes the item-activated event.
pub open spec fn activate_post<H: CommandHandler>(
    pre: AppContext<H>,
    post: AppContext<H>,
    r: Result<CommandResult, ActivateError>,
) -> bool {
    &&& post.state@ == pre.state@
    &&& post.config == pre.config
    &&& post.extension_manager.table() == pre.extension_manager.table()
    &&& post.extension_manager.next_identifier() == pre.extension_manager.next_identifier()
    &&& post.command_registry.handlers() == pre.command_registry.handlers()
    &&& post.event_bus.capacity() == pre.event_bus.capacity()
    &&& post.event_bus.receiver_count() == pre.event_bus.receiver_count()
    &&& {
        let st = pre.state@;
        let bus = pre.event_bus;
        if st.selected_index >= st.items.len() {
            r matches Err(ActivateError::NothingSelected) && post.event_bus.history()
                == bus.history()
        } else if st.items[st.selected_index as int].actions.len() == 0 {
            r matches Err(ActivateError::NoActionAvailable) && post.event_bus.history()
                == bus.history()
        } else {
            let item = st.items[st.selected_index as int];
            let action = item.actions[0];
            match accepting_index(pre.command_registry.handlers(), action.command_type) {
                None => (r matches Err(ActivateError::Dispatch(CommandError::Unhandled { command }))
                    && command@ == action.command_type) && post.event_bus.history()
                    == bus.history(),
                Some(i) => (r matches Ok(res) && res@ == pre.command_registry.handlers()[i].1.outcome(
                    action.command_type,
                )) && (bus.receiver_count() > 0 ==> post.event_bus.history() == bus.history().push(
                    AppEventView::ItemActivated(item.id, action),
                )) && (bus.receiver_count() == 0 ==> post.event_bus.history() == bus.history()),
            }
        }
    }
}

/// Empty-action activation law: whenever the selection is in range but the
/// selected item carries no action, activation fails with "no action
/// available", the shared state is exactly what it was, and nothing is
/// published.
pub proof fn law_empty_action_activation<H: CommandHandler>(
    pre: AppContext<H>,
    post: AppContext<H>,
    r: Result<CommandResult, ActivateError>,
)
    requires
        activate_post(pre, post, r),
        pre.state@.selected_index < pre.state@.items.len(),
        pre.state@.items[pre.state@.selected_index as int].actions.len() == 0,
    ensures
        r matches Err(ActivateError::NoActionAvailable),
        post.state@ == pre.state@,
        post.event_bus.history() == pre.event_bus.history(),
{
}

/// The composition root: one handle shared by every collaborator. Operations
/// on it are the only way shared state changes.
pub struct AppContext<H: CommandHandler> {
    pub state: AppState,
    pub event_bus: EventBus,
    pub config: ConfigManager,
    pub extension_manager: ExtensionManager,
    pub command_registry: CommandRegistry<H>,
}

impl<H: CommandHandler> AppContext<H> {
    /// Every owned component is internally consistent.
    pub open spec fn wf(&self) -> bool {
        &&& self.event_bus.wf()
        &&& self.extension_manager.wf()
        &&& self.command_registry.wf()
    }

    /// A fresh context: default state, empty bus, default configuration, no
    /// extensions, no handlers.
    pub fn new() -> (r: Self)
        ensures
            r.wf(),
            r.state@.query.len() == 0,
            r.state@.items.len() == 0,
            r.state@.selected_index == 0,
            r.state@.mode == AppMode::Search,
            r.event_bus.history().len() == 0,
            r.event_bus.receiver_count() == 0,
            r.event_bus.capacity() == crate::events::DEFAULT_EVENT_CAPACITY,
            r.extension_manager.table().len() == 0,
            r.extension_manager.next_identifier() == 0,
            r.command_registry.handlers().len() == 0,
    {
        AppContext {
            state: AppState::default(),
            event_bus: EventBus::new(),
            config: ConfigManager::new(),
            extension_manager: ExtensionManager::new(),
            command_registry: CommandRegistry::new(),
        }
    }

    /// A snapshot of the current query.
    pub fn get_query(&self) -> (r: String)
        ensures
            r@ == self.state@.query,
    {
        self.state.query.clone()
    }

    /// The query-change critical section: atomically replaces the query,
    /// clears the item list and resets the selection as one mutation — no
    /// observer ever sees a new query paired with stale items — then
    /// publishes a query-changed event. A bus with no live receivers drops
    /// the event; that is non-fatal for this refresh signal.
    pub fn handle_query(&mut self, query: String)
        requires
            old(self).wf(),
            old(self).event_bus.history().len() < usize::MAX,
        ensures
            final(self).wf(),
            final(self).state@.query == query@,
            final(self).state@.items.len() == 0,
            final(self).state@.selected_index == 0,
            final(self).state@.mode == old(self).state@.mode,
            final(self).config == old(self).config,
            final(self).extension_manager.table() == old(self).extension_manager.table(),
            final(self).extension_manager.next_identifier() == old(
                self,
            ).extension_manager.next_identifier(),
            final(self).command_registry.handlers() == old(self).command_registry.handlers(),
            final(self).event_bus.capacity() == old(self).event_bus.capacity(),
            final(self).event_bus.receiver_count() == old(self).event_bus.receiver_count(),
            old(self).event_bus.receiver_count() > 0 ==> final(self).event_bus.history() == old(self).event_bus.history().push(AppEventView::QueryChanged(query@)),
            old(self).event_bus.receiver_count() == 0 ==> final(self).event_bus.history() == old(self).event_bus.history(),
    {
        let announced = query.clone();
        self.state.query = query;
        self.state.items = Vec::new();
        self.state.selected_index = 0;
        let _ = self.event_bus.publish(AppEvent::QueryChanged(announced));
    }

    /// Resolves the selected item's first action, dispatches its command
    /// through the registry, and on a dispatched command publishes an
    /// item-activated event carrying the item identifier and the action
    /// taken. Fails with "nothing selected" when the index is out of range
    /// and with "no action available" when the item has none; in every
    /// failure the state is unchanged and nothing is published.
    pub fn activate_selected(&mut self) -> (r: Result<CommandResult, ActivateError>)
        requires
            old(self).wf(),
            old(self).event_bus.history().len() < usize::MAX,
        ensures
            final(self).wf(),
            activate_post(*old(self), *final(self), r),
    {
        let idx = self.state.selected_index;
        if idx >= self.state.items.len() {
            return Err(ActivateError::NothingSelected);
        }
        if self.state.items[idx].actions.len() == 0 {
            return Err(ActivateError::NoActionAvailable);
        }
        let item_id = self.state.items[idx].id;
        let action = self.state.items[idx].actions[0].clone();
        match self.command_registry.execute(&action.command_type) {
            Ok(res) => {
                let _ = self.event_bus.publish(AppEvent::ItemActivated(item_id, action));
                Ok(res)
            },
            Err(e) => Err(ActivateError::Dispatch(e)),
        }
    }

    /// One step of the event-processing loop: routes the event to the
    /// extensions it concerns and reacts to it by mutating shared state —
    /// results are written in, navigation moves the selection (clamped to
    /// the list), selecting names an item by identifier, and mode events
    /// switch the mode. Reactions publish nothing, so processing one event
    /// never feeds the loop another.
    pub fn handle_event(&mut self, event: &AppEvent)
        requires
            old(self).wf(),
        ensures
            final(self).wf(),
            handle_event_post(*old(self), *final(self), event@),
    {
        self.extension_manager.handle_event(event);
        match event {
            AppEvent::ResultsUpdated(_) => {
                let cloned = event.clone();
                if let AppEvent::ResultsUpdated(items) = cloned {
                    self.state.items = items;
                }
            },
            AppEvent::ItemSelected(id) => {
                match find_item_index(&self.state.items, *id) {
                    Some(i) => {
                        self.state.selected_index = i;
                    },
                    None => {},
                }
            },
            AppEvent::MoveUp => {
                if self.state.selected_index > 0 {
                    self.state.selected_index = self.state.selected_index - 1;
                } else {
                    self.state.selected_index = 0;
                }
            },
            AppEvent::MoveDown => {
                let len = self.state.items.len();
                let idx = self.state.selected_index;
                if idx < len && len - idx > 1 {
                    self.state.selected_index = idx + 1;
                } else if len > 0 {
                    self.state.selected_index = len - 1;
                } else {
                    self.state.selected_index = 0;
                }
            },
            AppEvent::PageUp => {
                if self.state.selected_index >= PAGE_JUMP {
                    self.state.selected_index = self.state.selected_index - PAGE_JUMP;
                } else {
                    self.state.selected_index = 0;
                }
            },
            AppEvent::PageDown => {
                let len = self.state.items.len();
                let idx = self.state.selected_index;
                if len == 0 {
                    self.state.selected_index = 0;
                } else if idx < len && len - idx > PAGE_JUMP {
                    self.state.selected_index = idx + PAGE_JUMP;
                } else {
                    self.state.selected_index = len - 1;
                }
            },
            AppEvent::EnterCommandMode => {
                self.state.mode = AppMode::Command;
            },
            AppEvent::ExitToSearch => {
                self.state.mode = AppMode::Search;
            },
            _ => {},
        }
    }
}

/// The position of the first item carrying `id` in an item list, if any.
fn find_item_index(items: &Vec<Item>, id: u128) -> (r: Option<usize>)
    ensures
        match r {
            Some(i) => index_of_item(items@.map_values(|it: Item| it@), id) == Some(i as int),
            None => index_of_item(items@.map_values(|it: Item| it@), id) is None,
        },
{
    let ghost views = items@.map_values(|it: Item| it@);
    let mut i: usize = 0;
    while i < items.len()
        invariant
            i <= views.len(),
            items@.map_values(|it: Item| it@) == views,
            forall|j: int| 0 <= j < i ==> views[j].id != id,
        decreases views.len() - i,
    {
        proof {
            assert(views[i as int].id == items@[i as int]@.id);
        }
        if items[i].id == id {
            proof {
                lemma_index_of_item_at(views, id, i as int);
            }
            return Some(i);
        }
        i = i + 1;
    }
    proof {
        lemma_index_of_item_none(views, id);
    }
    None
}

/// Where index `i` holds the first item carrying `id`, `index_of_item` finds
/// it.
pub proof fn lemma_index_of_item_at(items: Seq<ItemView>, id: u128, i: int)
    requires
        0 <= i < items.len(),
        items[i].id == id,
        forall|j: int| 0 <= j < i ==> items[j].id != id,
    ensures
        index_of_item(items, id) == Some(i),
    decreases i,
{
    if i > 0 {
        lemma_index_of_item_at(items.drop_first(), id, i - 1);
    }
}

/// Where no item carries `id`, `index_of_item` finds nothing.
pub proof fn lemma_index_of_item_none(items: Seq<ItemView>, id: u128)
    requires
        forall|j: int| 0 <= j < items.len() ==> items[j].id != id,
    ensures
        index_of_item(items, id) is None,
    decreases items.len(),
{
    if items.len() > 0 {
        lemma_index_of_item_none(items.drop_first(), id);
    }
}

} // verus!
