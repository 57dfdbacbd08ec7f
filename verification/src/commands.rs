//! Typed commands, actions, and the first-match command registry.
use vstd::prelude::*;

use crate::state::Item;
use crate::state::ItemView;

verus! {

/// A typed, data-carrying request for a host-side effect, together with the
/// parameters it needs. This is a closed variant set.
#[derive(Debug, PartialEq)]
pub enum CommandType {
    OpenApplication { path: String },
    OpenFile { path: String },
    OpenUrl { path: String },
    RunScript { script: String, args: Vec<String> },
    CopyToClipboard { text: String },
}

/// Mathematical model of a `CommandType`.
pub ghost enum CommandTypeView {
    OpenApplication { path: Seq<char> },
    OpenFile { path: Seq<char> },
    OpenUrl { path: Seq<char> },
    RunScript { script: Seq<char>, args: Seq<Seq<char>> },
    CopyToClipboard { text: Seq<char> },
}

impl View for CommandType {
    type V = CommandTypeView;

    open spec fn view(&self) -> CommandTypeView {
        match self {
            CommandType::OpenApplication { path } => CommandTypeView::OpenApplication {
                path: path@,
            },
            CommandType::OpenFile { path } => CommandTypeView::OpenFile { path: path@ },
            CommandType::OpenUrl { path } => CommandTypeView::OpenUrl { path: path@ },
            CommandType::RunScript { script, args } => CommandTypeView::RunScript {
                script: script@,
                args: args@.map_values(|a: String| a@),
            },
            CommandType::CopyToClipboard { text } => CommandTypeView::CopyToClipboard {
                text: text@,
            },
        }
    }
}

impl Clone for CommandType {
    fn clone(&self) -> (r: Self)
        ensures
            r@ == self@,
    {
        match self {
            CommandType::OpenApplication { path } => CommandType::OpenApplication {
                path: path.clone(),
            },
            CommandType::OpenFile { path } => CommandType::OpenFile { path: path.clone() },
            CommandType::OpenUrl { path } => CommandType::OpenUrl { path: path.clone() },
            CommandType::RunScript { script, args } => {
                let mut cloned_args: Vec<String> = Vec::new();
                let mut i: usize = 0;
                while i < args.len()
                    invariant
                        i <= args.len(),
                        cloned_args@.len() == i as int,
                        forall|j: int| 0 <= j < i ==> cloned_args@[j]@ == args@[j]@,
                    decreases args.len() - i,
                {
                    cloned_args.push(args[i].clone());
                    i = i + 1;
                }
                proof {
                    assert(cloned_args@.map_values(|a: String| a@) =~= args@.map_values(
                        |a: String| a@,
                    ));
                }
                CommandType::RunScript { script: script.clone(), args: cloned_args }
            },
            CommandType::CopyToClipboard { text } => CommandType::CopyToClipboard {
                text: text.clone(),
            },
        }
    }
}

/// An immutable value object attached to an item: one way the item can be
/// activated, resolving to a typed command.
#[derive(Debug, PartialEq)]
pub struct Action {
    pub id: String,
    pub title: String,
    pub description: Option<String>,
    pub icon: Option<String>,
    pub command_type: CommandType,
}

/// Mathematical model of an `Action`.
pub ghost struct ActionView {
    pub id: Seq<char>,
    pub title: Seq<char>,
    pub description: Option<Seq<char>>,
    pub icon: Option<Seq<char>>,
    pub command_type: CommandTypeView,
}

/// Model of an optional string as an optional character sequence.
pub open spec fn opt_str_view(o: Option<String>) -> Option<Seq<char>> {
    match o {
        Some(s) => Some(s@),
        None => None,
    }
}

impl View for Action {
    type V = ActionView;

    open spec fn view(&self) -> ActionView {
        ActionView {
            id: self.id@,
            title: self.title@,
            description: opt_str_view(self.description),
            icon: opt_str_view(self.icon),
            command_type: self.command_type@,
        }
    }
}

/// Clones an optional string, keeping its model.
pub(crate) fn clone_opt_str(o: &Option<String>) -> (r: Option<String>)
    ensures
        opt_str_view(r) == opt_str_view(*o),
{
    match o {
        Some(s) => Some(s.clone()),
        None => None,
    }
}

impl Clone for Action {
    fn clone(&self) -> (r: Self)
        ensures
            r@ == self@,
    {
        Action {
            id: self.id.clone(),
            title: self.title.clone(),
            description: clone_opt_str(&self.description),
            icon: clone_opt_str(&self.icon),
            command_type: self.command_type.clone(),
        }
    }
}

/// What a command handler reports back: plain success, a replacement result
/// set to display, a user-facing notification, or an error message. Callers
/// must pattern-match on all four.
#[derive(Debug, PartialEq)]
pub enum CommandResult {
    Success,
    ShowResults(Vec<Item>),
    ShowNotification(String),
    Error(String),
}

/// Mathematical model of a `CommandResult`.
pub ghost enum CommandResultView {
    Success,
    ShowResults(Seq<ItemView>),
    ShowNotification(Seq<char>),
    Error(Seq<char>),
}

impl View for CommandResult {
    type V = CommandResultView;

    open spec fn view(&self) -> CommandResultView {
        match self {
            CommandResult::Success => CommandResultView::Success,
            CommandResult::ShowResults(items) => CommandResultView::ShowResults(
                items@.map_values(|it: Item| it@),
            ),
            CommandResult::ShowNotification(text) => CommandResultView::ShowNotification(text@),
            CommandResult::Error(text) => CommandResultView::Error(text@),
        }
    }
}

impl Clone for CommandResult {
    fn clone(&self) -> (r: Self)
        ensures
            r@ == self@,
    {
        match self {
            CommandResult::Success => CommandResult::Success,
            CommandResult::ShowResults(items) => {
                let mut cloned_items: Vec<Item> = Vec::new();
                let mut i: usize = 0;
                while i < items.len()
                    invariant
                        i <= items.len(),
                        cloned_items@.len() == i as int,
                        forall|j: int| 0 <= j < i ==> cloned_items@[j]@ == items@[j]@,
                    decreases items.len() - i,
                {
                    cloned_items.push(items[i].clone());
                    i = i + 1;
                }
                proof {
                    assert(cloned_items@.map_values(|it: Item| it@) =~= items@.map_values(
                        |it: Item| it@,
                    ));
                }
                CommandResult::ShowResults(cloned_items)
            },
            CommandResult::ShowNotification(text) => CommandResult::ShowNotification(text.clone()),
            CommandResult::Error(text) => CommandResult::Error(text.clone()),
        }
    }
}

/// A command handler: a collaborator that decides which commands it accepts
/// and computes a result for them. Implementors pick the two model functions
/// and prove the executable methods against them.
pub trait CommandHandler {
    /// Which commands this handler is willing to accept. A verified
    /// implementor overrides this model; left alone it says the handler
    /// accepts nothing.
    open spec fn can_handle_spec(&self, command: CommandTypeView) -> bool {
        false
    }

    /// The result this handler computes for a command. A verified implementor
    /// overrides this model; left alone it says the handler reports plain
    /// success.
    open spec fn outcome(&self, command: CommandTypeView) -> CommandResultView {
        CommandResultView::Success
    }

    /// Whether this handler accepts `command`.
    fn can_handle(&self, command: &CommandType) -> (r: bool)
        ensures
            r == self.can_handle_spec(command@),
    ;

    /// Runs the command, assuming this handler accepts it.
    fn execute(&self, command: &CommandType) -> (r: CommandResult)
        requires
            self.can_handle_spec(command@),
        ensures
            r@ == self.outcome(command@),
    ;
}

/// Why dispatch can fail: no registered handler accepted the command.
#[derive(Debug)]
pub enum CommandError {
    Unhandled { command: CommandType },
}

/// The message an unhandled command is reported with, naming the command
/// variant.
pub open spec fn unhandled_message(command: CommandTypeView) -> Seq<char> {
    match command {
        CommandTypeView::OpenApplication { .. } => "No handler found for command: OpenApplication"@,
        CommandTypeView::OpenFile { .. } => "No handler found for command: OpenFile"@,
        CommandTypeView::OpenUrl { .. } => "No handler found for command: OpenUrl"@,
        CommandTypeView::RunScript { .. } => "No handler found for command: RunScript"@,
        CommandTypeView::CopyToClipboard { .. } => "No handler found for command: CopyToClipboard"@,
    }
}

impl CommandError {
    /// A user-facing description of the failure.
    pub fn message(&self) -> (r: String)
        ensures
            self matches CommandError::Unhandled { command } ==> r@ == unhandled_message(command@),
    {
        match self {
            CommandError::Unhandled { command } => match command {
                CommandType::OpenApplication { .. } => (
                    "No handler found for command: OpenApplication"
                ).to_owned(),
                CommandType::OpenFile { .. } => ("No handler found for command: OpenFile").to_owned(),
                CommandType::OpenUrl { .. } => ("No handler found for command: OpenUrl").to_owned(),
                CommandType::RunScript { .. } => (
                    "No handler found for command: RunScript"
                ).to_owned(),
                CommandType::CopyToClipboard { .. } => (
                    "No handler found for command: CopyToClipboard"
                ).to_owned(),
            },
        }
    }
}

/// The position of the first handler in `hs` that accepts `command`, if any.
/// Registration order is observable behavior: the first accepting handler
/// wins.
pub open spec fn accepting_index<H: CommandHandler>(
    hs: Seq<(String, H)>,
    command: CommandTypeView,
) -> Option<int>
    decreases hs.len(),
{
    if hs.len() == 0 {
        None
    } else if hs[0].1.can_handle_spec(command) {
        Some(0int)
    } else {
        match accepting_index(hs.drop_first(), command) {
            Some(i) => Some(i + 1),
            None => None,
        }
    }
}

/// If `hs[k]` accepts `command` and no earlier handler does, then `hs[k]` is
/// the dispatch winner.
pub proof fn lemma_accepting_index_is_first<H: CommandHandler>(
    hs: Seq<(String, H)>,
    command: CommandTypeView,
    k: int,
)
    requires
        0 <= k < hs.len(),
        hs[k].1.can_handle_spec(command),
        forall|j: int| 0 <= j < k ==> !(#[trigger] hs[j].1.can_handle_spec(command)),
    ensures
        accepting_index(hs, command) == Some(k),
    decreases k,
{
    if k > 0 {
        lemma_accepting_index_is_first(hs.drop_first(), command, k - 1);
    }
}

/// If no handler in `hs` accepts `command`, dispatch has no winner.
pub proof fn lemma_accepting_index_none<H: CommandHandler>(
    hs: Seq<(String, H)>,
    command: CommandTypeView,
)
    requires
        forall|j: int| 0 <= j < hs.len() ==> !(#[trigger] hs[j].1.can_handle_spec(command)),
    ensures
        accepting_index(hs, command) is None,
    decreases hs.len(),
{
    if hs.len() > 0 {
        lemma_accepting_index_none(hs.drop_first(), command);
    }
}

/// Maps a typed command to the first registered handler that accepts it.
pub struct CommandRegistry<H: CommandHandler> {
    handlers: Vec<(String, H)>,
}

impl<H: CommandHandler> CommandRegistry<H> {
    /// The registered handlers, in registration order.
    pub closed spec fn handlers(&self) -> Seq<(String, H)> {
        self.handlers@
    }

    /// No identifier is registered twice.
    pub open spec fn wf(&self) -> bool {
        forall|i: int, j: int|
            0 <= i < j < self.handlers().len() ==> self.handlers()[i].0@ != self.handlers()[j].0@
    }

    /// An empty registry.
    pub fn new() -> (r: Self)
        ensures
            r.wf(),
            r.handlers().len() == 0,
    {
        CommandRegistry { handlers: Vec::new() }
    }

    /// Installs `handler` under `id`. A new identifier is appended, so later
    /// registrations dispatch after earlier ones; re-registering an existing
    /// identifier replaces that handler in place (last write wins), keeping
    /// its dispatch position.
    pub fn register_handler(&mut self, id: String, handler: H)
        requires
            old(self).wf(),
        ensures
            final(self).wf(),
            ({
                let hs = old(self).handlers();
                if exists|j: int| 0 <= j < hs.len() && hs[j].0@ == id@ {
                    final(self).handlers() == hs.update(
                        choose|j: int| 0 <= j < hs.len() && hs[j].0@ == id@,
                        (id, handler),
                    )
                } else {
                    final(self).handlers() == hs.push((id, handler))
                }
            }),
    {
        let ghost hs = self.handlers@;
        let mut i: usize = 0;
        while i < self.handlers.len()
            invariant
                i <= hs.len(),
                self.handlers@ == hs,
                old(self).handlers@ == hs,
                old(self).wf(),
                forall|j: int| 0 <= j < i ==> hs[j].0@ != id@,
            decreases hs.len() - i,
        {
            if self.handlers[i].0 == id {
                proof {
                    assert(hs[i as int].0@ == id@);
                    let w = choose|j: int| 0 <= j < hs.len() && hs[j].0@ == id@;
                    assert(hs[w].0@ == id@);
                    assert(w == i as int);
                }
                self.handlers[i] = (id, handler);
                return ;
            }
            i = i + 1;
        }
        let ghost id_view = id@;
        self.handlers.push((id, handler));
        proof {
            assert(self.handlers@[hs.len() as int].0@ == id_view);
            assert(forall|j: int| 0 <= j < hs.len() ==> self.handlers@[j] == hs[j]);
        }
    }

    /// Dispatches `command` to the first registered handler that accepts it
    /// and returns that handler's result; fails with an "unhandled command"
    /// error naming the command variant when no handler accepts it.
    pub fn execute(&self, command: &CommandType) -> (r: Result<CommandResult, CommandError>)
        ensures
            match accepting_index(self.handlers(), command@) {
                Some(i) => r matches Ok(res) && res@ == self.handlers()[i].1.outcome(command@),
                None => r matches Err(e) && (e matches CommandError::Unhandled { command: c }
                    && c@ == command@),
            },
    {
        let mut i: usize = 0;
        while i < self.handlers.len()
            invariant
                i <= self.handlers@.len(),
                forall|j: int| 0 <= j < i ==> !(#[trigger] self.handlers@[j].1.can_handle_spec(
                    command@,
                )),
            decreases self.handlers@.len() - i,
        {
            if self.handlers[i].1.can_handle(command) {
                let res = self.handlers[i].1.execute(command);
                proof {
                    lemma_accepting_index_is_first(self.handlers@, command@, i as int);
                }
                return Ok(res);
            }
            i = i + 1;
        }
        proof {
            lemma_accepting_index_none(self.handlers@, command@);
        }
        Err(CommandError::Unhandled { command: command.clone() })
    }
}

/// Dispatch determinism law: with two handlers registered where only the
/// second accepts the command, dispatch picks the second and never the first.
pub proof fn law_dispatch_picks_first_acceptor<H: CommandHandler>(
    first: (String, H),
    second: (String, H),
    command: CommandTypeView,
)
    requires
        !first.1.can_handle_spec(command),
        second.1.can_handle_spec(command),
    ensures
        accepting_index(seq![first, second], command) == Some(1int),
{
    lemma_accepting_index_is_first(seq![first, second], command, 1);
}

} // verus!
