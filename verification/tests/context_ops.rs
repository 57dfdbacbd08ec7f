//! Context operations: the atomic query-change, activation, the
//! event-processing step, and the configuration round trip.
use cognito_core::Core;
use cognito_core::commands::Action;
use cognito_core::commands::CommandHandler;
use cognito_core::commands::CommandResult;
use cognito_core::commands::CommandType;
use cognito_core::config::AppConfig;
use cognito_core::config::ConfigManager;
use cognito_core::context::AppContext;
use cognito_core::events::AppEvent;
use cognito_core::events::RecvError;
use cognito_core::state::AppMode;
use cognito_core::state::Item;

struct OpenHandler;

impl CommandHandler for OpenHandler {
    fn can_handle(&self, command: &CommandType) -> bool {
        matches!(command, CommandType::OpenFile { .. })
    }

    fn execute(&self, _command: &CommandType) -> CommandResult {
        CommandResult::Success
    }
}

fn item(id: u128, title: &str, actions: Vec<Action>) -> Item {
    Item {
        id,
        title: title.to_string(),
        subtitle: None,
        icon: None,
        score: 100,
        actions,
    }
}

fn open_action(path: &str) -> Action {
    Action {
        id: "open".to_string(),
        title: "Open".to_string(),
        description: None,
        icon: None,
        command_type: CommandType::OpenFile {
            path: path.to_string(),
        },
    }
}

#[test]
fn handle_query_replaces_query_clears_items_and_resets_selection() {
    let mut ctx: AppContext<OpenHandler> = AppContext::new();
    ctx.state.items = vec![item(1, "stale", vec![])];
    ctx.state.selected_index = 1;

    ctx.handle_query("first".to_string());
    assert_eq!(ctx.get_query(), "first");
    assert!(ctx.state.items.is_empty());
    assert_eq!(ctx.state.selected_index, 0);

    ctx.state.items = vec![item(2, "stale again", vec![])];
    ctx.state.selected_index = 1;
    ctx.handle_query("second".to_string());
    assert_eq!(ctx.get_query(), "second");
    assert!(ctx.state.items.is_empty());
    assert_eq!(ctx.state.selected_index, 0);
}

#[test]
fn handle_query_publishes_the_change_to_subscribers() {
    let mut ctx: AppContext<OpenHandler> = AppContext::new();
    let mut receiver = ctx.event_bus.subscribe();

    ctx.handle_query("hello".to_string());
    assert_eq!(
        ctx.event_bus.recv(&mut receiver),
        Ok(AppEvent::QueryChanged("hello".to_string()))
    );
}

#[test]
fn activate_with_nothing_selected_fails_and_changes_nothing() {
    let mut ctx: AppContext<OpenHandler> = AppContext::new();
    let mut receiver = ctx.event_bus.subscribe();

    let err = ctx.activate_selected().unwrap_err();
    assert_eq!(err.message(), "nothing selected");
    assert_eq!(ctx.event_bus.recv(&mut receiver), Err(RecvError::Empty));
}

#[test]
fn activate_with_empty_action_list_fails_without_a_trace() {
    let mut ctx: AppContext<OpenHandler> = AppContext::new();
    ctx.state.items = vec![item(5, "bare", vec![])];
    ctx.state.selected_index = 0;
    let mut receiver = ctx.event_bus.subscribe();

    let err = ctx.activate_selected().unwrap_err();
    assert_eq!(err.message(), "no action available");

    assert_eq!(ctx.state.items.len(), 1);
    assert_eq!(ctx.state.items[0].title, "bare");
    assert_eq!(ctx.state.selected_index, 0);
    assert_eq!(ctx.event_bus.recv(&mut receiver), Err(RecvError::Empty));
}

#[test]
fn activate_dispatches_the_first_action_and_publishes_the_activation() {
    let mut ctx: AppContext<OpenHandler> = AppContext::new();
    ctx.command_registry
        .register_handler("open".to_string(), OpenHandler);
    ctx.state.items = vec![item(5, "doc", vec![open_action("/tmp/doc")])];
    ctx.state.selected_index = 0;
    let mut receiver = ctx.event_bus.subscribe();

    let result = ctx.activate_selected().unwrap();
    assert_eq!(result, CommandResult::Success);
    assert_eq!(
        ctx.event_bus.recv(&mut receiver),
        Ok(AppEvent::ItemActivated(5, open_action("/tmp/doc")))
    );
}

#[test]
fn activate_with_no_accepting_handler_reports_the_command() {
    let mut ctx: AppContext<OpenHandler> = AppContext::new();
    ctx.state.items = vec![item(
        5,
        "doc",
        vec![Action {
            id: "copy".to_string(),
            title: "Copy".to_string(),
            description: None,
            icon: None,
            command_type: CommandType::CopyToClipboard {
                text: "x".to_string(),
            },
        }],
    )];
    ctx.state.selected_index = 0;

    let err = ctx.activate_selected().unwrap_err();
    assert_eq!(
        err.message(),
        "No handler found for command: CopyToClipboard"
    );
}

#[test]
fn the_event_step_moves_selection_switches_mode_and_writes_results() {
    let mut core: Core<OpenHandler> = Core::new();

    let results = vec![
        item(1, "one", vec![]),
        item(2, "two", vec![]),
        item(3, "three", vec![]),
    ];
    core.handle_event(&AppEvent::ResultsUpdated(results));
    assert_eq!(core.context().state.items.len(), 3);

    core.handle_event(&AppEvent::MoveDown);
    assert_eq!(core.context().state.selected_index, 1);
    core.handle_event(&AppEvent::MoveDown);
    core.handle_event(&AppEvent::MoveDown);
    assert_eq!(core.context().state.selected_index, 2);

    core.handle_event(&AppEvent::MoveUp);
    assert_eq!(core.context().state.selected_index, 1);

    core.handle_event(&AppEvent::PageDown);
    assert_eq!(core.context().state.selected_index, 2);
    core.handle_event(&AppEvent::PageUp);
    assert_eq!(core.context().state.selected_index, 0);

    core.handle_event(&AppEvent::ItemSelected(3));
    assert_eq!(core.context().state.selected_index, 2);
    core.handle_event(&AppEvent::ItemSelected(42));
    assert_eq!(core.context().state.selected_index, 2);

    core.handle_event(&AppEvent::EnterCommandMode);
    assert_eq!(core.context().state.mode, AppMode::Command);
    core.handle_event(&AppEvent::ExitToSearch);
    assert_eq!(core.context().state.mode, AppMode::Search);
}

#[test]
fn the_configuration_round_trip_is_exact() {
    let manager = ConfigManager::new();
    assert_eq!(*manager.get(), AppConfig {});

    let persisted = manager.save();
    let reread = ConfigManager::from_text(&persisted).unwrap();
    assert_eq!(*reread.get(), *manager.get());

    let mut updated = reread;
    updated.update(AppConfig {});
    assert_eq!(*updated.get(), AppConfig {});

    assert!(ConfigManager::from_text("# comment\nkey = \"value\"\n").is_ok());
    assert!(ConfigManager::from_text("key = broken\n").is_err());
}
