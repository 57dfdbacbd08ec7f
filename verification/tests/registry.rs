//! Command registry behavior: dispatch to the first accepting handler,
//! last-write-wins registration, and the unhandled-command failure.
use cognito_core::commands::CommandHandler;
use cognito_core::commands::CommandRegistry;
use cognito_core::commands::CommandResult;
use cognito_core::commands::CommandType;

struct MockCommandHandler {
    can_handle_result: bool,
    execute_result: CommandResult,
}

impl CommandHandler for MockCommandHandler {
    fn can_handle(&self, _command: &CommandType) -> bool {
        self.can_handle_result
    }

    fn execute(&self, _command: &CommandType) -> CommandResult {
        self.execute_result.clone()
    }
}

#[test]
fn test_command_registry_execute_success() {
    let mut registry: CommandRegistry<MockCommandHandler> = CommandRegistry::new();
    let handler = MockCommandHandler {
        can_handle_result: true,
        execute_result: CommandResult::Success,
    };

    registry.register_handler("test_handler".to_string(), handler);

    let command = CommandType::OpenFile {
        path: "/test/file".to_string(),
    };

    let result = registry.execute(&command);
    assert!(result.is_ok());
    assert_eq!(result.unwrap(), CommandResult::Success);
}

#[test]
fn test_command_registry_execute_no_handler() {
    let registry: CommandRegistry<MockCommandHandler> = CommandRegistry::new();
    let command = CommandType::OpenFile {
        path: "/test/file".to_string(),
    };

    let result = registry.execute(&command);
    assert!(result.is_err());
    assert!(result
        .unwrap_err()
        .message()
        .contains("No handler found for command"));
}

#[test]
fn unhandled_error_names_the_command_variant() {
    let registry: CommandRegistry<MockCommandHandler> = CommandRegistry::new();
    let command = CommandType::CopyToClipboard {
        text: "hello".to_string(),
    };
    let err = registry.execute(&command).unwrap_err();
    assert_eq!(
        err.message(),
        "No handler found for command: CopyToClipboard"
    );
}

#[test]
fn dispatch_picks_first_acceptor_never_the_refuser() {
    let mut registry: CommandRegistry<MockCommandHandler> = CommandRegistry::new();
    registry.register_handler(
        "refuses".to_string(),
        MockCommandHandler {
            can_handle_result: false,
            execute_result: CommandResult::Error("first handler must never run".to_string()),
        },
    );
    registry.register_handler(
        "accepts".to_string(),
        MockCommandHandler {
            can_handle_result: true,
            execute_result: CommandResult::ShowNotification("second handler ran".to_string()),
        },
    );

    let command = CommandType::OpenUrl {
        path: "https://example.com".to_string(),
    };
    let result = registry.execute(&command).unwrap();
    assert_eq!(
        result,
        CommandResult::ShowNotification("second handler ran".to_string())
    );
}

#[test]
fn registration_order_decides_between_two_acceptors() {
    let mut registry: CommandRegistry<MockCommandHandler> = CommandRegistry::new();
    registry.register_handler(
        "first".to_string(),
        MockCommandHandler {
            can_handle_result: true,
            execute_result: CommandResult::ShowNotification("first".to_string()),
        },
    );
    registry.register_handler(
        "second".to_string(),
        MockCommandHandler {
            can_handle_result: true,
            execute_result: CommandResult::ShowNotification("second".to_string()),
        },
    );

    let command = CommandType::OpenApplication {
        path: "/bin/app".to_string(),
    };
    let result = registry.execute(&command).unwrap();
    assert_eq!(
        result,
        CommandResult::ShowNotification("first".to_string())
    );
}

#[test]
fn reregistering_an_id_replaces_in_place() {
    let mut registry: CommandRegistry<MockCommandHandler> = CommandRegistry::new();
    registry.register_handler(
        "slot".to_string(),
        MockCommandHandler {
            can_handle_result: true,
            execute_result: CommandResult::ShowNotification("old".to_string()),
        },
    );
    registry.register_handler(
        "slot".to_string(),
        MockCommandHandler {
            can_handle_result: true,
            execute_result: CommandResult::ShowNotification("new".to_string()),
        },
    );

    let command = CommandType::RunScript {
        script: "echo".to_string(),
        args: vec!["hi".to_string()],
    };
    let result = registry.execute(&command).unwrap();
    assert_eq!(result, CommandResult::ShowNotification("new".to_string()));
}
