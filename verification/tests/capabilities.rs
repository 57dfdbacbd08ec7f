//! Capability confinement: the sandbox capability set and the bridge never
//! exceed the declared permission set; an empty grant denies everything
//! gated.
use cognito_core::commands::CommandHandler;
use cognito_core::commands::CommandRegistry;
use cognito_core::commands::CommandResult;
use cognito_core::commands::CommandType;
use cognito_core::config::AppConfig;
use cognito_core::config::ConfigManager;
use cognito_core::manifest::Permission;
use cognito_core::sandbox::ExtensionApi;
use cognito_core::sandbox::PermissionDenied;
use cognito_core::sandbox::entry_file_confined;
use cognito_core::sandbox::sandbox_caps;

struct AcceptAll;

impl CommandHandler for AcceptAll {
    fn can_handle(&self, _command: &CommandType) -> bool {
        true
    }

    fn execute(&self, _command: &CommandType) -> CommandResult {
        CommandResult::Success
    }
}

fn every_command() -> Vec<CommandType> {
    vec![
        CommandType::OpenApplication {
            path: "/bin/app".to_string(),
        },
        CommandType::OpenFile {
            path: "/tmp/f".to_string(),
        },
        CommandType::OpenUrl {
            path: "https://example.com".to_string(),
        },
        CommandType::RunScript {
            script: "echo".to_string(),
            args: vec![],
        },
        CommandType::CopyToClipboard {
            text: "x".to_string(),
        },
    ]
}

#[test]
fn empty_grant_enables_no_capability_and_authorizes_no_command() {
    let caps = sandbox_caps(&vec![]);
    assert!(!caps.inherit_stdio);
    assert!(!caps.allow_network);
    assert!(!caps.allow_system);
    assert!(!caps.allow_clipboard);

    let api = ExtensionApi::new(vec![]);
    for command in every_command() {
        assert!(api.authorize_command(&command).is_err());
    }

    let mut registry: CommandRegistry<AcceptAll> = CommandRegistry::new();
    assert_eq!(
        api.register_command(&mut registry, "h".to_string(), AcceptAll),
        Err(PermissionDenied {
            needed: Permission::System
        })
    );

    let mut config = ConfigManager::new();
    assert!(api.get_config(&config).is_err());
    assert!(api.set_config(&mut config, AppConfig {}).is_err());
}

#[test]
fn an_extension_loaded_with_no_permissions_gets_nothing() {
    let text = "name = \"locked\"\nversion = \"1\"\nentry_file = \"m.wasm\"\npermissions = []\n";
    let mut manager = cognito_core::extensions::ExtensionManager::new();
    let pending = cognito_core::extensions::PendingExtension::prepare(text).unwrap();

    let caps = pending.caps();
    assert!(!caps.inherit_stdio);
    assert!(!caps.allow_network);
    assert!(!caps.allow_system);
    assert!(!caps.allow_clipboard);

    let id = manager.load_extension(pending, Ok(())).unwrap();
    let api = manager.get_api(id).unwrap();
    for command in every_command() {
        assert!(api.authorize_command(&command).is_err());
    }
}

#[test]
fn entry_artifacts_are_confined_to_their_directory() {
    assert!(entry_file_confined("main.wasm"));
    assert!(entry_file_confined("a.b.wasm"));
    assert!(!entry_file_confined(""));
    assert!(!entry_file_confined("."));
    assert!(!entry_file_confined(".."));
    assert!(!entry_file_confined("../evil.wasm"));
    assert!(!entry_file_confined("dir/inner.wasm"));
    assert!(!entry_file_confined("dir\\inner.wasm"));
}

#[test]
fn each_capability_follows_exactly_its_permission() {
    let caps = sandbox_caps(&vec![Permission::FileSystem, Permission::Clipboard]);
    assert!(caps.inherit_stdio);
    assert!(!caps.allow_network);
    assert!(!caps.allow_system);
    assert!(caps.allow_clipboard);
}

#[test]
fn authorization_follows_the_command_kind() {
    let api = ExtensionApi::new(vec![Permission::Network]);
    assert!(api
        .authorize_command(&CommandType::OpenUrl {
            path: "https://example.com".to_string(),
        })
        .is_ok());
    assert_eq!(
        api.authorize_command(&CommandType::OpenFile {
            path: "/tmp/f".to_string(),
        }),
        Err(PermissionDenied {
            needed: Permission::FileSystem
        })
    );
}

#[test]
fn system_grant_opens_the_gated_bridge_operations() {
    let api = ExtensionApi::new(vec![Permission::System]);

    let mut registry: CommandRegistry<AcceptAll> = CommandRegistry::new();
    assert_eq!(
        api.register_command(&mut registry, "h".to_string(), AcceptAll),
        Ok(())
    );
    let dispatched = registry
        .execute(&CommandType::RunScript {
            script: "echo".to_string(),
            args: vec![],
        })
        .unwrap();
    assert_eq!(dispatched, CommandResult::Success);

    let mut config = ConfigManager::new();
    assert_eq!(api.get_config(&config), Ok(AppConfig {}));
    assert_eq!(api.set_config(&mut config, AppConfig {}), Ok(()));
}
