//! Extension manager lifecycle: all-or-nothing loads, unload-exactly-once,
//! routing, and the bridge reached through the manager.
use cognito_core::events::AppEvent;
use cognito_core::extensions::ExtensionManager;
use cognito_core::extensions::LoadError;
use cognito_core::extensions::PendingExtension;
use cognito_core::extensions::UnloadError;
use cognito_core::manifest::ManifestError;
use cognito_core::manifest::Permission;
use cognito_core::sandbox::SandboxFault;

fn manifest_text(name: &str) -> String {
    format!(
        "name = \"{}\"\nversion = \"0.1.0\"\nentry_file = \"main.wasm\"\npermissions = [\"FileSystem\"]\n",
        name
    )
}

#[test]
fn successful_load_inserts_and_returns_the_id() {
    let mut manager = ExtensionManager::new();
    let pending = PendingExtension::prepare(&manifest_text("demo")).unwrap();
    let id = manager.load_extension(pending, Ok(())).unwrap();

    assert_eq!(manager.extension_count(), 1);
    let m = manager.get_manifest(id).unwrap();
    assert_eq!(m.name, "demo");
    assert_eq!(m.permissions, vec![Permission::FileSystem]);
}

#[test]
fn corrupt_manifest_aborts_before_any_sandbox_is_built() {
    let err = PendingExtension::prepare("name = \n").unwrap_err();
    assert_eq!(err, ManifestError::Syntax);
}

#[test]
fn failed_initialization_leaves_the_table_unchanged() {
    let mut manager = ExtensionManager::new();
    let keeper = PendingExtension::prepare(&manifest_text("keeper")).unwrap();
    let keeper_id = manager.load_extension(keeper, Ok(())).unwrap();

    let trapping = PendingExtension::prepare(&manifest_text("traps")).unwrap();
    let err = manager
        .load_extension(trapping, Err(SandboxFault::InitTrap))
        .unwrap_err();
    assert_eq!(err, LoadError::Sandbox(SandboxFault::InitTrap));

    assert_eq!(manager.extension_count(), 1);
    assert!(manager.get_manifest(keeper_id).is_some());

    let missing = PendingExtension::prepare(&manifest_text("missing")).unwrap();
    let err = manager
        .load_extension(missing, Err(SandboxFault::MissingArtifact))
        .unwrap_err();
    assert_eq!(err, LoadError::Sandbox(SandboxFault::MissingArtifact));
    assert_eq!(manager.extension_count(), 1);
}

#[test]
fn unload_succeeds_exactly_once() {
    let mut manager = ExtensionManager::new();
    let pending = PendingExtension::prepare(&manifest_text("demo")).unwrap();
    let id = manager.load_extension(pending, Ok(())).unwrap();

    assert_eq!(manager.unload_extension(id), Ok(()));
    assert_eq!(manager.extension_count(), 0);
    assert!(manager.get_manifest(id).is_none());
    assert_eq!(manager.unload_extension(id), Err(UnloadError::NotFound));
}

#[test]
fn three_directories_with_one_malformed_manifest_leave_two_extensions() {
    let descriptors = vec![
        manifest_text("first"),
        "name = \"broken\nversion =\n".to_string(),
        manifest_text("third"),
    ];

    let mut manager = ExtensionManager::new();
    let mut failures = 0;
    for text in &descriptors {
        match PendingExtension::prepare(text) {
            Ok(pending) => {
                manager.load_extension(pending, Ok(())).unwrap();
            }
            Err(_) => failures += 1,
        }
    }

    assert_eq!(manager.extension_count(), 2);
    assert_eq!(failures, 1);
}

#[test]
fn query_changes_reach_every_extension_and_activations_only_the_owner() {
    let mut manager = ExtensionManager::new();
    let a = manager
        .load_extension(
            PendingExtension::prepare(&manifest_text("a")).unwrap(),
            Ok(()),
        )
        .unwrap();
    let b = manager
        .load_extension(
            PendingExtension::prepare(&manifest_text("b")).unwrap(),
            Ok(()),
        )
        .unwrap();

    assert_eq!(manager.register_item(a, 7), Ok(true));
    assert_eq!(manager.register_item(a, 7), Ok(false));
    assert_eq!(manager.register_item(b, 9), Ok(true));
    assert_eq!(manager.register_item(99, 1), Err(UnloadError::NotFound));

    let query = AppEvent::QueryChanged("q".to_string());
    manager.handle_event(&query);

    let activation = AppEvent::ItemActivated(
        9,
        cognito_core::commands::Action {
            id: "act".to_string(),
            title: "open".to_string(),
            description: None,
            icon: None,
            command_type: cognito_core::commands::CommandType::OpenFile {
                path: "/tmp/x".to_string(),
            },
        },
    );
    manager.handle_event(&activation);

    let selection = AppEvent::ItemSelected(9);
    manager.handle_event(&selection);

    let inbox_a = manager.take_inbox(a).unwrap();
    assert_eq!(inbox_a, vec![query.clone()]);

    let inbox_b = manager.take_inbox(b).unwrap();
    assert_eq!(inbox_b, vec![query, activation]);

    let drained = manager.take_inbox(b).unwrap();
    assert!(drained.is_empty());
}

#[test]
fn the_bridge_enumerates_what_was_registered() {
    let mut manager = ExtensionManager::new();
    let id = manager
        .load_extension(
            PendingExtension::prepare(&manifest_text("a")).unwrap(),
            Ok(()),
        )
        .unwrap();
    manager.register_item(id, 3).unwrap();
    manager.register_item(id, 5).unwrap();

    let api = manager.get_api(id).unwrap();
    assert_eq!(api.item_ids(), &vec![3u128, 5u128]);
    assert!(api.owns_item(5));
    assert!(!api.owns_item(4));
    assert!(manager.get_api(12345).is_none());
}
