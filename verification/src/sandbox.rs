//! The capability side of the sandbox: what an extension's declared
//! permissions grant it, and the narrow host-API bridge a sandboxed instance
//! gets.
//!
//! The capability set is computed purely as a function of the declared
//! permissions, never from artifact inspection, and the bridge itself
//! respects the granted set: an operation whose capability was not granted is
//! refused. Host state is never handed into the guest; everything the guest
//! can do to the host goes through the bridge.
use vstd::prelude::*;

use crate::commands::CommandHandler;
use crate::commands::CommandRegistry;
use crate::commands::CommandType;
use crate::commands::CommandTypeView;
use crate::config::AppConfig;
use crate::config::ConfigManager;
use crate::events::AppEvent;
use crate::events::EventBus;
use crate::events::EventReceiver;
use crate::events::PublishError;
use crate::manifest::Permission;

verus! {

/// Whether the declared permission list grants `p` (set semantics: order and
/// repetition carry no meaning).
pub open spec fn grants(perms: Seq<Permission>, p: Permission) -> bool {
    perms.contains(p)
}

/// Exec membership test for a declared permission list.
pub fn has_permission(perms: &Vec<Permission>, p: Permission) -> (r: bool)
    ensures
        r == grants(perms@, p),
{
    let mut i: usize = 0;
    while i < perms.len()
        invariant
            i <= perms@.len(),
            forall|j: int| 0 <= j < i ==> perms@[j] != p,
        decreases perms@.len() - i,
    {
        if perms[i] == p {
            return true;
        }
        i = i + 1;
    }
    false
}

/// The ambient capabilities an isolated execution context is built with.
/// A capability that is absent here is entirely unavailable inside the
/// sandbox, not merely unused.
#[derive(Clone, Copy, Debug, PartialEq, Eq, Structural)]
pub struct SandboxCaps {
    /// Standard I/O and filesystem visibility are inherited.
    pub inherit_stdio: bool,
    /// Network reaches out of the sandbox.
    pub allow_network: bool,
    /// Host system facilities (processes, applications) may be asked for.
    pub allow_system: bool,
    /// The host clipboard may be read and written.
    pub allow_clipboard: bool,
}

/// The capability set that a declared permission list maps to: each
/// capability is enabled exactly when the corresponding permission was
/// declared.
pub open spec fn caps_of(perms: Seq<Permission>) -> SandboxCaps {
    SandboxCaps {
        inherit_stdio: grants(perms, Permission::FileSystem),
        allow_network: grants(perms, Permission::Network),
        allow_system: grants(perms, Permission::System),
        allow_clipboard: grants(perms, Permission::Clipboard),
    }
}

/// Computes the capability set for a declared permission list.
pub fn sandbox_caps(perms: &Vec<Permission>) -> (c: SandboxCaps)
    ensures
        c == caps_of(perms@),
{
    SandboxCaps {
        inherit_stdio: has_permission(perms, Permission::FileSystem),
        allow_network: has_permission(perms, Permission::Network),
        allow_system: has_permission(perms, Permission::System),
        allow_clipboard: has_permission(perms, Permission::Clipboard),
    }
}

/// The permission a host-side command effect needs before the bridge lets a
/// sandboxed extension request it.
pub open spec fn required_permission(command: CommandTypeView) -> Permission {
    match command {
        CommandTypeView::OpenApplication { .. } => Permission::System,
        CommandTypeView::OpenFile { .. } => Permission::FileSystem,
        CommandTypeView::OpenUrl { .. } => Permission::Network,
        CommandTypeView::RunScript { .. } => Permission::System,
        CommandTypeView::CopyToClipboard { .. } => Permission::Clipboard,
    }
}

/// Exec mirror of `required_permission`.
pub fn permission_for_command(command: &CommandType) -> (p: Permission)
    ensures
        p == required_permission(command@),
{
    match command {
        CommandType::OpenApplication { .. } => Permission::System,
        CommandType::OpenFile { .. } => Permission::FileSystem,
        CommandType::OpenUrl { .. } => Permission::Network,
        CommandType::RunScript { .. } => Permission::System,
        CommandType::CopyToClipboard { .. } => Permission::Clipboard,
    }
}

/// Whether an entry-artifact name stays inside its extension directory: it
/// is not empty, holds no path separator, and is not a dot name. Artifact
/// loading is restricted to the extension's own directory, and the manifest
/// that names the artifact is untrusted input.
pub open spec fn confined_entry(name: Seq<char>) -> bool {
    &&& name.len() > 0
    &&& forall|i: int| 0 <= i < name.len() ==> name[i] != '/' && name[i] != '\\'
    &&& !(name.len() == 1 && name[0] == '.')
    &&& !(name.len() == 2 && name[0] == '.' && name[1] == '.')
}

/// Decides whether an entry-artifact name stays inside its extension
/// directory; a name that walks anywhere else must not be opened.
pub fn entry_file_confined(name: &str) -> (r: bool)
    ensures
        r == confined_entry(name@),
{
    let chars = crate::manifest::chars_of(name);
    if chars.len() == 0 {
        return false;
    }
    let mut i: usize = 0;
    while i < chars.len()
        invariant
            i <= chars@.len(),
            chars@ == name@,
            forall|j: int| 0 <= j < i ==> chars@[j] != '/' && chars@[j] != '\\',
        decreases chars@.len() - i,
    {
        if chars[i] == '/' || chars[i] == '\\' {
            return false;
        }
        i = i + 1;
    }
    if chars.len() == 1 && chars[0] == '.' {
        return false;
    }
    if chars.len() == 2 && chars[0] == '.' && chars[1] == '.' {
        return false;
    }
    true
}

/// A bridge operation was refused because the needed permission was never
/// granted.
#[derive(Clone, Copy, Debug, PartialEq, Eq, Structural)]
pub struct PermissionDenied {
    pub needed: Permission,
}

/// A failure while building or initializing a sandbox: the entry artifact is
/// missing, the artifact does not validate, instantiation fails, or the
/// guest's initialization entry point traps. Any of these aborts the whole
/// load; a fault is isolated to its extension and never unwinds into the
/// host.
#[derive(Clone, Copy, Debug, PartialEq, Eq, Structural)]
pub enum SandboxFault {
    MissingArtifact,
    InvalidArtifact,
    Instantiation,
    InitTrap,
}

/// The narrow host-API surface handed to one sandboxed extension: publish an
/// event, subscribe to events, register and enumerate the item identifiers
/// the extension owns, and permission-gated host operations. This is the only
/// way sandboxed code can affect the host.
#[derive(Debug)]
pub struct ExtensionApi {
    granted: Vec<Permission>,
    item_ids: Vec<u128>,
}

impl ExtensionApi {
    /// The permissions this bridge was built with.
    pub closed spec fn granted_model(&self) -> Seq<Permission> {
        self.granted@
    }

    /// The item identifiers the extension has registered, in registration
    /// order.
    pub closed spec fn items(&self) -> Seq<u128> {
        self.item_ids@
    }

    /// No item identifier is registered twice.
    pub open spec fn wf(&self) -> bool {
        forall|i: int, j: int| 0 <= i < j < self.items().len() ==> self.items()[i] != self.items()[j]
    }

    /// A bridge scoped to the given granted permissions, owning no items yet.
    pub fn new(granted: Vec<Permission>) -> (r: Self)
        ensures
            r.wf(),
            r.granted_model() == granted@,
            r.items() == Seq::<u128>::empty(),
    {
        ExtensionApi { granted, item_ids: Vec::new() }
    }

    /// Decides whether the extension may request the host-side effect of
    /// `command`: allowed exactly when the needed permission was granted.
    pub fn authorize_command(&self, command: &CommandType) -> (r: Result<(), PermissionDenied>)
        ensures
            r == if grants(self.granted_model(), required_permission(command@)) {
                Ok::<(), PermissionDenied>(())
            } else {
                Err::<(), PermissionDenied>(
                    PermissionDenied { needed: required_permission(command@) },
                )
            },
    {
        let needed = permission_for_command(command);
        if has_permission(&self.granted, needed) {
            Ok(())
        } else {
            Err(PermissionDenied { needed })
        }
    }

    /// Publishes an event on the host's bus on the extension's behalf. This
    /// core bridge operation is always available.
    pub fn publish_event(&self, bus: &mut EventBus, event: AppEvent) -> (r: Result<
        usize,
        PublishError,
    >)
        requires
            old(bus).wf(),
            old(bus).history().len() < usize::MAX,
        ensures
            final(bus).wf(),
            final(bus).capacity() == old(bus).capacity(),
            final(bus).receiver_count() == old(bus).receiver_count(),
            old(bus).receiver_count() == 0 ==> (r matches Err(PublishError::NoReceivers(e)) && e@
                == event@) && final(bus).history() == old(bus).history(),
            old(bus).receiver_count() > 0 ==> (r matches Ok(n) && n as int == old(
                bus,
            ).receiver_count()) && final(bus).history() == old(bus).history().push(event@),
    {
        bus.publish(event)
    }

    /// Subscribes to the host's events on the extension's behalf. This core
    /// bridge operation is always available.
    pub fn subscribe_event(&self, bus: &mut EventBus) -> (r: EventReceiver)
        requires
            old(bus).wf(),
            old(bus).receiver_count() < usize::MAX,
        ensures
            final(bus).wf(),
            final(bus).history() == old(bus).history(),
            final(bus).capacity() == old(bus).capacity(),
            final(bus).receiver_count() == old(bus).receiver_count() + 1,
            r.cursor() == old(bus).history().len(),
    {
        bus.subscribe()
    }

    /// Registers an item identifier the extension owns. Returns whether the
    /// identifier was new; registering the same identifier twice changes
    /// nothing.
    pub fn register_item(&mut self, id: u128) -> (fresh: bool)
        requires
            old(self).wf(),
        ensures
            final(self).wf(),
            final(self).granted_model() == old(self).granted_model(),
            fresh == !old(self).items().contains(id),
            fresh ==> final(self).items() == old(self).items().push(id),
            !fresh ==> final(self).items() == old(self).items(),
    {
        let ghost ids = self.item_ids@;
        let mut i: usize = 0;
        while i < self.item_ids.len()
            invariant
                i <= ids.len(),
                self.item_ids@ == ids,
                old(self).item_ids@ == ids,
                old(self).wf(),
                forall|j: int| 0 <= j < i ==> ids[j] != id,
            decreases ids.len() - i,
        {
            if self.item_ids[i] == id {
                return false;
            }
            i = i + 1;
        }
        self.item_ids.push(id);
        proof {
            assert forall|a: int, b: int|
                0 <= a < b < self.item_ids@.len() implies self.item_ids@[a]
                != self.item_ids@[b] by {
                assert(self.item_ids@ == ids.push(id));
                assert(ids.push(id)[a] == ids[a]);
                if b < ids.len() {
                    assert(ids.push(id)[b] == ids[b]);
                    assert(old(self).items()[a] == ids[a]);
                    assert(old(self).items()[b] == ids[b]);
                } else {
                    assert(ids.push(id)[b] == id);
                }
            }
        }
        true
    }

    /// Whether the extension owns the item with this identifier.
    pub fn owns_item(&self, id: u128) -> (r: bool)
        ensures
            r == self.items().contains(id),
    {
        let mut i: usize = 0;
        while i < self.item_ids.len()
            invariant
                i <= self.item_ids@.len(),
                forall|j: int| 0 <= j < i ==> self.item_ids@[j] != id,
            decreases self.item_ids@.len() - i,
        {
            if self.item_ids[i] == id {
                return true;
            }
            i = i + 1;
        }
        false
    }

    /// The item identifiers the extension owns, in registration order.
    pub fn item_ids(&self) -> (r: &Vec<u128>)
        ensures
            r@ == self.items(),
    {
        &self.item_ids
    }

    /// Installs a command handler in the host's registry on the extension's
    /// behalf. Extending what the host will execute is a system-level
    /// capability, so it needs the System permission.
    pub fn register_command<H: CommandHandler>(
        &self,
        registry: &mut CommandRegistry<H>,
        id: String,
        handler: H,
    ) -> (r: Result<(), PermissionDenied>)
        requires
            old(registry).wf(),
        ensures
            final(registry).wf(),
            grants(self.granted_model(), Permission::System) ==> r
                == Result::<(), PermissionDenied>::Ok(()),
            !grants(self.granted_model(), Permission::System) ==> r == Result::<
                (),
                PermissionDenied,
            >::Err(PermissionDenied { needed: Permission::System }) && final(registry).handlers()
                == old(registry).handlers(),
            ({
                let hs = old(registry).handlers();
                r is Ok ==> if exists|j: int| 0 <= j < hs.len() && hs[j].0@ == id@ {
                    final(registry).handlers() == hs.update(
                        choose|j: int| 0 <= j < hs.len() && hs[j].0@ == id@,
                        (id, handler),
                    )
                } else {
                    final(registry).handlers() == hs.push((id, handler))
                }
            }),
    {
        if has_permission(&self.granted, Permission::System) {
            registry.register_handler(id, handler);
            Ok(())
        } else {
            Err(PermissionDenied { needed: Permission::System })
        }
    }

    /// Reads the host configuration on the extension's behalf. Host
    /// configuration is system state, so it needs the System permission.
    pub fn get_config(&self, config: &ConfigManager) -> (r: Result<AppConfig, PermissionDenied>)
        ensures
            grants(self.granted_model(), Permission::System) ==> r == Result::<
                AppConfig,
                PermissionDenied,
            >::Ok(config.config_model()),
            !grants(self.granted_model(), Permission::System) ==> r == Result::<
                AppConfig,
                PermissionDenied,
            >::Err(PermissionDenied { needed: Permission::System }),
    {
        if has_permission(&self.granted, Permission::System) {
            Ok(*config.get())
        } else {
            Err(PermissionDenied { needed: Permission::System })
        }
    }

    /// Replaces the host configuration on the extension's behalf. Host
    /// configuration is system state, so it needs the System permission.
    pub fn set_config(&self, config: &mut ConfigManager, new_config: AppConfig) -> (r: Result<
        (),
        PermissionDenied,
    >)
        ensures
            grants(self.granted_model(), Permission::System) ==> r == Result::<
                (),
                PermissionDenied,
            >::Ok(()) && final(config).config_model() == new_config,
            !grants(self.granted_model(), Permission::System) ==> r == Result::<
                (),
                PermissionDenied,
            >::Err(PermissionDenied { needed: Permission::System }) && final(config).config_model()
                == old(config).config_model(),
    {
        if has_permission(&self.granted, Permission::System) {
            config.update(new_config);
            Ok(())
        } else {
            Err(PermissionDenied { needed: Permission::System })
        }
    }
}

/// Capability confinement law: the sandbox never holds a capability outside
/// the granted permission set — each ambient capability implies its
/// permission was declared, a command effect is authorized only when its
/// permission was declared, and an empty grant enables no ambient capability
/// and authorizes no command effect.
pub proof fn law_capability_confinement(granted: Seq<Permission>, command: CommandTypeView)
    ensures
        caps_of(granted).inherit_stdio ==> grants(granted, Permission::FileSystem),
        caps_of(granted).allow_network ==> grants(granted, Permission::Network),
        caps_of(granted).allow_system ==> grants(granted, Permission::System),
        caps_of(granted).allow_clipboard ==> grants(granted, Permission::Clipboard),
        grants(granted, required_permission(command)) ==> granted.contains(
            required_permission(command),
        ),
        granted.len() == 0 ==> caps_of(granted) == (SandboxCaps {
            inherit_stdio: false,
            allow_network: false,
            allow_system: false,
            allow_clipboard: false,
        }) && !grants(granted, required_permission(command)),
{
}

} // verus!
