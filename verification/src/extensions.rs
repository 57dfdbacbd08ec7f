//! The extension manager: owns the set of loaded sandboxed instances, drives
//! the load/unload lifecycle, and routes events to the extensions they
//! concern.
//!
//! A load walks the lifecycle Unloaded, Loaded (manifest parsed:
//! `PendingExtension`), Initialized/Active (`ExtensionInstance`, inserted
//! into the table). The slow steps — reading the directory, building the
//! sandbox, running guest code — happen outside this module and report back a
//! plain outcome, so no table lock ever straddles sandbox execution. A load
//! that fails at any stage leaves the table exactly as it was.
use vstd::prelude::*;

use crate::events::AppEvent;
use crate::events::AppEventView;
use crate::manifest::ExtensionManifest;
use crate::manifest::ExtensionManifestView;
use crate::manifest::ManifestError;
use crate::manifest::Permission;
use crate::manifest::manifest_spec;
use crate::manifest::parse_manifest;
use crate::sandbox::ExtensionApi;
use crate::sandbox::SandboxCaps;
use crate::sandbox::SandboxFault;
use crate::sandbox::caps_of;
use crate::sandbox::sandbox_caps;

verus! {

/// An extension whose descriptor parsed: the lifecycle stage where the
/// manifest is known and the sandbox is not built yet. The capability set is
/// already fixed — computed from the declared permissions alone.
#[derive(Debug)]
pub struct PendingExtension {
    manifest: ExtensionManifest,
    caps: SandboxCaps,
}

impl PendingExtension {
    /// The parsed manifest.
    pub closed spec fn manifest_model(&self) -> ExtensionManifestView {
        self.manifest@
    }

    /// The capability set the sandbox must be built with.
    pub closed spec fn caps_model(&self) -> SandboxCaps {
        self.caps
    }

    /// The capability set was computed from the declared permissions.
    pub open spec fn wf(&self) -> bool {
        self.caps_model() == caps_of(self.manifest_model().permissions)
    }

    /// Parses a descriptor text and fixes the capability set its permissions
    /// map to. Rejects a malformed descriptor without constructing anything.
    pub fn prepare(manifest_text: &str) -> (r: Result<PendingExtension, ManifestError>)
        ensures
            match r {
                Ok(pending) => manifest_spec(manifest_text@) == Ok::<
                    ExtensionManifestView,
                    ManifestError,
                >(pending.manifest_model()) && pending.wf(),
                Err(e) => manifest_spec(manifest_text@) == Err::<
                    ExtensionManifestView,
                    ManifestError,
                >(e),
            },
    {
        match parse_manifest(manifest_text) {
            Ok(manifest) => {
                let caps = sandbox_caps(&manifest.permissions);
                Ok(PendingExtension { manifest, caps })
            },
            Err(e) => Err(e),
        }
    }

    /// The parsed manifest.
    pub fn manifest(&self) -> (m: &ExtensionManifest)
        ensures
            m@ == self.manifest_model(),
    {
        &self.manifest
    }

    /// The capability set the sandbox must be built with.
    pub fn caps(&self) -> (c: SandboxCaps)
        ensures
            c == self.caps_model(),
    {
        self.caps
    }
}

/// One loaded, active extension: its manifest, the capability set its
/// sandbox was built with, its host-API bridge, and the events routed to it
/// that have not yet been delivered into the guest.
pub struct ExtensionInstance {
    manifest: ExtensionManifest,
    caps: SandboxCaps,
    api: ExtensionApi,
    inbox: Vec<AppEvent>,
}

/// Mathematical model of a loaded extension.
#[verifier::ext_equal]
pub ghost struct ExtensionInstanceView {
    pub manifest: ExtensionManifestView,
    pub caps: SandboxCaps,
    pub granted: Seq<Permission>,
    pub items: Seq<u128>,
    pub inbox: Seq<AppEventView>,
}

impl View for ExtensionInstance {
    type V = ExtensionInstanceView;

    closed spec fn view(&self) -> ExtensionInstanceView {
        ExtensionInstanceView {
            manifest: self.manifest@,
            caps: self.caps,
            granted: self.api.granted_model(),
            items: self.api.items(),
            inbox: self.inbox@.map_values(|e: AppEvent| e@),
        }
    }
}

/// A loaded extension's internal consistency: its sandbox capabilities and
/// its bridge's grant are exactly what its manifest declares, and no item
/// identifier is registered twice.
pub open spec fn instance_wf(v: ExtensionInstanceView) -> bool {
    &&& v.caps == caps_of(v.manifest.permissions)
    &&& v.granted == v.manifest.permissions
    &&& forall|i: int, j: int| 0 <= i < j < v.items.len() ==> v.items[i] != v.items[j]
}

/// `v` with `event` appended to its pending deliveries.
pub open spec fn with_event(v: ExtensionInstanceView, event: AppEventView) -> ExtensionInstanceView {
    ExtensionInstanceView { inbox: v.inbox.push(event), ..v }
}

/// `v` owning `item` as well (unchanged when it already owns it).
pub open spec fn with_item(v: ExtensionInstanceView, item: u128) -> ExtensionInstanceView {
    if v.items.contains(item) {
        v
    } else {
        ExtensionInstanceView { items: v.items.push(item), ..v }
    }
}

/// `v` with its pending deliveries taken out.
pub open spec fn drained(v: ExtensionInstanceView) -> ExtensionInstanceView {
    ExtensionInstanceView { inbox: Seq::empty(), ..v }
}

impl ExtensionInstance {
    /// Appends one event to the pending deliveries.
    fn enqueue(&mut self, event: AppEvent)
        ensures
            final(self)@ == with_event(old(self)@, event@),
    {
        let ghost before = self.inbox@;
        self.inbox.push(event);
        proof {
            assert(self.inbox@.map_values(|e: AppEvent| e@) =~= before.map_values(
                |e: AppEvent| e@,
            ).push(event@));
            assert(self@ =~= with_event(old(self)@, event@));
        }
    }

    /// Registers one owned item identifier through the bridge; returns
    /// whether it was new.
    fn add_item(&mut self, item: u128) -> (fresh: bool)
        requires
            old(self).api.wf(),
        ensures
            final(self)@ == with_item(old(self)@, item),
            fresh == !old(self)@.items.contains(item),
    {
        let fresh = self.api.register_item(item);
        proof {
            assert(self@ =~= with_item(old(self)@, item));
        }
        fresh
    }

    /// Takes the pending deliveries out, leaving none behind.
    fn take_events(&mut self) -> (r: Vec<AppEvent>)
        ensures
            final(self)@ == drained(old(self)@),
            r@.map_values(|e: AppEvent| e@) == old(self)@.inbox,
    {
        let mut taken: Vec<AppEvent> = Vec::new();
        core::mem::swap(&mut taken, &mut self.inbox);
        proof {
            assert(self.inbox@.map_values(|e: AppEvent| e@) =~= Seq::<AppEventView>::empty());
            assert(self@ =~= drained(old(self)@));
        }
        taken
    }

    /// The extension's manifest.
    pub fn manifest(&self) -> (m: &ExtensionManifest)
        ensures
            m@ == self@.manifest,
    {
        &self.manifest
    }

    /// The extension's host-API bridge, read-only.
    pub fn api(&self) -> (r: &ExtensionApi)
        ensures
            r.granted_model() == self@.granted,
            r.items() == self@.items,
    {
        &self.api
    }

    /// The capability set the extension's sandbox was built with.
    pub fn caps(&self) -> (c: SandboxCaps)
        ensures
            c == self@.caps,
    {
        self.caps
    }
}

/// Why a load is aborted: the descriptor is rejected, the sandbox reports a
/// fault, or no unused identifier could be generated.
#[derive(Clone, Copy, Debug, PartialEq, Eq, Structural)]
pub enum LoadError {
    Manifest(ManifestError),
    Sandbox(SandboxFault),
    IdUnavailable,
}

/// Why an unload fails: the identifier names no loaded extension.
#[derive(Clone, Copy, Debug, PartialEq, Eq, Structural)]
pub enum UnloadError {
    NotFound,
}

/// The first entry of `t` carrying `id`, if any.
pub open spec fn lookup(t: Seq<(u128, ExtensionInstanceView)>, id: u128) -> Option<
    ExtensionInstanceView,
>
    decreases t.len(),
{
    if t.len() == 0 {
        None
    } else if t[0].0 == id {
        Some(t[0].1)
    } else {
        lookup(t.drop_first(), id)
    }
}

/// Whether some entry of `t` carries `id`.
pub open spec fn table_contains(t: Seq<(u128, ExtensionInstanceView)>, id: u128) -> bool {
    exists|j: int| 0 <= j < t.len() && t[j].0 == id
}

/// `lookup` finds an entry exactly when one exists, and, where the
/// identifiers of `t` are unique, it finds the entry at any index carrying
/// `id`.
pub proof fn lemma_lookup_contains(t: Seq<(u128, ExtensionInstanceView)>, id: u128)
    ensures
        (lookup(t, id) is Some) == table_contains(t, id),
    decreases t.len(),
{
    if t.len() > 0 {
        lemma_lookup_contains(t.drop_first(), id);
        if t[0].0 == id {
        } else {
            assert(table_contains(t, id) == table_contains(t.drop_first(), id)) by {
                if table_contains(t, id) {
                    let j = choose|j: int| 0 <= j < t.len() && t[j].0 == id;
                    assert(t.drop_first()[j - 1].0 == id);
                }
                if table_contains(t.drop_first(), id) {
                    let j = choose|j: int|
                        0 <= j < t.drop_first().len() && t.drop_first()[j].0 == id;
                    assert(t[j + 1].0 == id);
                }
            }
        }
    }
}

/// `t` with its first entry carrying `id` removed (and `t` itself when none
/// does).
pub open spec fn remove_id(t: Seq<(u128, ExtensionInstanceView)>, id: u128) -> Seq<
    (u128, ExtensionInstanceView),
>
    decreases t.len(),
{
    if t.len() == 0 {
        t
    } else if t[0].0 == id {
        t.drop_first()
    } else {
        seq![t[0]] + remove_id(t.drop_first(), id)
    }
}

/// A table's internal consistency: identifiers are unique and every instance
/// is internally consistent.
pub open spec fn table_wf(t: Seq<(u128, ExtensionInstanceView)>) -> bool {
    &&& forall|i: int, j: int| 0 <= i < j < t.len() ==> t[i].0 != t[j].0
    &&& forall|i: int| 0 <= i < t.len() ==> instance_wf(#[trigger] t[i].1)
}

/// What routing and bridge operations may do to one instance: everything but
/// its pending deliveries stays, and its owned items either stay or grow by
/// one identifier it did not own.
pub open spec fn same_shape(a: ExtensionInstanceView, b: ExtensionInstanceView) -> bool {
    &&& b.manifest == a.manifest
    &&& b.caps == a.caps
    &&& b.granted == a.granted
    &&& (b.items == a.items || exists|x: u128| !a.items.contains(x) && b.items == a.items.push(x))
}

/// An entrywise reshaping that keeps identifiers keeps them below any bound
/// they were below.
proof fn lemma_ids_bound_kept(
    t: Seq<(u128, ExtensionInstanceView)>,
    t2: Seq<(u128, ExtensionInstanceView)>,
    n: u128,
)
    requires
        t2.len() == t.len(),
        forall|j: int| 0 <= j < t.len() ==> #[trigger] t2[j].0 == t[j].0,
        forall|j: int| 0 <= j < t.len() ==> #[trigger] t[j].0 < n,
    ensures
        forall|j: int| 0 <= j < t2.len() ==> #[trigger] t2[j].0 < n,
{
}

/// An entrywise reshaping under `same_shape` keeps a table internally
/// consistent.
pub proof fn lemma_routing_keeps_wf(
    t: Seq<(u128, ExtensionInstanceView)>,
    t2: Seq<(u128, ExtensionInstanceView)>,
)
    requires
        table_wf(t),
        t2.len() == t.len(),
        forall|j: int| 0 <= j < t.len() ==> #[trigger] t2[j].0 == t[j].0,
        forall|j: int| 0 <= j < t.len() ==> same_shape(t[j].1, #[trigger] t2[j].1),
    ensures
        table_wf(t2),
{
    assert forall|i: int| 0 <= i < t2.len() implies instance_wf(#[trigger] t2[i].1) by {
        assert(instance_wf(t[i].1));
        assert(same_shape(t[i].1, t2[i].1));
        let a = t[i].1;
        let b = t2[i].1;
        if b.items == a.items {
        } else {
            let x = choose|x: u128| !a.items.contains(x) && b.items == a.items.push(x);
            assert forall|p: int, q: int|
                0 <= p < q < b.items.len() implies b.items[p] != b.items[q] by {
                assert(b.items[p] == a.items.push(x)[p]);
                assert(b.items[q] == a.items.push(x)[q]);
                if q < a.items.len() {
                } else {
                    assert(b.items[q] == x);
                    assert(a.items[p] == b.items[p]);
                    assert(a.items.contains(a.items[p]));
                }
            }
        }
    }
}

/// Owns the mapping from assigned identifier to loaded instance. Insertion
/// happens only on a fully successful load; removal only on explicit unload.
/// No two identifiers ever alias the same instance.
pub struct ExtensionManager {
    extensions: Vec<(u128, ExtensionInstance)>,
    /// The identifier the next successful load is assigned. Identifiers are
    /// assigned at load time, not derived from the manifest, and count up, so
    /// a fresh one never aliases a loaded — or a previously unloaded —
    /// instance.
    next_id: u128,
}

impl ExtensionManager {
    /// The table of loaded extensions, in load order.
    pub closed spec fn table(&self) -> Seq<(u128, ExtensionInstanceView)> {
        self.extensions@.map_values(|e: (u128, ExtensionInstance)| (e.0, e.1@))
    }

    /// The identifier the next successful load is assigned.
    pub closed spec fn next_identifier(&self) -> u128 {
        self.next_id
    }

    /// Identifiers are unique, every loaded identifier lies below the next
    /// one to assign, and every instance is internally consistent.
    pub open spec fn wf(&self) -> bool {
        &&& table_wf(self.table())
        &&& forall|i: int|
            0 <= i < self.table().len() ==> #[trigger] self.table()[i].0 < self.next_identifier()
    }

    /// A manager with no extensions loaded.
    pub fn new() -> (r: Self)
        ensures
            r.wf(),
            r.table() == Seq::<(u128, ExtensionInstanceView)>::empty(),
            r.next_identifier() == 0,
    {
        let r = ExtensionManager { extensions: Vec::new(), next_id: 0 };
        proof {
            assert(r.table() =~= Seq::<(u128, ExtensionInstanceView)>::empty());
        }
        r
    }

    /// The position of the entry carrying `id`, if any.
    fn find_index(&self, id: u128) -> (r: Option<usize>)
        ensures
            match r {
                Some(i) => i < self.table().len() && self.table()[i as int].0 == id
                    && table_contains(self.table(), id) && forall|j: int|
                    0 <= j < i ==> self.table()[j].0 != id,
                None => !table_contains(self.table(), id),
            },
    {
        let mut i: usize = 0;
        while i < self.extensions.len()
            invariant
                i <= self.table().len(),
                self.table().len() == self.extensions@.len(),
                forall|j: int| 0 <= j < i ==> self.table()[j].0 != id,
            decreases self.extensions@.len() - i,
        {
            proof {
                assert(self.table()[i as int].0 == self.extensions@[i as int].0);
            }
            if self.extensions[i].0 == id {
                return Some(i);
            }
            i = i + 1;
        }
        None
    }

    /// The model of the instance a successful load of `pending` inserts.
    pub open spec fn fresh_instance(pending: PendingExtension) -> ExtensionInstanceView {
        ExtensionInstanceView {
            manifest: pending.manifest_model(),
            caps: pending.caps_model(),
            granted: pending.manifest_model().permissions,
            items: Seq::empty(),
            inbox: Seq::empty(),
        }
    }

    /// Completes a load: `pending` is the parsed descriptor, `init` is what
    /// building, instantiating and initializing the sandbox reported. On
    /// successful initialization the next identifier is assigned and the
    /// instance is inserted and returned — a load fails only for the reported
    /// fault, or once every identifier has been assigned; any failure leaves
    /// the table unchanged and surfaces the error.
    pub fn load_extension(&mut self, pending: PendingExtension, init: Result<
        (),
        SandboxFault,
    >) -> (r: Result<u128, LoadError>)
        requires
            old(self).wf(),
            pending.wf(),
        ensures
            final(self).wf(),
            match init {
                Err(fault) => r == Err::<u128, LoadError>(LoadError::Sandbox(fault)) && final(self).table() == old(self).table() && final(self).next_identifier() == old(self).next_identifier(),
                Ok(_) => {
                    if old(self).next_identifier() == u128::MAX {
                        r == Err::<u128, LoadError>(LoadError::IdUnavailable) && final(self).table() == old(self).table() && final(self).next_identifier() == old(self).next_identifier()
                    } else {
                        r == Ok::<u128, LoadError>(old(self).next_identifier())
                            && !table_contains(old(self).table(), old(self).next_identifier())
                            && final(self).table() == old(self).table().push(
                            (old(self).next_identifier(), Self::fresh_instance(pending)),
                        ) && final(self).next_identifier() == old(self).next_identifier() + 1
                    }
                },
            },
    {
        match init {
            Err(fault) => Err(LoadError::Sandbox(fault)),
            Ok(_) => {
                if self.next_id == u128::MAX {
                    return Err(LoadError::IdUnavailable);
                }
                let id = self.next_id;
                self.next_id = self.next_id + 1;
                proof {
                    assert(!table_contains(old(self).table(), id)) by {
                        if table_contains(old(self).table(), id) {
                            let j = choose|j: int|
                                0 <= j < old(self).table().len() && old(self).table()[j].0 == id;
                            assert(old(self).table()[j].0 < id);
                        }
                    }
                }
                let ghost t = self.table();
                let mut granted: Vec<Permission> = Vec::new();
                let mut k: usize = 0;
                while k < pending.manifest.permissions.len()
                    invariant
                        k <= pending.manifest.permissions@.len(),
                        granted@ == pending.manifest.permissions@.subrange(0, k as int),
                    decreases pending.manifest.permissions@.len() - k,
                {
                    granted.push(pending.manifest.permissions[k]);
                    proof {
                        assert(granted@ =~= pending.manifest.permissions@.subrange(
                            0,
                            k + 1,
                        ));
                    }
                    k = k + 1;
                }
                proof {
                    assert(granted@ =~= pending.manifest.permissions@);
                }
                let api = ExtensionApi::new(granted);
                let instance = ExtensionInstance {
                    manifest: pending.manifest,
                    caps: pending.caps,
                    api,
                    inbox: Vec::new(),
                };
                proof {
                    assert(instance@ == Self::fresh_instance(pending)) by {
                        assert(instance@.inbox =~= Seq::<AppEventView>::empty());
                        assert(instance@.items =~= Seq::<u128>::empty());
                    }
                }
                self.extensions.push((id, instance));
                proof {
                    assert(self.table() =~= t.push((id, Self::fresh_instance(pending))));
                    assert forall|a: int, b: int|
                        0 <= a < b < self.table().len() implies self.table()[a].0
                        != self.table()[b].0 by {
                        assert(t.push((id, Self::fresh_instance(pending)))[a]
                            == self.table()[a]);
                        if b < t.len() {
                        } else {
                            assert(self.table()[b].0 == id);
                            assert(!table_contains(t, id));
                        }
                    }
                    assert forall|a: int|
                        0 <= a < self.table().len() implies instance_wf(
                        #[trigger] self.table()[a].1,
                    ) by {
                        if a < t.len() {
                            assert(self.table()[a].1 == t[a].1);
                        } else {
                            assert(self.table()[a].1 == Self::fresh_instance(pending));
                        }
                    }
                    assert forall|a: int|
                        0 <= a < self.table().len() implies #[trigger] self.table()[a].0
                        < self.next_identifier() by {
                        if a < t.len() {
                            assert(self.table()[a].0 == t[a].0);
                            assert(old(self).table()[a].0 < old(self).next_identifier());
                        } else {
                            assert(self.table()[a].0 == id);
                        }
                    }
                }
                Ok(id)
            },
        }
    }

    /// Removes and drops the instance carrying `id`; fails with not-found
    /// when the identifier names no loaded extension. Dropping the instance
    /// releases what it owns.
    pub fn unload_extension(&mut self, id: u128) -> (r: Result<(), UnloadError>)
        requires
            old(self).wf(),
        ensures
            final(self).wf(),
            final(self).next_identifier() == old(self).next_identifier(),
            table_contains(old(self).table(), id) ==> r == Ok::<(), UnloadError>(()) && final(self).table() == remove_id(old(self).table(), id),
            !table_contains(old(self).table(), id) ==> r == Err::<(), UnloadError>(
                UnloadError::NotFound,
            ) && final(self).table() == old(self).table(),
    {
        let ghost t = self.table();
        match self.find_index(id) {
            Some(i) => {
                let _ = self.extensions.remove(i);
                proof {
                    lemma_remove_id_at(t, id, i as int);
                    assert(self.table() =~= t.remove(i as int));
                    assert forall|a: int, b: int|
                        0 <= a < b < self.table().len() implies self.table()[a].0
                        != self.table()[b].0 by {
                        assert(self.table()[a] == if a < i {
                            t[a]
                        } else {
                            t[a + 1]
                        });
                        assert(self.table()[b] == if b < i {
                            t[b]
                        } else {
                            t[b + 1]
                        });
                    }
                    assert forall|a: int|
                        0 <= a < self.table().len() implies instance_wf(
                        #[trigger] self.table()[a].1,
                    ) by {
                        assert(self.table()[a] == if a < i {
                            t[a]
                        } else {
                            t[a + 1]
                        });
                        if a < i {
                            assert(instance_wf(t[a].1));
                        } else {
                            assert(instance_wf(t[a + 1].1));
                        }
                    }
                    assert forall|a: int|
                        0 <= a < self.table().len() implies #[trigger] self.table()[a].0
                        < self.next_identifier() by {
                        assert(self.table()[a] == if a < i {
                            t[a]
                        } else {
                            t[a + 1]
                        });
                        if a < i {
                            assert(old(self).table()[a].0 < old(self).next_identifier());
                        } else {
                            assert(old(self).table()[a + 1].0 < old(self).next_identifier());
                        }
                    }
                }
                Ok(())
            },
            None => Err(UnloadError::NotFound),
        }
    }

    /// Fans one event out to the extensions it concerns: a query change to
    /// every loaded extension, an item activation only to the extension that
    /// owns the activated item (stopping at the first owner), other events to
    /// none. Delivery into the guests is the surrounding program's business;
    /// this routes into each instance's pending deliveries.
    pub fn handle_event(&mut self, event: &AppEvent)
        requires
            old(self).wf(),
        ensures
            final(self).wf(),
            final(self).next_identifier() == old(self).next_identifier(),
            final(self).table() == route_event(old(self).table(), event@),
    {
        let ghost t = self.table();
        match event {
            AppEvent::QueryChanged(_) => {
                let mut i: usize = 0;
                while i < self.extensions.len()
                    invariant
                        i <= t.len(),
                        t == old(self).table(),
                        old(self).wf(),
                        self.next_identifier() == old(self).next_identifier(),
                        self.extensions@.len() == t.len(),
                        forall|j: int|
                            0 <= j < i ==> #[trigger] self.table()[j] == (
                                t[j].0,
                                with_event(t[j].1, event@),
                            ),
                        forall|j: int| i <= j < t.len() ==> #[trigger] self.table()[j] == t[j],
                    decreases t.len() - i,
                {
                    let ghost before = self.extensions@;
                    let ghost tb = self.table();
                    let ev = event.clone();
                    self.extensions[i].1.enqueue(ev);
                    proof {
                        assert forall|j: int|
                            0 <= j < t.len() && j != i implies #[trigger] self.table()[j]
                            == tb[j] by {
                            assert(self.extensions@[j] == before[j]);
                            assert(tb[j] == (before[j].0, before[j].1@));
                        }
                        assert(tb[i as int] == (before[i as int].0, before[i as int].1@));
                        assert(tb[i as int] == t[i as int]);
                        assert(self.table()[i as int] == (
                            t[i as int].0,
                            with_event(t[i as int].1, event@),
                        ));
                    }
                    i = i + 1;
                }
                proof {
                    assert(self.table() =~= broadcast_event(t, event@));
                    assert forall|j: int|
                        0 <= j < t.len() implies same_shape(
                        t[j].1,
                        #[trigger] self.table()[j].1,
                    ) by {
                        assert(self.table()[j].1 == with_event(t[j].1, event@));
                    }
                    lemma_routing_keeps_wf(t, self.table());
                                    assert forall|j: int|
                        0 <= j < t.len() implies #[trigger] t[j].0 < old(self).next_identifier() by {
                        assert(t[j] == old(self).table()[j]);
                    }
                    lemma_ids_bound_kept(t, self.table(), old(self).next_identifier());
                }
            },
            AppEvent::ItemActivated(item_id, _) => {
                let mut i: usize = 0;
                while i < self.extensions.len()
                    invariant
                        i <= t.len(),
                        t == old(self).table(),
                        old(self).wf(),
                        self.next_identifier() == old(self).next_identifier(),
                        (event@ matches AppEventView::ItemActivated(item, _) && item == *item_id),
                        self.extensions@.len() == t.len(),
                        self.table() == t,
                        forall|j: int|
                            0 <= j < i ==> !(#[trigger] t[j].1.items.contains(*item_id)),
                    decreases t.len() - i,
                {
                    let ghost before = self.extensions@;
                    proof {
                        assert(t[i as int] == (before[i as int].0, before[i as int].1@));
                    }
                    if self.extensions[i].1.api.owns_item(*item_id) {
                        let ev = event.clone();
                        self.extensions[i].1.enqueue(ev);
                        proof {
                            assert forall|j: int|
                                0 <= j < t.len() && j != i implies #[trigger] self.table()[j]
                                == t[j] by {
                                assert(self.extensions@[j] == before[j]);
                                assert(t[j] == (before[j].0, before[j].1@));
                            }
                            assert(self.table()[i as int] == (
                                t[i as int].0,
                                with_event(t[i as int].1, event@),
                            ));
                            lemma_route_owner_at(t, event@, *item_id, i as int);
                            assert(self.table() =~= t.update(
                                i as int,
                                (t[i as int].0, with_event(t[i as int].1, event@)),
                            ));
                            assert forall|j: int|
                                0 <= j < t.len() implies same_shape(
                                t[j].1,
                                #[trigger] self.table()[j].1,
                            ) by {
                                if j == i {
                                    assert(self.table()[j].1 == with_event(t[j].1, event@));
                                }
                            }
                            lemma_routing_keeps_wf(t, self.table());
                    assert forall|j: int|
                        0 <= j < t.len() implies #[trigger] t[j].0 < old(self).next_identifier() by {
                        assert(t[j] == old(self).table()[j]);
                    }
                    lemma_ids_bound_kept(t, self.table(), old(self).next_identifier());
                        }
                        return ;
                    }
                    i = i + 1;
                }
                proof {
                    lemma_route_owner_none(t, event@, *item_id);
                }
            },
            _ => {
                proof {
                    assert(route_event(t, event@) == t);
                }
            },
        }
    }

    /// Registers an item identifier as owned by the extension carrying
    /// `ext_id`, through that extension's bridge. Returns whether the item
    /// was new; fails with not-found for an unknown identifier.
    pub fn register_item(&mut self, ext_id: u128, item_id: u128) -> (r: Result<bool, UnloadError>)
        requires
            old(self).wf(),
        ensures
            final(self).wf(),
            final(self).next_identifier() == old(self).next_identifier(),
            !table_contains(old(self).table(), ext_id) ==> r == Err::<bool, UnloadError>(
                UnloadError::NotFound,
            ) && final(self).table() == old(self).table(),
            table_contains(old(self).table(), ext_id) ==> (r matches Ok(fresh) && (lookup(
                old(self).table(),
                ext_id,
            ) matches Some(v) && fresh == !v.items.contains(item_id)) && final(self).table()
                == add_item_to(old(self).table(), ext_id, item_id)),
    {
        let ghost t = self.table();
        match self.find_index(ext_id) {
            Some(i) => {
                proof {
                    assert(instance_wf(t[i as int].1));
                    assert(self.extensions@[i as int].1.api.wf()) by {
                        assert(self.extensions@[i as int].1@.items == t[i as int].1.items);
                    }
                    lemma_lookup_at(t, ext_id, i as int);
                    lemma_add_item_at(t, ext_id, item_id, i as int);
                }
                let fresh = self.extensions[i].1.add_item(item_id);
                proof {
                    assert(self.table() =~= add_item_to(t, ext_id, item_id));
                    lemma_routing_keeps_wf(t, self.table());
                    assert forall|j: int|
                        0 <= j < t.len() implies #[trigger] t[j].0 < old(self).next_identifier() by {
                        assert(t[j] == old(self).table()[j]);
                    }
                    lemma_ids_bound_kept(t, self.table(), old(self).next_identifier());
                }
                Ok(fresh)
            },
            None => Err(UnloadError::NotFound),
        }
    }

    /// Takes the pending deliveries for the extension carrying `ext_id`, in
    /// routing order, leaving its inbox empty; fails with not-found for an
    /// unknown identifier.
    pub fn take_inbox(&mut self, ext_id: u128) -> (r: Result<Vec<AppEvent>, UnloadError>)
        requires
            old(self).wf(),
        ensures
            final(self).wf(),
            final(self).next_identifier() == old(self).next_identifier(),
            !table_contains(old(self).table(), ext_id) ==> r == Err::<Vec<AppEvent>, UnloadError>(
                UnloadError::NotFound,
            ) && final(self).table() == old(self).table(),
            table_contains(old(self).table(), ext_id) ==> (r matches Ok(events) && (lookup(
                old(self).table(),
                ext_id,
            ) matches Some(v) && events@.map_values(|e: AppEvent| e@) == v.inbox) && final(self).table() == drain_inbox_of(old(self).table(), ext_id)),
    {
        let ghost t = self.table();
        match self.find_index(ext_id) {
            Some(i) => {
                proof {
                    lemma_lookup_at(t, ext_id, i as int);
                    lemma_drain_inbox_at(t, ext_id, i as int);
                }
                let events = self.extensions[i].1.take_events();
                proof {
                    assert(self.table() =~= drain_inbox_of(t, ext_id));
                    lemma_routing_keeps_wf(t, self.table());
                    assert forall|j: int|
                        0 <= j < t.len() implies #[trigger] t[j].0 < old(self).next_identifier() by {
                        assert(t[j] == old(self).table()[j]);
                    }
                    lemma_ids_bound_kept(t, self.table(), old(self).next_identifier());
                }
                Ok(events)
            },
            None => Err(UnloadError::NotFound),
        }
    }

    /// Read-only bridge lookup; nothing for an unknown identifier.
    pub fn get_api(&self, id: u128) -> (r: Option<&ExtensionApi>)
        ensures
            match r {
                Some(api) => table_contains(self.table(), id) && (lookup(self.table(), id) matches
                Some(v) && api.granted_model() == v.granted && api.items() == v.items),
                None => !table_contains(self.table(), id),
            },
    {
        match self.find_index(id) {
            Some(i) => {
                proof {
                    lemma_lookup_at(self.table(), id, i as int);
                }
                Some(self.extensions[i].1.api())
            },
            None => None,
        }
    }

    /// How many extensions are loaded.
    pub fn extension_count(&self) -> (r: usize)
        ensures
            r == self.table().len(),
    {
        self.extensions.len()
    }

    /// Read-only manifest lookup; nothing for an unknown identifier.
    pub fn get_manifest(&self, id: u128) -> (r: Option<&ExtensionManifest>)
        ensures
            match r {
                Some(m) => table_contains(self.table(), id) && (lookup(self.table(), id) matches
                Some(v) && v.manifest == m@),
                None => !table_contains(self.table(), id) && lookup(self.table(), id) is None,
            },
    {
        proof {
            lemma_lookup_contains(self.table(), id);
        }
        match self.find_index(id) {
            Some(i) => {
                proof {
                    lemma_lookup_at(self.table(), id, i as int);
                }
                Some(&self.extensions[i].1.manifest)
            },
            None => None,
        }
    }
}

/// Every entry of `t` with `event` appended to its pending deliveries.
pub open spec fn broadcast_event(
    t: Seq<(u128, ExtensionInstanceView)>,
    event: AppEventView,
) -> Seq<(u128, ExtensionInstanceView)> {
    t.map_values(|en: (u128, ExtensionInstanceView)| (en.0, with_event(en.1, event)))
}

/// `t` with `event` delivered to the first extension owning `item`, and only
/// to it; `t` itself when none owns it. Item identifiers are unique per
/// extension, so stopping at the first owner loses nothing.
pub open spec fn route_to_owner(
    t: Seq<(u128, ExtensionInstanceView)>,
    event: AppEventView,
    item: u128,
) -> Seq<(u128, ExtensionInstanceView)>
    decreases t.len(),
{
    if t.len() == 0 {
        t
    } else if t[0].1.items.contains(item) {
        seq![(t[0].0, with_event(t[0].1, event))] + t.drop_first()
    } else {
        seq![t[0]] + route_to_owner(t.drop_first(), event, item)
    }
}

/// How the manager fans an event out: a query change is broadcast to every
/// loaded extension, an item activation goes only to the extension owning the
/// activated item, and other events concern no extension.
pub open spec fn route_event(
    t: Seq<(u128, ExtensionInstanceView)>,
    event: AppEventView,
) -> Seq<(u128, ExtensionInstanceView)> {
    match event {
        AppEventView::QueryChanged(_) => broadcast_event(t, event),
        AppEventView::ItemActivated(item, _) => route_to_owner(t, event, item),
        _ => t,
    }
}

/// Where index `i` holds the first entry owning `item`, routing an activation
/// updates exactly that entry.
pub proof fn lemma_route_owner_at(
    t: Seq<(u128, ExtensionInstanceView)>,
    event: AppEventView,
    item: u128,
    i: int,
)
    requires
        0 <= i < t.len(),
        t[i].1.items.contains(item),
        forall|j: int| 0 <= j < i ==> !(#[trigger] t[j].1.items.contains(item)),
    ensures
        route_to_owner(t, event, item) =~= t.update(i, (t[i].0, with_event(t[i].1, event))),
    decreases i,
{
    if i == 0 {
        assert(seq![(t[0].0, with_event(t[0].1, event))] + t.drop_first() =~= t.update(
            0,
            (t[0].0, with_event(t[0].1, event)),
        ));
    } else {
        lemma_route_owner_at(t.drop_first(), event, item, i - 1);
        assert(seq![t[0]] + route_to_owner(t.drop_first(), event, item) =~= t.update(
            i,
            (t[i].0, with_event(t[i].1, event)),
        )) by {
            assert(route_to_owner(t.drop_first(), event, item) =~= t.drop_first().update(
                i - 1,
                (t[i].0, with_event(t[i].1, event)),
            ));
        }
    }
}

/// Where no entry owns `item`, routing an activation changes nothing.
pub proof fn lemma_route_owner_none(
    t: Seq<(u128, ExtensionInstanceView)>,
    event: AppEventView,
    item: u128,
)
    requires
        forall|j: int| 0 <= j < t.len() ==> !(#[trigger] t[j].1.items.contains(item)),
    ensures
        route_to_owner(t, event, item) =~= t,
    decreases t.len(),
{
    if t.len() > 0 {
        lemma_route_owner_none(t.drop_first(), event, item);
        assert(seq![t[0]] + t.drop_first() =~= t);
    }
}

/// `t` with `item` registered to the first entry carrying `ext_id`.
pub open spec fn add_item_to(
    t: Seq<(u128, ExtensionInstanceView)>,
    ext_id: u128,
    item: u128,
) -> Seq<(u128, ExtensionInstanceView)>
    decreases t.len(),
{
    if t.len() == 0 {
        t
    } else if t[0].0 == ext_id {
        seq![(t[0].0, with_item(t[0].1, item))] + t.drop_first()
    } else {
        seq![t[0]] + add_item_to(t.drop_first(), ext_id, item)
    }
}

/// `t` with the pending deliveries of the first entry carrying `ext_id`
/// taken out.
pub open spec fn drain_inbox_of(
    t: Seq<(u128, ExtensionInstanceView)>,
    ext_id: u128,
) -> Seq<(u128, ExtensionInstanceView)>
    decreases t.len(),
{
    if t.len() == 0 {
        t
    } else if t[0].0 == ext_id {
        seq![(t[0].0, drained(t[0].1))] + t.drop_first()
    } else {
        seq![t[0]] + drain_inbox_of(t.drop_first(), ext_id)
    }
}

/// Where index `i` holds the first entry carrying `ext_id`, registering an
/// item updates exactly that entry.
pub proof fn lemma_add_item_at(
    t: Seq<(u128, ExtensionInstanceView)>,
    ext_id: u128,
    item: u128,
    i: int,
)
    requires
        0 <= i < t.len(),
        t[i].0 == ext_id,
        forall|j: int| 0 <= j < i ==> t[j].0 != ext_id,
    ensures
        add_item_to(t, ext_id, item) =~= t.update(i, (t[i].0, with_item(t[i].1, item))),
    decreases i,
{
    if i == 0 {
        assert(seq![(t[0].0, with_item(t[0].1, item))] + t.drop_first() =~= t.update(
            0,
            (t[0].0, with_item(t[0].1, item)),
        ));
    } else {
        lemma_add_item_at(t.drop_first(), ext_id, item, i - 1);
        assert(seq![t[0]] + add_item_to(t.drop_first(), ext_id, item) =~= t.update(
            i,
            (t[i].0, with_item(t[i].1, item)),
        )) by {
            assert(add_item_to(t.drop_first(), ext_id, item) =~= t.drop_first().update(
                i - 1,
                (t[i].0, with_item(t[i].1, item)),
            ));
        }
    }
}

/// Where index `i` holds the first entry carrying `ext_id`, draining updates
/// exactly that entry.
pub proof fn lemma_drain_inbox_at(t: Seq<(u128, ExtensionInstanceView)>, ext_id: u128, i: int)
    requires
        0 <= i < t.len(),
        t[i].0 == ext_id,
        forall|j: int| 0 <= j < i ==> t[j].0 != ext_id,
    ensures
        drain_inbox_of(t, ext_id) =~= t.update(i, (t[i].0, drained(t[i].1))),
    decreases i,
{
    if i == 0 {
        assert(seq![(t[0].0, drained(t[0].1))] + t.drop_first() =~= t.update(
            0,
            (t[0].0, drained(t[0].1)),
        ));
    } else {
        lemma_drain_inbox_at(t.drop_first(), ext_id, i - 1);
        assert(seq![t[0]] + drain_inbox_of(t.drop_first(), ext_id) =~= t.update(
            i,
            (t[i].0, drained(t[i].1)),
        )) by {
            assert(drain_inbox_of(t.drop_first(), ext_id) =~= t.drop_first().update(
                i - 1,
                (t[i].0, drained(t[i].1)),
            ));
        }
    }
}

/// All-or-nothing law, second half: an identifier that a failed load never
/// inserted is absent, so looking its manifest up yields nothing. (The first
/// half — that any failure leaves the table unchanged — is the load
/// contract itself.)
pub proof fn law_failed_load_leaves_no_trace(t: Seq<(u128, ExtensionInstanceView)>, id: u128)
    requires
        !table_contains(t, id),
    ensures
        lookup(t, id) is None,
{
    lemma_lookup_contains(t, id);
}

/// Removing a pushed entry whose identifier was fresh gives the table back.
proof fn lemma_remove_pushed(
    t: Seq<(u128, ExtensionInstanceView)>,
    id: u128,
    inst: ExtensionInstanceView,
)
    requires
        !table_contains(t, id),
    ensures
        remove_id(t.push((id, inst)), id) =~= t,
    decreases t.len(),
{
    let pushed = t.push((id, inst));
    if t.len() == 0 {
        assert(pushed[0].0 == id);
        assert(pushed.drop_first() =~= t);
    } else {
        assert(t[0].0 != id) by {
            if t[0].0 == id {
                assert(table_contains(t, id));
            }
        }
        assert(pushed[0] == t[0]);
        assert(pushed.drop_first() =~= t.drop_first().push((id, inst)));
        assert(!table_contains(t.drop_first(), id)) by {
            if table_contains(t.drop_first(), id) {
                let j = choose|j: int| 0 <= j < t.drop_first().len() && t.drop_first()[j].0 == id;
                assert(t[j + 1].0 == id);
            }
        }
        lemma_remove_pushed(t.drop_first(), id, inst);
        assert(seq![t[0]] + remove_id(pushed.drop_first(), id) =~= t);
    }
}

/// Unload-exactly-once law: an identifier a load freshly inserted is present,
/// unloading it gives the table from before the load back, and the
/// identifier is then absent again — so a second unload of the same
/// identifier fails with not-found.
pub proof fn law_unload_exactly_once(
    t: Seq<(u128, ExtensionInstanceView)>,
    id: u128,
    inst: ExtensionInstanceView,
)
    requires
        !table_contains(t, id),
    ensures
        table_contains(t.push((id, inst)), id),
        remove_id(t.push((id, inst)), id) =~= t,
        !table_contains(remove_id(t.push((id, inst)), id), id),
{
    assert(t.push((id, inst))[t.len() as int].0 == id);
    lemma_remove_pushed(t, id, inst);
    assert(remove_id(t.push((id, inst)), id) =~= t);
}

/// Where index `i` holds the first entry carrying `id`, `lookup` returns that
/// entry's instance.
pub proof fn lemma_lookup_at(t: Seq<(u128, ExtensionInstanceView)>, id: u128, i: int)
    requires
        0 <= i < t.len(),
        t[i].0 == id,
        forall|j: int| 0 <= j < i ==> t[j].0 != id,
    ensures
        lookup(t, id) == Some(t[i].1),
    decreases i,
{
    if i > 0 {
        lemma_lookup_at(t.drop_first(), id, i - 1);
    }
}

/// Where index `i` holds the first entry carrying `id`, `remove_id` removes
/// exactly that entry.
pub proof fn lemma_remove_id_at(t: Seq<(u128, ExtensionInstanceView)>, id: u128, i: int)
    requires
        0 <= i < t.len(),
        t[i].0 == id,
        forall|j: int| 0 <= j < i ==> t[j].0 != id,
    ensures
        remove_id(t, id) =~= t.remove(i),
    decreases i,
{
    if i == 0 {
        assert(t.drop_first() =~= t.remove(0));
    } else {
        lemma_remove_id_at(t.drop_first(), id, i - 1);
        assert(seq![t[0]] + remove_id(t.drop_first(), id) =~= t.remove(i)) by {
            assert(remove_id(t.drop_first(), id) =~= t.drop_first().remove(i - 1));
        }
    }
}

} // verus!
