//! The plugin registry: which dynamic modules are loaded, under which
//! identity, from which file, and what they registered.
//!
//! Loading native code and reading files belong to the host; the registry
//! holds the records and makes the decisions: which identity is fresh, which
//! record leaves on removal, and which plugins' backing files changed and
//! are due for a reload.

use vstd::prelude::*;

use crate::platform::Library;

verus! {

/// Opaque identifier of a loaded plugin; fresh for every load.
#[derive(Debug, Clone, Copy, PartialEq, Eq, Hash, Structural)]
pub struct PluginId(pub u64);

/// Where a plugin registered one phase: on the main scheduler, or on the
/// private chain of the named worker.
pub struct PluginPhase {
    /// The phase's name.
    pub name: String,
    /// The hosting worker's name, or `None` for the main scheduler.
    pub worker: Option<String>,
}

/// Everything the registry keeps of one loaded plugin: the library token,
/// the path the module was loaded from with the file state seen at load
/// time, and the identities of the phases the plugin registered.
pub struct PluginData {
    /// The path the module was loaded from.
    pub original_path: String,
    /// The token standing for the loaded module.
    pub library: Library,
    /// The phases the plugin registered, in registration order.
    pub phases: Vec<PluginPhase>,
    /// Size of the backing file when it was loaded.
    pub file_size: u64,
    /// Modification stamp of the backing file when it was loaded.
    pub file_timestamp: u64,
}

/// One registry entry: a plugin's identity and its record.
pub struct PluginEntry {
    /// The identity the registry assigned at load time.
    pub id: PluginId,
    /// The plugin's record.
    pub data: PluginData,
}

/// What the host observed of one file on disk.
pub struct FileSnapshot {
    /// The file's path.
    pub path: String,
    /// The file's size.
    pub size: u64,
    /// The file's modification stamp.
    pub timestamp: u64,
}

/// Whether `observed` shows the plugin's backing file changed since load:
/// some snapshot of the same path differs in size or stamp.
pub open spec fn backing_file_changed(data: PluginData, observed: Seq<FileSnapshot>) -> bool {
    exists|k: int|
        0 <= k < observed.len() && (#[trigger] observed[k]).path@ == data.original_path@ && (
        observed[k].size != data.file_size || observed[k].timestamp != data.file_timestamp)
}

/// Well-formed registry content: identities grow with load order and stay
/// below the next one to be assigned, so identities never repeat.
pub open spec fn plugin_ids_wf(plugins: Seq<PluginEntry>, next_id: u64) -> bool {
    &&& forall|i: int|
        0 <= i < plugins.len() ==> (#[trigger] plugins[i]).id.0 < next_id
    &&& forall|i: int, j: int|
        0 <= i < j < plugins.len() ==> (#[trigger] plugins[i]).id.0 < (
        #[trigger] plugins[j]).id.0
}

/// Owns the records of the loaded plugins, keyed by [`PluginId`].
pub struct PluginManager {
    entries: Vec<PluginEntry>,
    next_id: u64,
}

impl PluginManager {
    /// The registry's entries, in load order.
    pub closed spec fn plugins(&self) -> Seq<PluginEntry> {
        self.entries@
    }

    /// The next identity to be assigned.
    pub closed spec fn next_id_spec(&self) -> u64 {
        self.next_id
    }

    /// Well-formed: identities grow with load order and stay below the next
    /// one to be assigned, so identities never repeat.
    pub open spec fn wf(&self) -> bool {
        plugin_ids_wf(self.plugins(), self.next_id_spec())
    }

    /// An empty registry.
    pub fn new() -> (manager: PluginManager)
        ensures
            manager.plugins() == Seq::<PluginEntry>::empty(),
            manager.next_id_spec() == 0,
            manager.wf(),
    {
        PluginManager { entries: Vec::new(), next_id: 0 }
    }

    /// The next identity to be assigned; lets a caller see that
    /// registrations remain available.
    pub fn peek_next_id(&self) -> (next: u64)
        ensures
            next == self.next_id_spec(),
    {
        self.next_id
    }

    /// How many plugins are loaded.
    pub fn plugins_count(&self) -> (n: usize)
        ensures
            n == self.plugins().len(),
    {
        self.entries.len()
    }

    /// Stores `data` under a fresh identity and returns it. The identity
    /// differs from that of every record already stored.
    pub fn add_plugin(&mut self, data: PluginData) -> (id: PluginId)
        requires
            old(self).wf(),
            old(self).next_id_spec() < u64::MAX,
        ensures
            final(self).wf(),
            id.0 == old(self).next_id_spec(),
            final(self).next_id_spec() == old(self).next_id_spec() + 1,
            forall|i: int|
                0 <= i < old(self).plugins().len() ==> (#[trigger] old(self).plugins()[i]).id
                    != id,
            final(self).plugins().len() == old(self).plugins().len() + 1,
            final(self).plugins().last().id == id,
            final(self).plugins().last().data == data,
            forall|i: int|
                0 <= i < old(self).plugins().len() ==> #[trigger] final(self).plugins()[i] == old(
                    self,
                ).plugins()[i],
    {
        let id = PluginId(self.next_id);
        self.next_id = self.next_id + 1;
        self.entries.push(PluginEntry { id, data });
        id
    }

    /// Removes and returns the record stored under `plugin_id`: `Some`
    /// exactly when one is, and the rest of the registry is untouched. The
    /// caller owns the teardown from here: deregister first, unload after.
    pub fn remove_plugin(&mut self, plugin_id: &PluginId) -> (removed: Option<PluginData>)
        requires
            old(self).wf(),
        ensures
            final(self).wf(),
            final(self).next_id_spec() == old(self).next_id_spec(),
            removed is Some == (exists|i: int|
                0 <= i < old(self).plugins().len() && (#[trigger] old(self).plugins()[i]).id
                    == *plugin_id),
            removed matches Some(data) ==> exists|i: int|
                {
                    &&& 0 <= i < old(self).plugins().len()
                    &&& (#[trigger] old(self).plugins()[i]).id == *plugin_id
                    &&& data == old(self).plugins()[i].data
                    &&& final(self).plugins() == old(self).plugins().remove(i)
                },
            removed is Some ==> forall|j: int|
                0 <= j < final(self).plugins().len() ==> (#[trigger] final(self).plugins()[j]).id
                    != *plugin_id,
            removed is None ==> *final(self) == *old(self),
    {
        let mut i: usize = 0;
        while i < self.entries.len()
            invariant
                old(self).wf(),
                i <= self.entries.len(),
                *self == *old(self),
                forall|j: int| 0 <= j < i ==> (#[trigger] self.plugins()[j]).id != *plugin_id,
            decreases self.entries.len() - i,
        {
            if self.entries[i].id == *plugin_id {
                proof {
                    assert(old(self).plugins()[i as int].id == *plugin_id);
                }
                let entry = self.entries.remove(i);
                proof {
                    assert(self.plugins() =~= old(self).plugins().remove(i as int));
                    assert forall|a: int|
                        0 <= a < self.plugins().len() implies (#[trigger] self.plugins()[a]).id.0
                        < self.next_id_spec() by {
                        let a0: int = if a < i { a } else { a + 1 };
                        assert(self.plugins()[a] == old(self).plugins()[a0]);
                    }
                    assert forall|a: int, b: int|
                        0 <= a < b < self.plugins().len() implies (
                    #[trigger] self.plugins()[a]).id.0 < (#[trigger] self.plugins()[b]).id.0 by {
                        let a0: int = if a < i { a } else { a + 1 };
                        let b0: int = if b < i { b } else { b + 1 };
                        assert(self.plugins()[a] == old(self).plugins()[a0]);
                        assert(self.plugins()[b] == old(self).plugins()[b0]);
                    }
                    assert forall|a: int|
                        0 <= a < self.plugins().len() implies (#[trigger] self.plugins()[a]).id
                        != *plugin_id by {
                        let a0: int = if a < i { a } else { a + 1 };
                        assert(self.plugins()[a] == old(self).plugins()[a0]);
                        if a0 < i as int {
                            assert(old(self).plugins()[a0].id.0 < old(self).plugins()[i as int].id.0);
                        } else {
                            assert(old(self).plugins()[i as int].id.0 < old(self).plugins()[a0].id.0);
                        }
                    }
                }
                return Some(entry.data);
            }
            i += 1;
        }
        None
    }

    /// The identities of the plugins whose backing file, per `observed`,
    /// changed since load: exactly those, in load order. Invoked once per
    /// frame while the application is disabled; the host performs the actual
    /// file reads and the subsequent reloads.
    pub fn update(&self, observed: &Vec<FileSnapshot>) -> (changed: Vec<PluginId>)
        ensures
            changed@ == self.plugins().filter(
                |e: PluginEntry| backing_file_changed(e.data, observed@),
            ).map_values(|e: PluginEntry| e.id),
    {
        let ghost pred = |e: PluginEntry| backing_file_changed(e.data, observed@);
        let mut changed: Vec<PluginId> = Vec::new();
        let mut i: usize = 0;
        proof {
            reveal(Seq::filter);
            assert(self.plugins().take(0) =~= Seq::<PluginEntry>::empty());
            assert(changed@ =~= self.plugins().take(0).filter(pred).map_values(
                |e: PluginEntry| e.id,
            ));
        }
        while i < self.entries.len()
            invariant
                i <= self.entries.len(),
                pred == (|e: PluginEntry| backing_file_changed(e.data, observed@)),
                changed@ == self.plugins().take(i as int).filter(pred).map_values(
                    |e: PluginEntry| e.id,
                ),
            decreases self.entries.len() - i,
        {
            let entry_changed = self.snapshot_differs(i, observed);
            let ghost taken = self.plugins().take(i as int);
            let ghost taken_next = self.plugins().take(i as int + 1);
            proof {
                reveal(Seq::filter);
                assert(taken_next.drop_last() =~= taken);
                assert(taken_next.last() == self.plugins()[i as int]);
            }
            if entry_changed {
                changed.push(self.entries[i].id);
                proof {
                    assert(taken_next.filter(pred) == taken.filter(pred).push(
                        self.plugins()[i as int],
                    ));
                    assert(changed@ =~= taken_next.filter(pred).map_values(
                        |e: PluginEntry| e.id,
                    ));
                }
            } else {
                proof {
                    assert(taken_next.filter(pred) == taken.filter(pred));
                }
            }
            i += 1;
        }
        proof {
            assert(self.plugins().take(self.plugins().len() as int) =~= self.plugins());
        }
        changed
    }

    /// Whether the backing file of the plugin at index `i` changed, per
    /// `observed`.
    fn snapshot_differs(&self, i: usize, observed: &Vec<FileSnapshot>) -> (differs: bool)
        requires
            i < self.plugins().len(),
        ensures
            differs == backing_file_changed(self.plugins()[i as int].data, observed@),
    {
        let mut k: usize = 0;
        while k < observed.len()
            invariant
                i < self.plugins().len(),
                k <= observed@.len(),
                forall|j: int|
                    0 <= j < k ==> !((#[trigger] observed@[j]).path@ == self.plugins()[
                        i as int
                    ].data.original_path@ && (observed@[j].size != self.plugins()[
                        i as int
                    ].data.file_size || observed@[j].timestamp != self.plugins()[
                        i as int
                    ].data.file_timestamp)),
            decreases observed@.len() - k,
        {
            let snapshot = &observed[k];
            let data = &self.entries[i].data;
            if snapshot.path.as_str().to_owned() == data.original_path && (snapshot.size
                != data.file_size || snapshot.timestamp != data.file_timestamp) {
                return true;
            }
            k += 1;
        }
        false
    }

    /// The identities of every loaded plugin, in load order: what the host
    /// walks to tear every plugin down at shutdown.
    pub fn release(&self) -> (ids: Vec<PluginId>)
        ensures
            ids@.len() == self.plugins().len(),
            forall|i: int| 0 <= i < ids@.len() ==> ids@[i] == self.plugins()[i].id,
    {
        let mut ids: Vec<PluginId> = Vec::new();
        let mut i: usize = 0;
        while i < self.entries.len()
            invariant
                i <= self.entries.len(),
                ids@.len() == i,
                forall|j: int| 0 <= j < i ==> ids@[j] == self.plugins()[j].id,
            decreases self.entries.len() - i,
        {
            ids.push(self.entries[i].id);
            i += 1;
        }
        ids
    }
}

} // verus!
