//! Platform-facing value types: the token standing for a loaded dynamic
//! module, and the window handle record.

use vstd::prelude::*;

verus! {

/// A token standing for one loaded dynamic module.
///
/// The native handle itself lives with the host, keyed by this token's
/// identity; the core only sequences the token's life. Consuming it through
/// [`Library::close`] is the single way the core lets go of a module, so the
/// teardown protocol can make "deregister, then unload" an API ordering
/// rather than a convention: the token is surrendered only after every
/// system of the owning plugin was uninitialized.
pub struct Library {
    id: u64,
}

impl Library {
    /// The identity under which the host knows the native handle.
    pub closed spec fn id_spec(&self) -> u64 {
        self.id
    }

    /// Wraps the identity the host loaded a module under.
    pub fn new(id: u64) -> (library: Library)
        ensures
            library.id_spec() == id,
    {
        Library { id }
    }

    /// The identity under which the host knows the native handle.
    pub fn id(&self) -> (id: u64)
        ensures
            id == self.id_spec(),
    {
        self.id
    }

    /// Surrenders the token, consuming it: afterwards nothing in the core
    /// refers to the module, and the host may drop the native handle.
    pub fn close(self) {
        let _ = self;
    }
}

/// A window handle record: the numeric values of the native window handle
/// and of the instance it belongs to, as the host reported them.
#[derive(Debug, Clone, Copy, PartialEq, Eq, Hash, Structural)]
pub struct HandleImpl {
    /// The native window handle's value.
    pub hwnd: usize,
    /// The native instance handle's value.
    pub hinstance: usize,
}

} // verus!
