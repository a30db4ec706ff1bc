//! The loader's attachment state: which containers' interfaces carry the
//! classifier programs.  Every successful attach is balanced by exactly
//! one detach, and cleanup detaches everything that is still attached.

use vstd::prelude::*;

use crate::maps::ContainerID;
use crate::store::KeySet;

verus! {

/// Tracks the containers whose interfaces the classifiers are attached
/// to.
pub struct Loader {
    pub attached: KeySet<ContainerID>,
}

impl Loader {
    /// A loader with nothing attached.
    pub fn new() -> (r: Loader)
        ensures
            r.attached@ == Set::<ContainerID>::empty(),
    {
        Loader { attached: KeySet::new() }
    }

    /// Records the attachment of the classifiers to one container's
    /// interface; attaching again changes nothing.
    pub fn attach(&mut self, container: ContainerID)
        ensures
            final(self).attached@ == old(self).attached@.insert(container),
    {
        self.attached.insert(container);
    }

    /// Records the detachment from one container's interface, as on
    /// container stop; detaching an unattached container changes
    /// nothing.
    pub fn detach(&mut self, container: &ContainerID)
        ensures
            final(self).attached@ == old(self).attached@.remove(*container),
    {
        self.attached.remove(container);
    }

    /// Whether the classifiers are attached for a container.
    pub fn is_attached(&self, container: &ContainerID) -> (r: bool)
        ensures
            r <==> self.attached@.contains(*container),
    {
        self.attached.contains(container)
    }

    /// Detaches every remaining program, leaving nothing attached.
    pub fn detach_programs(&mut self)
        ensures
            final(self).attached@ == Set::<ContainerID>::empty(),
    {
        self.attached = KeySet::new();
    }
}

} // verus!
