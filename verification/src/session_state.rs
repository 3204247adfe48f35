//! Whether a session's volume is mounted, and what an unmount request does.
use vstd::prelude::*;

verus! {

/// The volume refused to unmount.
#[derive(Clone, Copy, Debug, PartialEq, Eq, Structural)]
pub struct UnmountFailed;

/// The mount state shared by a session and its unmount handles.
#[derive(Clone, Copy, Debug, PartialEq, Eq, Structural)]
pub struct MountState {
    pub mounted: bool,
}

impl MountState {
    /// A freshly mounted volume.
    pub fn mounted() -> (r: MountState)
        ensures
            r.mounted,
    {
        MountState { mounted: true }
    }

    /// Whether an unmount request has to ask the system to unmount.
    pub fn needs_unmount(&self) -> (r: bool)
        ensures
            r == self.mounted,
    {
        self.mounted
    }

    /// Takes the system's answer to an unmount: on success the volume is no
    /// longer mounted; on failure nothing changes and the failure is reported.
    pub fn record_unmount(&mut self, unmounted: bool) -> (r: Result<(), UnmountFailed>)
        requires
            old(self).mounted,
        ensures
            unmounted ==> r is Ok && !final(self).mounted,
            !unmounted ==> r == Err::<(), UnmountFailed>(UnmountFailed) && final(self).mounted,
    {
        if unmounted {
            self.mounted = false;
            Ok(())
        } else {
            Err(UnmountFailed)
        }
    }
}

/// Whether the filesystem has been told to tear down. The session and the
/// unmount notification share it, so the filesystem hears of it once.
#[derive(Clone, Copy, Debug, PartialEq, Eq, Structural)]
pub struct DestroyOnce {
    pub destroyed: bool,
}

impl DestroyOnce {
    pub fn new() -> (r: DestroyOnce)
        ensures
            !r.destroyed,
    {
        DestroyOnce { destroyed: false }
    }

    /// Claims the teardown: true for the first claim only.
    pub fn claim(&mut self) -> (r: bool)
        ensures
            r == !old(self).destroyed,
            final(self).destroyed,
    {
        let first = !self.destroyed;
        self.destroyed = true;
        first
    }
}

/// Of two claims on the same teardown, at most one succeeds.
pub proof fn lemma_destroy_claimed_once(start: DestroyOnce, mid: DestroyOnce, first: bool, second: bool)
    requires
        first == !start.destroyed,
        mid.destroyed,
        second == !mid.destroyed,
    ensures
        !(first && second),
        !second,
{
}

} // verus!
