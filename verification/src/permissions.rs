//! Microphone permission stubs: the real checks live in platform code, and
//! every platform handled here reports the permission as granted.

use vstd::prelude::*;

verus! {

/// Whether the microphone permission is granted.
#[derive(Debug, Clone, Copy)]
pub struct PermissionStatus {
    granted: bool,
}

impl PermissionStatus {
    pub closed spec fn spec_granted(&self) -> bool {
        self.granted
    }

    pub fn new(granted: bool) -> (r: Self)
        ensures
            r.spec_granted() == granted,
    {
        PermissionStatus { granted }
    }

    pub fn granted(&self) -> (r: bool)
        ensures
            r == self.spec_granted(),
    {
        self.granted
    }
}

/// Report the current microphone permission: granted on every platform
/// handled here (the platform layer performs the real check elsewhere).
pub fn check_microphone_permission() -> (r: Result<PermissionStatus, String>)
    ensures
        r matches Ok(p) && p.spec_granted(),
{
    Ok(PermissionStatus { granted: true })
}

/// Ask for the microphone permission: granted on every platform handled
/// here (the platform layer shows the real dialog elsewhere).
pub fn request_microphone_permission() -> (r: Result<PermissionStatus, String>)
    ensures
        r matches Ok(p) && p.spec_granted(),
{
    Ok(PermissionStatus { granted: true })
}

} // verus!
