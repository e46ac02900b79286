//! What is known of a capture device before a session is opened on it.

use vstd::prelude::*;

verus! {

/// A capture device as discovery reports it: the identifier a session is
/// opened with, and the name shown to the user.
#[derive(Clone, Debug)]
pub struct DeviceInfo {
    id: String,
    pub name: String,
}

/// What a device description is to the contracts.
pub struct Device {
    pub id: Seq<char>,
    pub name: Seq<char>,
}

impl View for DeviceInfo {
    type V = Device;

    closed spec fn view(&self) -> Device {
        Device { id: self.id@, name: self.name@ }
    }
}

impl DeviceInfo {
    /// Describes the device with identifier `id` and display name `name`.
    pub fn new(id: String, name: String) -> (info: Self)
        ensures
            info@ == (Device { id: id@, name: name@ }),
    {
        DeviceInfo { id, name }
    }

    /// The identifier a capture session is opened with.
    pub fn id(&self) -> (id: &str)
        ensures
            id@ == self@.id,
    {
        self.id.as_str()
    }

    /// The name shown to the user.
    pub fn name(&self) -> (name: &str)
        ensures
            name@ == self@.name,
    {
        self.name.as_str()
    }
}

} // verus!
