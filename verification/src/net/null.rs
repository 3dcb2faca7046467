//! A platform without devices.
//!
//! The client and the server start on it. Bridges are handles that do nothing;
//! asking for a TAP fails.
use vstd::prelude::*;
use vstd::string::*;

verus! {

/// A platform on which no TAP can be created.
#[derive(Debug, Default, Clone, Copy)]
pub struct NullPlatform;

/// A bridge that does nothing.
#[derive(Debug)]
pub struct NullBridge {
    pub name: String,
}

impl NullPlatform {
    /// Fails, and says why.
    pub fn create_tap(&self) -> (r: Result<(), String>)
        ensures
            r matches Err(m) && m@ == "no TAP backend compiled in for this platform"@,
    {
        Err("no TAP backend compiled in for this platform".to_owned())
    }

    /// A handle with this name.
    pub fn create_bridge(&self, name: &str) -> (r: NullBridge)
        ensures
            r.name@ == name@,
    {
        NullBridge { name: name.to_owned() }
    }
}

impl NullBridge {
    /// The name it was created with.
    pub fn name(&self) -> (r: &str)
        ensures
            r@ == self.name@,
    {
        self.name.as_str()
    }

    /// Fails, and says why.
    pub fn add_tap(&self) -> (r: Result<(), String>)
        ensures
            r matches Err(m) && m@ == "no bridge backend compiled in for this platform"@,
    {
        Err("no bridge backend compiled in for this platform".to_owned())
    }
}

} // verus!
