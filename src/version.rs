use vstd::prelude::*;

verus! {

/// The version string reported by the service endpoint.
#[derive(Debug, Clone)]
pub struct Version {
    pub version: String,
}

impl Version {
    /// Wraps a version string.
    pub fn new(version: String) -> (r: Version)
        ensures
            r.version@ == version@,
    {
        Version { version }
    }

    /// The text shown for this version: the version string itself.
    pub fn text(&self) -> (r: String)
        ensures
            r@ == self.version@,
    {
        self.version.clone()
    }
}

} // verus!
