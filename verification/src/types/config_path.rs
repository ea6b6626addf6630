//! Where the node keeps its configuration.

use vstd::prelude::*;

verus! {

/// The directory of the node's configuration.
#[derive(Clone, Debug)]
pub struct ConfigPath {
    pub path: String,
}

impl ConfigPath {
    /// The path as text, the way the node prints it.
    pub fn to_string(&self) -> (text: String)
        ensures
            text@ == self.path@,
    {
        self.path.clone()
    }
}

} // verus!
