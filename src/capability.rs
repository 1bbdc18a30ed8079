use vstd::prelude::*;

verus! {

/// A feature that a backend can offer.
#[derive(Clone, Copy, Debug, PartialEq, Eq, Structural)]
pub enum Capability {
    WatchFiles,
    WatchFolders,
    WatchRecursively,
    EmitOnAccess,
    EmitRename,
    EmitMetadata,
}

} // verus!
