use vstd::prelude::*;

use crate::modrinth::{ModrinthHashes, ModrinthSideRequirement};

verus! {

/// One file of a Modrinth pack: where it goes, its checksums, on which sides it is
/// needed, where it can be downloaded and its size.
#[derive(Clone, Debug)]
pub struct ModrinthModpackFileDownload {
    pub path: String,
    pub hashes: ModrinthHashes,
    pub env: Option<ModrinthEnv>,
    pub downloads: Vec<String>,
    pub file_size: usize,
}

/// On which sides a file of a Modrinth pack is needed.
#[derive(Clone, Copy, Debug, PartialEq, Eq, Structural)]
pub struct ModrinthEnv {
    pub client: ModrinthSideRequirement,
    pub server: ModrinthSideRequirement,
}

/// A pack file that does not say whether the server needs it is needed there.
pub fn default_required_side() -> (res: ModrinthSideRequirement)
    ensures
        res == ModrinthSideRequirement::Required,
{
    ModrinthSideRequirement::Required
}

} // verus!
