use vstd::prelude::*;

verus! {

/// The mod loaders that the Modrinth API knows this launcher's loaders by.
#[derive(Clone, Copy, Debug, PartialEq, Eq, Structural, Hash)]
pub enum ModrinthLoader {
    Fabric,
    Forge,
    NeoForge,
    Unknown,
}

/// Whether a file of a Modrinth pack is needed on one side (client or server).
#[derive(Clone, Copy, Debug, PartialEq, Eq, Structural, Hash)]
pub enum ModrinthSideRequirement {
    Required,
    Optional,
    Unsupported,
    Unknown,
}

/// The checksums that a Modrinth pack lists for one file.
#[derive(Clone, Debug)]
pub struct ModrinthHashes {
    pub sha1: String,
    pub sha512: String,
}

} // verus!
