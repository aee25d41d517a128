use vstd::prelude::*;

verus! {

/// The mod loader types of the CurseForge API.
#[derive(Clone, Copy, Debug, PartialEq, Eq, Structural, Hash)]
pub enum CurseforgeModLoaderType {
    Any,
    Forge,
    Fabric,
    NeoForge,
}

/// The links of a CurseForge project.
#[derive(Clone, Debug)]
pub struct CurseforgeLinks {
    pub website_url: String,
}

/// The parts of a CurseForge project that the launcher reads.
#[derive(Clone, Debug)]
pub struct CurseforgeProject {
    pub name: String,
    pub links: CurseforgeLinks,
}

/// The parts of a CurseForge file that the launcher reads.
#[derive(Clone, Debug)]
pub struct CurseforgeFile {
    pub id: u32,
    pub mod_id: u32,
    pub file_name: String,
    pub file_length: u64,
}

} // verus!
