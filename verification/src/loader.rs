use vstd::prelude::*;

use crate::curseforge::CurseforgeModLoaderType;
use crate::modrinth::ModrinthLoader;
use crate::text::str_eq;

verus! {

/// A mod loader that an instance can run.
#[derive(Clone, Copy, Debug, PartialEq, Eq, Structural, Hash)]
pub enum Loader {
    Fabric,
    Forge,
    NeoForge,
    Vanilla,
}

/// The name shown to users for a loader.
pub open spec fn spec_pretty_name(l: Loader) -> Seq<char> {
    match l {
        Loader::Vanilla => seq!['V', 'a', 'n', 'i', 'l', 'l', 'a'],
        Loader::Fabric => seq!['F', 'a', 'b', 'r', 'i', 'c'],
        Loader::Forge => seq!['F', 'o', 'r', 'g', 'e'],
        Loader::NeoForge => seq!['N', 'e', 'o', 'F', 'o', 'r', 'g', 'e'],
    }
}

/// The lower-case name under which a loader is stored in files.
pub open spec fn spec_serde_name(l: Loader) -> Seq<char> {
    match l {
        Loader::Vanilla => seq!['v', 'a', 'n', 'i', 'l', 'l', 'a'],
        Loader::Fabric => seq!['f', 'a', 'b', 'r', 'i', 'c'],
        Loader::Forge => seq!['f', 'o', 'r', 'g', 'e'],
        Loader::NeoForge => seq!['n', 'e', 'o', 'f', 'o', 'r', 'g', 'e'],
    }
}

/// A name is accepted for a loader when it is its pretty name or its lower-case name.
pub open spec fn spec_from_name(s: Seq<char>) -> Option<Loader> {
    if s == spec_pretty_name(Loader::Vanilla) || s == spec_serde_name(Loader::Vanilla) {
        Some(Loader::Vanilla)
    } else if s == spec_pretty_name(Loader::Fabric) || s == spec_serde_name(Loader::Fabric) {
        Some(Loader::Fabric)
    } else if s == spec_pretty_name(Loader::Forge) || s == spec_serde_name(Loader::Forge) {
        Some(Loader::Forge)
    } else if s == spec_pretty_name(Loader::NeoForge) || s == spec_serde_name(Loader::NeoForge) {
        Some(Loader::NeoForge)
    } else {
        None
    }
}

/// Reading a stored loader name: every name that is not one of the other
/// loaders' names reads as `Vanilla`.
pub open spec fn spec_from_serde_name(s: Seq<char>) -> Loader {
    match spec_from_name(s) {
        Some(l) => l,
        None => Loader::Vanilla,
    }
}

pub open spec fn spec_as_modrinth_loader(l: Loader) -> ModrinthLoader {
    match l {
        Loader::Vanilla => ModrinthLoader::Unknown,
        Loader::Fabric => ModrinthLoader::Fabric,
        Loader::Forge => ModrinthLoader::Forge,
        Loader::NeoForge => ModrinthLoader::NeoForge,
    }
}

pub open spec fn spec_as_curseforge_loader(l: Loader) -> CurseforgeModLoaderType {
    match l {
        Loader::Vanilla => CurseforgeModLoaderType::Any,
        Loader::Fabric => CurseforgeModLoaderType::Fabric,
        Loader::Forge => CurseforgeModLoaderType::Forge,
        Loader::NeoForge => CurseforgeModLoaderType::NeoForge,
    }
}

impl Loader {
    pub fn pretty_name(self) -> (res: &'static str)
        ensures
            res@ == spec_pretty_name(self),
    {
        match self {
            Loader::Vanilla => {
                proof {
                    reveal_strlit("Vanilla");
                }
                "Vanilla"
            },
            Loader::Fabric => {
                proof {
                    reveal_strlit("Fabric");
                }
                "Fabric"
            },
            Loader::Forge => {
                proof {
                    reveal_strlit("Forge");
                }
                "Forge"
            },
            Loader::NeoForge => {
                proof {
                    reveal_strlit("NeoForge");
                }
                "NeoForge"
            },
        }
    }

    /// The lower-case name under which the loader is written to files.
    pub fn serde_name(self) -> (res: &'static str)
        ensures
            res@ == spec_serde_name(self),
    {
        match self {
            Loader::Vanilla => {
                proof {
                    reveal_strlit("vanilla");
                }
                "vanilla"
            },
            Loader::Fabric => {
                proof {
                    reveal_strlit("fabric");
                }
                "fabric"
            },
            Loader::Forge => {
                proof {
                    reveal_strlit("forge");
                }
                "forge"
            },
            Loader::NeoForge => {
                proof {
                    reveal_strlit("neoforge");
                }
                "neoforge"
            },
        }
    }

    pub fn from_name(str: &str) -> (res: Option<Self>)
        ensures
            res == spec_from_name(str@),
    {
        proof {
            reveal_strlit("Vanilla");
            reveal_strlit("vanilla");
            reveal_strlit("Fabric");
            reveal_strlit("fabric");
            reveal_strlit("Forge");
            reveal_strlit("forge");
            reveal_strlit("NeoForge");
            reveal_strlit("neoforge");
        }
        assert("Vanilla"@ =~= spec_pretty_name(Loader::Vanilla));
        assert("vanilla"@ =~= spec_serde_name(Loader::Vanilla));
        assert("Fabric"@ =~= spec_pretty_name(Loader::Fabric));
        assert("fabric"@ =~= spec_serde_name(Loader::Fabric));
        assert("Forge"@ =~= spec_pretty_name(Loader::Forge));
        assert("forge"@ =~= spec_serde_name(Loader::Forge));
        assert("NeoForge"@ =~= spec_pretty_name(Loader::NeoForge));
        assert("neoforge"@ =~= spec_serde_name(Loader::NeoForge));
        if str_eq(str, "Vanilla") || str_eq(str, "vanilla") {
            Some(Loader::Vanilla)
        } else if str_eq(str, "Fabric") || str_eq(str, "fabric") {
            Some(Loader::Fabric)
        } else if str_eq(str, "Forge") || str_eq(str, "forge") {
            Some(Loader::Forge)
        } else if str_eq(str, "NeoForge") || str_eq(str, "neoforge") {
            Some(Loader::NeoForge)
        } else {
            None
        }
    }

    /// Reads a stored loader name; a name of no other loader reads as `Vanilla`.
    pub fn from_serde_name(str: &str) -> (res: Self)
        ensures
            res == spec_from_serde_name(str@),
    {
        match Loader::from_name(str) {
            Some(l) => l,
            None => Loader::Vanilla,
        }
    }

    pub fn as_modrinth_loader(self) -> (res: ModrinthLoader)
        ensures
            res == spec_as_modrinth_loader(self),
    {
        match self {
            Loader::Vanilla => ModrinthLoader::Unknown,
            Loader::Fabric => ModrinthLoader::Fabric,
            Loader::Forge => ModrinthLoader::Forge,
            Loader::NeoForge => ModrinthLoader::NeoForge,
        }
    }

    pub fn as_curseforge_loader(&self) -> (res: CurseforgeModLoaderType)
        ensures
            res == spec_as_curseforge_loader(*self),
    {
        match self {
            Loader::Vanilla => CurseforgeModLoaderType::Any,
            Loader::Fabric => CurseforgeModLoaderType::Fabric,
            Loader::Forge => CurseforgeModLoaderType::Forge,
            Loader::NeoForge => CurseforgeModLoaderType::NeoForge,
        }
    }
}

/// A loader is found again by its pretty name.
pub proof fn lemma_from_name_of_pretty_name(l: Loader)
    ensures
        spec_from_name(spec_pretty_name(l)) == Some(l),
{
}

/// A loader is found again by the name under which it is stored.
pub proof fn lemma_from_name_of_serde_name(l: Loader)
    ensures
        spec_from_name(spec_serde_name(l)) == Some(l),
{
}

/// Reading back what was written gives the same loader.
pub proof fn lemma_serde_name_round_trip(l: Loader)
    ensures
        spec_from_serde_name(spec_serde_name(l)) == l,
{
}

/// Two loaders never share a pretty name, a stored name, a Modrinth loader or a CurseForge
/// loader type.
pub proof fn lemma_names_distinct(a: Loader, b: Loader)
    ensures
        spec_pretty_name(a) == spec_pretty_name(b) ==> a == b,
        spec_serde_name(a) == spec_serde_name(b) ==> a == b,
        spec_as_modrinth_loader(a) == spec_as_modrinth_loader(b) ==> a == b,
        spec_as_curseforge_loader(a) == spec_as_curseforge_loader(b) ==> a == b,
{
    lemma_from_name_of_pretty_name(a);
    lemma_from_name_of_pretty_name(b);
    lemma_from_name_of_serde_name(a);
    lemma_from_name_of_serde_name(b);
}

} // verus!

verus! {

/// The ASCII lower-case form of a character.
pub open spec fn ascii_lower_char(c: char) -> char {
    if 'A' <= c <= 'Z' {
        ((c as u32) + 32) as char
    } else {
        c
    }
}

/// The ASCII lower-case form of a name.
pub open spec fn ascii_lowercase(s: Seq<char>) -> Seq<char> {
    s.map_values(|c: char| ascii_lower_char(c))
}

/// The names of the loaders: `Vanilla`, `Fabric`, `Forge` and `NeoForge` shown, and
/// `vanilla`, `fabric`, `forge` and `neoforge` stored.
pub proof fn lemma_loader_names()
    ensures
        spec_pretty_name(Loader::Vanilla) == "Vanilla"@,
        spec_pretty_name(Loader::Fabric) == "Fabric"@,
        spec_pretty_name(Loader::Forge) == "Forge"@,
        spec_pretty_name(Loader::NeoForge) == "NeoForge"@,
        spec_serde_name(Loader::Vanilla) == "vanilla"@,
        spec_serde_name(Loader::Fabric) == "fabric"@,
        spec_serde_name(Loader::Forge) == "forge"@,
        spec_serde_name(Loader::NeoForge) == "neoforge"@,
{
    reveal_strlit("Vanilla");
    reveal_strlit("vanilla");
    reveal_strlit("Fabric");
    reveal_strlit("fabric");
    reveal_strlit("Forge");
    reveal_strlit("forge");
    reveal_strlit("NeoForge");
    reveal_strlit("neoforge");
    assert("Vanilla"@ =~= spec_pretty_name(Loader::Vanilla));
    assert("vanilla"@ =~= spec_serde_name(Loader::Vanilla));
    assert("Fabric"@ =~= spec_pretty_name(Loader::Fabric));
    assert("fabric"@ =~= spec_serde_name(Loader::Fabric));
    assert("Forge"@ =~= spec_pretty_name(Loader::Forge));
    assert("forge"@ =~= spec_serde_name(Loader::Forge));
    assert("NeoForge"@ =~= spec_pretty_name(Loader::NeoForge));
    assert("neoforge"@ =~= spec_serde_name(Loader::NeoForge));
}

/// A loader is stored under the lower-case form of the name it is shown by.
pub proof fn lemma_stored_name_is_lower_case(l: Loader)
    ensures
        spec_serde_name(l) == ascii_lowercase(spec_pretty_name(l)),
{
    assert(spec_serde_name(l) =~= ascii_lowercase(spec_pretty_name(l)));
}

/// A name reads as a loader exactly when it is the loader's shown name or the
/// lower-case form of it; a stored name that is neither for any loader reads as
/// `Vanilla`.
pub proof fn lemma_names_read_back(s: Seq<char>, l: Loader)
    ensures
        spec_from_name(s) == Some(l) <==> (s == spec_pretty_name(l) || s == ascii_lowercase(
            spec_pretty_name(l),
        )),
        spec_from_name(s) is None ==> spec_from_serde_name(s) == Loader::Vanilla,
        spec_from_name(s) matches Some(m) ==> spec_from_serde_name(s) == m,
{
    lemma_stored_name_is_lower_case(Loader::Vanilla);
    lemma_stored_name_is_lower_case(Loader::Fabric);
    lemma_stored_name_is_lower_case(Loader::Forge);
    lemma_stored_name_is_lower_case(Loader::NeoForge);
    lemma_names_distinct_all();
}

proof fn lemma_names_distinct_all()
    ensures
        forall|a: Loader, b: Loader| a != b ==> spec_pretty_name(a) != spec_pretty_name(b)
            && spec_serde_name(a) != spec_serde_name(b) && spec_pretty_name(a) != spec_serde_name(b),
{
    assert forall|a: Loader, b: Loader| a != b implies spec_pretty_name(a) != spec_pretty_name(b)
        && spec_serde_name(a) != spec_serde_name(b) && spec_pretty_name(a) != spec_serde_name(b) by {
        lemma_from_name_of_pretty_name(a);
        lemma_from_name_of_pretty_name(b);
        lemma_from_name_of_serde_name(a);
        lemma_from_name_of_serde_name(b);
    }
}

} // verus!
