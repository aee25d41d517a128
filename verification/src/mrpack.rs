use vstd::prelude::*;

verus! {

/// The format version of a pack index that does not give one.
pub fn default_format_version() -> (res: u32)
    ensures
        res == 1,
{
    1
}

/// The game of a pack index that does not name one.
pub fn default_game() -> (res: String)
    ensures
        res@ == "minecraft"@,
{
    "minecraft".to_owned()
}

} // verus!
