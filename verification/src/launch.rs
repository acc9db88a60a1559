//! Decisions taken when the program starts: the background-launch flags and
//! the setup of the triggers file.
use vstd::prelude::*;

use crate::text::str_eq;

verus! {

/// The flags that start the program hidden in the tray.
pub open spec fn is_background_flag(arg: Seq<char>) -> bool {
    arg == "--background"@ || arg == "--startup"@ || arg == "--minimized"@
}

/// Whether the program was started in the background (at login, or
/// minimized): some argument after the program name is `--background`,
/// `--startup` or `--minimized`.
pub fn background_launch(args: &[String]) -> (r: bool)
    ensures
        r == exists|i: int| 1 <= i < args@.len() && #[trigger] is_background_flag(args@[i]@),
{
    let mut i: usize = 1;
    while i < args.len()
        invariant
            1 <= i,
            i <= args@.len() || args@.len() == 0,
            forall|j: int| 1 <= j < i && j < args@.len() ==> !#[trigger] is_background_flag(args@[j]@),
        decreases args@.len() - i,
    {
        let a = args[i].as_str();
        if str_eq(a, "--background") || str_eq(a, "--startup") || str_eq(a, "--minimized") {
            assert(is_background_flag(args@[i as int]@));
            return true;
        }
        i += 1;
    }
    false
}

/// How the triggers file is set up before it is read.
#[derive(Debug, Clone, Copy, PartialEq, Eq, Structural)]
pub enum ConfigSetup {
    /// The file exists: read it as it is.
    UseExisting,
    /// The file is missing but one from the program's earlier name exists:
    /// copy that one over.
    CopyLegacy,
    /// Neither exists: write the commented example.
    WriteExample,
}

/// The setup of the triggers file: an existing file is used as it is; a
/// missing one is copied from the legacy location when that exists, and
/// otherwise created with the example.
pub fn config_setup(path_exists: bool, legacy_exists: bool) -> (r: ConfigSetup)
    ensures
        path_exists ==> r == ConfigSetup::UseExisting,
        !path_exists && legacy_exists ==> r == ConfigSetup::CopyLegacy,
        !path_exists && !legacy_exists ==> r == ConfigSetup::WriteExample,
{
    if path_exists {
        ConfigSetup::UseExisting
    } else if legacy_exists {
        ConfigSetup::CopyLegacy
    } else {
        ConfigSetup::WriteExample
    }
}

} // verus!
