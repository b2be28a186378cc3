//! The types that a pack manifest is made of.

use semver::Version;
use vstd::prelude::*;
use vstd::string::StringExecFns;

pub mod files;
pub mod loader;
pub mod minecraft;

pub use files::{ManagedFile, ManagedFiles, Side, Source};
pub use loader::Loader;
pub use minecraft::{Minecraft, MinecraftVersionError};

verus! {

/// The versions of Minecraft and of the loader that a pack works with.
#[derive(Debug, PartialEq, Eq, Clone, Hash)]
pub struct Versions {
    /// The version of Minecraft
    pub minecraft: Minecraft,
    /// The loader and its version
    pub loader: Loader,
}

impl Default for Versions {
    /// Minecraft 1.19 with the default Quilt loader.
    fn default() -> (r: Versions)
        ensures
            r.minecraft@ == (minecraft::VersionModel::Release { major: 1, minor: 19, patch: None }),
            r.loader is Quilt,
    {
        Versions { minecraft: Minecraft::default(), loader: Loader::default() }
    }
}

/// What a pack says of itself.
#[derive(Debug, PartialEq, Eq, Clone, Hash)]
pub struct Metadata {
    /// The name of the pack
    pub name: String,
    /// A description of the pack
    pub description: Option<String>,
    /// The author of the pack
    pub author: String,
    /// The version of the pack
    pub version: Version,
}

/// The placeholder metadata of a new manifest.
pub open spec fn is_placeholder_metadata(m: Metadata) -> bool {
    &&& m.name@ == "My super cool modpack!"@
    &&& m.description matches Some(d) && d@ == "Totally a real mod pack!"@
    &&& m.author@ == "Your name here!"@
}

impl Default for Metadata {
    /// Placeholder values for a new manifest, at version `0.0.1`.
    fn default() -> (r: Metadata)
        ensures
            is_placeholder_metadata(r),
    {
        Metadata {
            name: String::from_str("My super cool modpack!"),
            description: Some(String::from_str("Totally a real mod pack!")),
            author: String::from_str("Your name here!"),
            version: loader::semver_new(0, 0, 1),
        }
    }
}

} // verus!
