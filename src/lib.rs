//! A modpack manifest: Minecraft and loader versions, pack metadata, and the
//! collection of files that an installer places in the game directory.

use vstd::prelude::*;

pub mod decimal;
pub mod digest;
pub mod order;
pub mod types;

use types::{ManagedFile, ManagedFiles, Metadata, Versions};

verus! {

/// A modpack: what it is, what it runs on, and the files it installs.
#[derive(Debug, PartialEq, Eq, Clone, Hash)]
pub struct Pack {
    /// What the pack says of itself
    pub metadata: Metadata,
    /// The versions of Minecraft and of the loader that the pack works with
    pub versions: Versions,
    /// The files of the pack, one per path, in ascending path order
    pub managed_files: ManagedFiles,
}

impl Pack {
    /// The pack's invariant: its files are sorted strictly by path.
    pub open spec fn wf(&self) -> bool {
        self.managed_files.wf()
    }
}

impl Default for Pack {
    /// A scaffold for a new manifest: placeholder metadata, Minecraft 1.19
    /// with Quilt, and the example file alone.
    fn default() -> (r: Pack)
        ensures
            r.wf(),
            types::is_placeholder_metadata(r.metadata),
            r.versions.minecraft@ == (types::minecraft::VersionModel::Release {
                major: 1,
                minor: 19,
                patch: None,
            }),
            r.versions.loader is Quilt,
            r.managed_files@.len() == 1,
            types::files::is_example_file(r.managed_files@[0]),
    {
        let mut files = ManagedFiles::new();
        let example = ManagedFile::default();
        let ghost g = example;
        files.insert(example);
        assert(files@[0] == g);
        Pack { metadata: Metadata::default(), versions: Versions::default(), managed_files: files }
    }
}

} // verus!
