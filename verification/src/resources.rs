//! Where the files that accompany a simulation are found, and the handles
//! by which what was loaded from them is named.

pub mod model;

use vstd::prelude::*;

verus! {

/// The directory below which resource files are looked up.
pub struct FsResources {
    base_dir: String,
}

impl View for FsResources {
    type V = Seq<char>;

    /// The path of the base directory.
    closed spec fn view(&self) -> Seq<char> {
        self.base_dir@
    }
}

impl FsResources {
    /// Resources below the directory `base_dir`.
    pub fn new(base_dir: &str) -> (resources: FsResources)
        ensures
            resources@ == base_dir@,
    {
        FsResources { base_dir: base_dir.to_owned() }
    }

    /// The path of the base directory, as it was given to
    /// [`FsResources::new`].
    pub fn base_dir(&self) -> (base_dir: &str)
        ensures
            base_dir@ == self@,
    {
        self.base_dir.as_str()
    }
}

} // verus!
