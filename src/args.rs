//! The build command's arguments.
use vstd::prelude::*;
use crate::path::{join, joined, views};

verus! {

/// Where to read the extension, and where to write the plugin archive.
#[derive(Debug, Clone)]
pub struct BuildArgs {
    /// The packaged extension, or its directory.
    pub path: String,
    /// The archive's file name.
    pub outfile: String,
    /// The directory the archive goes to.
    pub outdir: String,
    /// A plugin manifest to merge over the generated one.
    pub manifest: Option<String>,
}

impl BuildArgs {
    /// The archive's path: the output directory joined with the file name.
    pub fn output_path(&self) -> (r: String)
        ensures
            r@ == joined(seq![self.outdir@, self.outfile@]),
    {
        let parts = vec![self.outdir.clone(), self.outfile.clone()];
        proof {
            assert(views(parts@) =~= seq![self.outdir@, self.outfile@]);
        }
        join(parts.as_slice())
    }
}

} // verus!
