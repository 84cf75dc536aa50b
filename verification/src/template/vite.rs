//! An entry of the manifest that the Vite build tool writes.

use vstd::prelude::*;
use vstd::string::*;

verus! {

/// A chunk of a Vite manifest.
#[derive(Debug)]
pub struct ViteManifestChunk {
    pub src: Option<String>,
    pub file: String,
    pub css: Option<Vec<String>>,
    pub assets: Option<Vec<String>>,
    pub is_entry: Option<bool>,
    pub name: Option<String>,
    pub is_dynamic_entry: Option<bool>,
    pub imports: Option<Vec<String>>,
    pub dynamic_imports: Option<Vec<String>>,
}

impl ViteManifestChunk {
    /// Where the chunk's file is served from: `public/dist/<file>`.
    pub fn asset_path(&self) -> (p: String)
        ensures
            p@ == "public/dist/"@ + self.file@,
    {
        let mut p = String::from_str("public/dist/");
        p.append(self.file.as_str());
        p
    }
}

} // verus!
