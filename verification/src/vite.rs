//! An entry of the manifest that the Vite build tool writes.

use vstd::prelude::*;

verus! {

/// A chunk of a Vite manifest.
#[derive(Debug)]
pub struct ViteManifestChunk {
    src: Option<String>,
    file: String,
    css: Option<Vec<String>>,
    assets: Option<Vec<String>>,
    is_entry: Option<bool>,
    name: Option<String>,
    is_dynamic_entry: Option<bool>,
    imports: Option<Vec<String>>,
    dynamic_imports: Option<Vec<String>>,
}

} // verus!
