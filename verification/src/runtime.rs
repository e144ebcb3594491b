//! The runtime of one agent, made from its manifest.

use crate::manifest::Manifest;
use vstd::prelude::*;
use vstd::std_specs::convert::FromSpecImpl;

verus! {

/// The runtime of the agent that a manifest describes.
pub struct Runtime {
    manifest: Manifest,
}

impl Runtime {
    /// The manifest the runtime serves.
    pub closed spec fn spec_manifest(&self) -> Manifest {
        self.manifest
    }

    /// The manifest the runtime serves.
    pub fn manifest(&self) -> (res: &Manifest)
        ensures
            *res == self.spec_manifest(),
    {
        &self.manifest
    }
}

impl From<Manifest> for Runtime {
    fn from(manifest: Manifest) -> (res: Self)
        ensures
            res.spec_manifest() == manifest,
    {
        Runtime { manifest }
    }
}

impl FromSpecImpl<Manifest> for Runtime {
    open spec fn obeys_from_spec() -> bool {
        true
    }

    closed spec fn from_spec(v: Manifest) -> Self {
        Runtime { manifest: v }
    }
}

} // verus!
