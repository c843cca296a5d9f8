//! The OCI image index: a list of manifests, one per platform.

use vstd::prelude::*;

use crate::download::Descriptor;

verus! {

/// An image index. It is written with the media type
/// `application/vnd.oci.image.index.v1+json`.
#[derive(Debug, Clone, PartialEq, Eq)]
pub struct Index {
    /// Always 2, for compatibility with older Docker versions.
    schema_version: i32,
    /// The platform-specific manifests.
    pub manifests: Vec<Descriptor>,
    /// Reserved; when present, the media type of this document.
    pub media_type: Option<String>,
    /// Arbitrary metadata.
    pub annotations: Option<std::collections::HashMap<String, String>>,
}

impl Index {
    pub closed spec fn version(&self) -> i32 {
        self.schema_version
    }

    pub closed spec fn manifest_list(&self) -> Seq<Descriptor> {
        self.manifests@
    }

    pub closed spec fn has_media_type(&self) -> bool {
        self.media_type is Some
    }

    pub closed spec fn has_annotations(&self) -> bool {
        self.annotations is Some
    }

    /// The manifest schema version.
    pub fn schema_version(&self) -> (r: i32)
        ensures
            r == self.version(),
    {
        self.schema_version
    }

    /// The media type of an image index.
    pub fn media_type_name() -> (r: &'static str)
        ensures
            r@ == "application/vnd.oci.image.index.v1+json"@,
    {
        "application/vnd.oci.image.index.v1+json"
    }

    /// The Docker media type that denotes the same kind of document.
    pub fn similar_media_type_name() -> (r: &'static str)
        ensures
            r@ == "application/vnd.docker.distribution.manifest.list.v2+json"@,
    {
        "application/vnd.docker.distribution.manifest.list.v2+json"
    }
}

impl Default for Index {
    fn default() -> (r: Index)
        ensures
            r.version() == 2,
            r.manifest_list().len() == 0,
            !r.has_media_type(),
            !r.has_annotations(),
    {
        Index { schema_version: 2, manifests: Vec::new(), media_type: None, annotations: None }
    }
}

} // verus!
