//! Choosing the manifest for the running platform. The registry is asked for a
//! manifest list first; when it has none to give, the tag is taken to name a
//! single-platform image manifest, which is fetched and described instead.

use vstd::prelude::*;
use vstd::string::*;
use crate::manifest::{has_match, is_first_match, ImageManifest, ManifestDescriptor, ManifestList, Platform, RegistryError};
use crate::text::str_eq;

verus! {

/// The architecture name the registry uses for the machine architecture `raw`.
pub open spec fn spec_registry_arch(raw: Seq<char>) -> Seq<char> {
    if raw == "x86_64"@ {
        "amd64"@
    } else {
        raw
    }
}

/// Maps a machine architecture name to the name the registry uses:
/// "x86_64" is "amd64", every other name stands as it is.
pub fn registry_arch(raw: &str) -> (a: String)
    ensures
        a@ == spec_registry_arch(raw@),
{
    if str_eq(raw, "x86_64") {
        String::from_str("amd64")
    } else {
        String::from_str(raw)
    }
}

/// What the lookup does after the registry answered the request for the
/// manifest list.
#[derive(Debug)]
pub enum LookupStep {
    /// The manifest for the platform, taken from the list.
    Found(ManifestDescriptor),
    /// The list holds no manifest for the platform.
    Failed(RegistryError),
    /// There is no list: fetch the image manifest that this tag names.
    FetchImageManifest(String),
}

/// Next step of the lookup once the manifest list of `tag` was fetched
/// (`Some`) or could not be had (`None`).
pub fn after_manifest_list(list: Option<ManifestList>, tag: &str, arch: &str, os: &str) -> (s:
    LookupStep)
    ensures
        list is None <==> s is FetchImageManifest,
        s matches LookupStep::FetchImageManifest(t) ==> t@ == tag@,
        list matches Some(l) ==> match s {
            LookupStep::Found(d) => exists|i: int|
                is_first_match(l.manifests@, arch@, os@, i) && d == l.manifests@[i],
            LookupStep::Failed(RegistryError::NoPlatformManifest { os: e_os, arch: e_arch }) => {
                &&& !has_match(l.manifests@, arch@, os@)
                &&& e_os@ == os@
                &&& e_arch@ == arch@
            },
            LookupStep::Failed(RegistryError::InvalidHeaderValue) => false,
            LookupStep::FetchImageManifest(_) => false,
        },
        list matches Some(l) ==> (s is Failed <==> !has_match(l.manifests@, arch@, os@)),
{
    match list {
        Some(l) => match l.select_platform(arch, os) {
            Ok(d) => LookupStep::Found(d),
            Err(e) => LookupStep::Failed(e),
        },
        None => LookupStep::FetchImageManifest(String::from_str(tag)),
    }
}

/// Describes the single-platform image manifest that `tag` names as the
/// manifest for `arch` on `os`: its digest is the tag, its size that of the
/// manifest's configuration blob.
pub fn describe_image_manifest(tag: &str, arch: &str, os: &str, manifest: &ImageManifest) -> (d:
    ManifestDescriptor)
    ensures
        d.digest@ == tag@,
        d.platform.architecture@ == arch@,
        d.platform.os@ == os@,
        d.size == manifest.config.size,
{
    ManifestDescriptor {
        digest: String::from_str(tag),
        platform: Platform { architecture: String::from_str(arch), os: String::from_str(os) },
        size: manifest.config.size,
    }
}

} // verus!
