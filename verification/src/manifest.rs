//! Manifests as the registry describes them, and the choice of the manifest
//! that fits a platform.

use vstd::prelude::*;
use vstd::string::*;
use crate::text::{concat3, str_eq};

verus! {

/// Operating system and CPU architecture that an image is built for.
#[derive(Debug)]
pub struct Platform {
    pub architecture: String,
    pub os: String,
}

/// Address and size of a blob.
#[derive(Debug)]
pub struct Descriptor {
    pub digest: String,
    pub size: u64,
}

/// Entry of a manifest list: one manifest per platform.
#[derive(Debug)]
pub struct ManifestDescriptor {
    pub digest: String,
    pub platform: Platform,
    pub size: u64,
}

/// A manifest list (image index).
#[derive(Debug)]
pub struct ManifestList {
    pub manifests: Vec<ManifestDescriptor>,
}

/// An image manifest: its configuration blob and its layers, in order.
#[derive(Debug)]
pub struct ImageManifest {
    pub config: Descriptor,
    pub layers: Vec<Descriptor>,
}

impl Clone for Platform {
    fn clone(&self) -> (r: Self)
        ensures
            r == *self,
    {
        Platform { architecture: self.architecture.clone(), os: self.os.clone() }
    }
}

impl Clone for Descriptor {
    fn clone(&self) -> (r: Self)
        ensures
            r == *self,
    {
        Descriptor { digest: self.digest.clone(), size: self.size }
    }
}

impl Clone for ManifestDescriptor {
    fn clone(&self) -> (r: Self)
        ensures
            r == *self,
    {
        ManifestDescriptor {
            digest: self.digest.clone(),
            platform: self.platform.clone(),
            size: self.size,
        }
    }
}

impl Clone for ManifestList {
    fn clone(&self) -> (r: Self)
        ensures
            r.manifests@ == self.manifests@,
    {
        let manifests = self.manifests.clone();
        assert(manifests@ =~= self.manifests@);
        ManifestList { manifests }
    }
}

impl Clone for ImageManifest {
    fn clone(&self) -> (r: Self)
        ensures
            r.config == self.config,
            r.layers@ == self.layers@,
    {
        let layers = self.layers.clone();
        assert(layers@ =~= self.layers@);
        ImageManifest { config: self.config.clone(), layers }
    }
}

/// Errors of the registry logic.
#[derive(Debug)]
pub enum RegistryError {
    /// The manifest list holds no manifest for this platform.
    NoPlatformManifest { os: String, arch: String },
    /// A header value would hold a character that header values may not hold.
    InvalidHeaderValue,
}

pub open spec fn spec_no_platform_message(os: Seq<char>, arch: Seq<char>) -> Seq<char> {
    "No manifest found for the current platform (os: "@ + os + ", arch: "@ + arch + ")"@
}

impl RegistryError {
    /// The text that reports this error.
    pub fn message(&self) -> (s: String)
        ensures
            match self {
                RegistryError::NoPlatformManifest { os, arch } => s@
                    == spec_no_platform_message(os@, arch@),
                RegistryError::InvalidHeaderValue => s@ == "failed to parse header value"@,
            },
    {
        match self {
            RegistryError::NoPlatformManifest { os, arch } => {
                let mut s = concat3(
                    "No manifest found for the current platform (os: ",
                    os.as_str(),
                    ", arch: ",
                );
                s.append(arch.as_str());
                s.append(")");
                s
            },
            RegistryError::InvalidHeaderValue => String::from_str("failed to parse header value"),
        }
    }
}

impl Platform {
    /// Whether this platform is `arch` on `os`.
    pub open spec fn spec_is(&self, arch: Seq<char>, os: Seq<char>) -> bool {
        self.architecture@ == arch && self.os@ == os
    }

    /// Whether this platform is `arch` on `os`.
    pub fn is(&self, arch: &str, os: &str) -> (r: bool)
        ensures
            r == self.spec_is(arch@, os@),
    {
        str_eq(self.architecture.as_str(), arch) && str_eq(self.os.as_str(), os)
    }
}

/// `i` is the first entry of `manifests` built for `arch` on `os`.
pub open spec fn is_first_match(
    manifests: Seq<ManifestDescriptor>,
    arch: Seq<char>,
    os: Seq<char>,
    i: int,
) -> bool {
    &&& 0 <= i < manifests.len()
    &&& manifests[i].platform.spec_is(arch, os)
    &&& forall|j: int| 0 <= j < i ==> !(#[trigger] manifests[j]).platform.spec_is(arch, os)
}

/// Some entry of `manifests` is built for `arch` on `os`.
pub open spec fn has_match(manifests: Seq<ManifestDescriptor>, arch: Seq<char>, os: Seq<char>) -> bool {
    exists|j: int| 0 <= j < manifests.len() && (#[trigger] manifests[j]).platform.spec_is(arch, os)
}

/// The first match is an entry whose architecture and OS equal the wanted
/// ones exactly, and no earlier entry has both equal; an entry matches when
/// and only when both are equal.
pub proof fn lemma_first_match_is_exact(manifests: Seq<ManifestDescriptor>, arch: Seq<char>, os: Seq<
    char,
>)
    ensures
        forall|i: int|
            #[trigger] is_first_match(manifests, arch, os, i) ==> {
                &&& manifests[i].platform.architecture@ == arch
                &&& manifests[i].platform.os@ == os
                &&& forall|j: int|
                    0 <= j < i ==> !(manifests[j].platform.architecture@ == arch
                        && manifests[j].platform.os@ == os)
            },
        has_match(manifests, arch, os) <==> exists|j: int|
            0 <= j < manifests.len() && manifests[j].platform.architecture@ == arch
                && manifests[j].platform.os@ == os,
{
    assert forall|i: int| #[trigger] is_first_match(manifests, arch, os, i) implies {
        &&& manifests[i].platform.architecture@ == arch
        &&& manifests[i].platform.os@ == os
        &&& forall|j: int|
            0 <= j < i ==> !(manifests[j].platform.architecture@ == arch
                && manifests[j].platform.os@ == os)
    } by {
        assert forall|j: int| 0 <= j < i implies !(manifests[j].platform.architecture@ == arch
            && manifests[j].platform.os@ == os) by {
            assert(!manifests[j].platform.spec_is(arch, os));
        }
    }
    if exists|j: int|
        0 <= j < manifests.len() && manifests[j].platform.architecture@ == arch
            && manifests[j].platform.os@ == os {
        let j = choose|j: int|
            0 <= j < manifests.len() && manifests[j].platform.architecture@ == arch
                && manifests[j].platform.os@ == os;
        assert(manifests[j].platform.spec_is(arch, os));
    }
    if has_match(manifests, arch, os) {
        let j = choose|j: int|
            0 <= j < manifests.len() && (#[trigger] manifests[j]).platform.spec_is(arch, os);
        assert(manifests[j].platform.architecture@ == arch && manifests[j].platform.os@ == os);
    }
}

impl ManifestList {
    /// Position of the first manifest built for `arch` on `os`, if any.
    pub fn position_for(&self, arch: &str, os: &str) -> (r: Option<usize>)
        ensures
            match r {
                Some(i) => is_first_match(self.manifests@, arch@, os@, i as int),
                None => !has_match(self.manifests@, arch@, os@),
            },
    {
        let n = self.manifests.len();
        let mut i: usize = 0;
        while i < n
            invariant
                n == self.manifests@.len(),
                i <= n,
                forall|j: int|
                    0 <= j < i ==> !(#[trigger] self.manifests@[j]).platform.spec_is(arch@, os@),
            decreases n - i,
        {
            if self.manifests[i].platform.is(arch, os) {
                return Some(i);
            }
            i = i + 1;
        }
        None
    }

    /// The first manifest built for `arch` on `os`; an error naming the
    /// platform when the list holds none.
    pub fn select_platform(self, arch: &str, os: &str) -> (r: Result<ManifestDescriptor, RegistryError>)
        ensures
            match r {
                Ok(d) => exists|i: int|
                    is_first_match(self.manifests@, arch@, os@, i) && d == self.manifests@[i],
                Err(RegistryError::NoPlatformManifest { os: e_os, arch: e_arch }) => {
                    &&& !has_match(self.manifests@, arch@, os@)
                    &&& e_os@ == os@
                    &&& e_arch@ == arch@
                },
                Err(RegistryError::InvalidHeaderValue) => false,
            },
            r is Err <==> !has_match(self.manifests@, arch@, os@),
            r matches Ok(d) ==> d.platform.architecture@ == arch@ && d.platform.os@ == os@,
    {
        proof {
            lemma_first_match_is_exact(self.manifests@, arch@, os@);
        }
        let ghost old_manifests = self.manifests@;
        match self.position_for(arch, os) {
            Some(i) => {
                let mut manifests = self.manifests;
                let d = manifests.remove(i);
                assert(is_first_match(old_manifests, arch@, os@, i as int));
                Ok(d)
            },
            None => Err(
                RegistryError::NoPlatformManifest {
                    os: String::from_str(os),
                    arch: String::from_str(arch),
                },
            ),
        }
    }
}

} // verus!
