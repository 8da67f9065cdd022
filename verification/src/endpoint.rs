//! Addresses and header values of the registry protocol.

use vstd::prelude::*;
use vstd::string::*;
use crate::text::{concat2, concat3};

verus! {

/// Token service of the default registry.
pub const AUTH_URL: &'static str = "https://auth.docker.io";

/// Service name that a token is requested for.
pub const REGISTRY_SERVICE: &'static str = "registry.docker.io";

/// Media types accepted when asking for a manifest list (image index).
pub const MANIFEST_LIST_ACCEPT: &'static str =
    "application/vnd.docker.distribution.manifest.list.v2+json, application/vnd.oci.image.index.v1+json";

/// Media types accepted when asking for an image manifest.
pub const IMAGE_MANIFEST_ACCEPT: &'static str =
    "application/vnd.docker.distribution.manifest.v2+json, application/vnd.oci.image.manifest.v1+json";

pub open spec fn spec_token_url() -> Seq<char> {
    AUTH_URL@ + "/token"@
}

pub open spec fn spec_pull_scope(repository: Seq<char>) -> Seq<char> {
    "repository:"@ + repository + ":pull"@
}

pub open spec fn spec_bearer(token: Seq<char>) -> Seq<char> {
    "Bearer "@ + token
}

pub open spec fn spec_manifest_url(registry: Seq<char>, repository: Seq<char>, reference: Seq<
    char,
>) -> Seq<char> {
    "https://"@ + registry + "/v2/"@ + repository + "/manifests/"@ + reference
}

pub open spec fn spec_blob_url(registry: Seq<char>, repository: Seq<char>, digest: Seq<char>) -> Seq<
    char,
> {
    "https://"@ + registry + "/v2/"@ + repository + "/blobs/"@ + digest
}

/// Address of the token endpoint.
pub fn token_url() -> (u: String)
    ensures
        u@ == spec_token_url(),
{
    concat2(AUTH_URL, "/token")
}

/// Scope that grants pulling from `repository`.
pub fn pull_scope(repository: &str) -> (s: String)
    ensures
        s@ == spec_pull_scope(repository@),
{
    concat3("repository:", repository, ":pull")
}

/// Value of the `Authorization` header that carries `token`.
pub fn bearer_authorization(token: &str) -> (s: String)
    ensures
        s@ == spec_bearer(token@),
{
    concat2("Bearer ", token)
}

/// Address of the manifest `reference` (a tag or a digest) of `repository`
/// on the registry host `registry`.
pub fn manifest_url(registry: &str, repository: &str, reference: &str) -> (u: String)
    ensures
        u@ == spec_manifest_url(registry@, repository@, reference@),
{
    let mut u = concat3("https://", registry, "/v2/");
    u.append(repository);
    u.append("/manifests/");
    u.append(reference);
    u
}

/// Address of the blob `digest` of `repository` on the registry host
/// `registry`.
pub fn blob_url(registry: &str, repository: &str, digest: &str) -> (u: String)
    ensures
        u@ == spec_blob_url(registry@, repository@, digest@),
{
    let mut u = concat3("https://", registry, "/v2/");
    u.append(repository);
    u.append("/blobs/");
    u.append(digest);
    u
}

} // verus!

verus! {

/// The `Authorization` value is the seven characters "Bearer " followed by
/// every character of the token, unchanged and in order.
pub proof fn lemma_bearer_keeps_token(token: Seq<char>)
    ensures
        spec_bearer(token).len() == token.len() + 7,
        spec_bearer(token).take(7) == seq!['B', 'e', 'a', 'r', 'e', 'r', ' '],
        forall|i: int| 0 <= i < token.len() ==> #[trigger] spec_bearer(token)[i + 7] == token[i],
{
    reveal_strlit("Bearer ");
    assert(spec_bearer(token).take(7) =~= seq!['B', 'e', 'a', 'r', 'e', 'r', ' ']);
}

/// A manifest address ends with "/manifests/" followed by the reference
/// exactly as given (a tag, or a digest such as `sha256:<hex>`), after
/// "https://", the registry, "/v2/" and the repository.
pub proof fn lemma_manifest_url_shape(registry: Seq<char>, repository: Seq<char>, reference: Seq<char>)
    ensures
        ({
            let u = spec_manifest_url(registry, repository, reference);
            let r = registry.len() as int;
            let p = repository.len() as int;
            let head = seq!['h', 't', 't', 'p', 's', ':', '/', '/'];
            let mid = seq!['/', 'v', '2', '/'];
            let tail = seq!['/', 'm', 'a', 'n', 'i', 'f', 'e', 's', 't', 's', '/'];
            &&& u.len() == 8 + r + 4 + p + 11 + reference.len()
            &&& u.take(8) == head
            &&& u.subrange(8, 8 + r) == registry
            &&& u.subrange(8 + r, 12 + r) == mid
            &&& u.subrange(12 + r, 12 + r + p) == repository
            &&& u.subrange(
                12 + r + p,
                23 + r + p,
            ) == tail
            &&& u.skip(23 + r + p) == reference
        }),
{
    reveal_strlit("https://");
    reveal_strlit("/v2/");
    reveal_strlit("/manifests/");
    let u = spec_manifest_url(registry, repository, reference);
    let a: int = 8 + registry.len() as int;
    let b: int = a + 4 + repository.len() as int;
    assert(u.take(8) =~= seq!['h', 't', 't', 'p', 's', ':', '/', '/']);
    assert(u.subrange(8, a) =~= registry);
    assert(u.subrange(a, a + 4) =~= seq!['/', 'v', '2', '/']);
    assert(u.subrange(a + 4, b) =~= repository);
    assert(u.subrange(b, b + 11) =~= seq!['/', 'm', 'a', 'n', 'i', 'f', 'e', 's', 't', 's', '/']);
    assert(u.skip(b + 11) =~= reference);
}

/// Different references on one repository have different manifest
/// addresses: the address keeps the whole reference.
pub proof fn lemma_manifest_url_injective(
    registry: Seq<char>,
    repository: Seq<char>,
    r1: Seq<char>,
    r2: Seq<char>,
)
    requires
        spec_manifest_url(registry, repository, r1) == spec_manifest_url(registry, repository, r2),
    ensures
        r1 == r2,
{
    lemma_manifest_url_shape(registry, repository, r1);
    lemma_manifest_url_shape(registry, repository, r2);
}

/// A blob address ends with "/blobs/" followed by the digest exactly as
/// given.
pub proof fn lemma_blob_url_keeps_digest(registry: Seq<char>, repository: Seq<char>, digest: Seq<char>)
    ensures
        ({
            let u = spec_blob_url(registry, repository, digest);
            let r = registry.len() as int;
            let p = repository.len() as int;
            &&& u.len() == 8 + r + 4 + p + 7 + digest.len()
            &&& u.subrange(8, 8 + r) == registry
            &&& u.subrange(12 + r, 12 + r + p) == repository
            &&& u.subrange(
                12 + r + p,
                19 + r + p,
            ) == seq!['/', 'b', 'l', 'o', 'b', 's', '/']
            &&& u.skip(19 + r + p) == digest
        }),
{
    reveal_strlit("https://");
    reveal_strlit("/v2/");
    reveal_strlit("/blobs/");
    let u = spec_blob_url(registry, repository, digest);
    let a: int = 8 + registry.len() as int;
    let b: int = a + 4 + repository.len() as int;
    assert(u.subrange(8, a) =~= registry);
    assert(u.subrange(a + 4, b) =~= repository);
    assert(u.subrange(b, b + 7) =~= seq!['/', 'b', 'l', 'o', 'b', 's', '/']);
    assert(u.skip(b + 7) =~= digest);
}

} // verus!
