//! Image references: `[registry/]name[:tag]` as given on the command line,
//! resolved to a registry host, a repository on it and a tag.

use vstd::prelude::*;
use vstd::string::*;
use crate::text::{
    concat2, concat3, find_char, contains_char, first_index, lemma_first_index,
    is_first_index,
};

verus! {

/// Tag used when a reference names none.
pub const DEFAULT_TAG: &'static str = "latest";

/// Namespace of the official images on the default registry.
pub const OFFICIAL_NAMESPACE: &'static str = "library/";

/// Host of the default registry (Docker Hub).
pub const DEFAULT_REGISTRY: &'static str = "registry-1.docker.io";

/// The part of `image` before its first ':' (all of it when it has none).
pub open spec fn spec_name_part(image: Seq<char>) -> Seq<char> {
    if image.contains(':') {
        image.take(first_index(image, ':'))
    } else {
        image
    }
}

/// The tag that `image` names: what follows its first ':', else the default tag.
pub open spec fn spec_tag(image: Seq<char>) -> Seq<char> {
    if image.contains(':') {
        image.skip(first_index(image, ':') + 1)
    } else {
        DEFAULT_TAG@
    }
}

/// A first path component that names a registry host: it holds a '.'.
pub open spec fn spec_is_host(part: Seq<char>) -> bool {
    part.contains('.')
}

/// The name part of `image` starts with a registry host followed by '/'.
pub open spec fn spec_names_host(image: Seq<char>) -> bool {
    let name = spec_name_part(image);
    name.contains('/') && spec_is_host(name.take(first_index(name, '/')))
}

/// The registry host that `image` names: the first component of its name
/// when that names a host, else the default registry.
pub open spec fn spec_registry(image: Seq<char>) -> Seq<char> {
    let name = spec_name_part(image);
    if spec_names_host(image) {
        name.take(first_index(name, '/'))
    } else {
        DEFAULT_REGISTRY@
    }
}

/// The repository that `image` names on its registry: the rest of the name
/// after the host when it names one; else the name part as it stands when it
/// holds a '/', or the name part within the namespace of official images.
pub open spec fn spec_repository(image: Seq<char>) -> Seq<char> {
    let name = spec_name_part(image);
    if spec_names_host(image) {
        name.skip(first_index(name, '/') + 1)
    } else if name.contains('/') {
        name
    } else {
        OFFICIAL_NAMESPACE@ + name
    }
}

/// The canonical text of a reference: `registry/repository:tag`.
pub open spec fn spec_canonical(registry: Seq<char>, repository: Seq<char>, tag: Seq<char>) -> Seq<
    char,
> {
    registry + seq!['/'] + repository + seq![':'] + tag
}

/// A resolved image reference.
#[derive(Debug)]
pub struct ImageReference {
    pub registry: String,
    pub repository: String,
    pub tag: String,
}

impl Clone for ImageReference {
    fn clone(&self) -> (r: Self)
        ensures
            r == *self,
    {
        ImageReference {
            registry: self.registry.clone(),
            repository: self.repository.clone(),
            tag: self.tag.clone(),
        }
    }
}

/// Whether `part` names a registry host.
fn is_host(part: &str) -> (r: bool)
    ensures
        r == spec_is_host(part@),
{
    contains_char(part, '.')
}

impl ImageReference {
    /// Resolves an image reference given as `[registry/]name[:tag]`: the tag is
    /// what follows the first ':' ("latest" when there is no ':'); a first
    /// component of the name that holds a '.' is the
    /// registry host, and the rest is the repository on it; otherwise the
    /// registry is Docker Hub, and a name without '/' is an official image
    /// under `library/`.
    pub fn parse(image: &str) -> (r: ImageReference)
        ensures
            r.registry@ == spec_registry(image@),
            r.repository@ == spec_repository(image@),
            r.tag@ == spec_tag(image@),
    {
        proof {
            lemma_first_index(image@, ':');
        }
        let n = image.unicode_len();
        let found = find_char(image, ':');
        let (name, tag) = match found {
            Some(i) => (image.substring_char(0, i), String::from_str(image.substring_char(i + 1, n))),
            None => (image, String::from_str(DEFAULT_TAG)),
        };
        assert(name@ == spec_name_part(image@));
        proof {
            lemma_first_index(name@, '/');
        }
        let m = name.unicode_len();
        match find_char(name, '/') {
            Some(j) => {
                let first = name.substring_char(0, j);
                if is_host(first) {
                    ImageReference {
                        registry: String::from_str(first),
                        repository: String::from_str(name.substring_char(j + 1, m)),
                        tag,
                    }
                } else {
                    ImageReference {
                        registry: String::from_str(DEFAULT_REGISTRY),
                        repository: String::from_str(name),
                        tag,
                    }
                }
            },
            None => ImageReference {
                registry: String::from_str(DEFAULT_REGISTRY),
                repository: concat2(OFFICIAL_NAMESPACE, name),
                tag,
            },
        }
    }

    /// The canonical text `registry/repository:tag` of this reference.
    pub fn canonical(&self) -> (s: String)
        ensures
            s@ == spec_canonical(self.registry@, self.repository@, self.tag@),
    {
        let mut s = concat3(self.registry.as_str(), "/", self.repository.as_str());
        s.append(":");
        s.append(self.tag.as_str());
        proof {
            reveal_strlit("/");
            reveal_strlit(":");
        }
        s
    }
}

/// The name part of a reference holds no ':'.
proof fn lemma_name_has_no_colon(image: Seq<char>)
    ensures
        !spec_name_part(image).contains(':'),
{
    lemma_first_index(image, ':');
    let name = spec_name_part(image);
    if name.contains(':') {
        let k = choose|k: int| 0 <= k < name.len() && name[k] == ':';
        assert(image[k] == ':');
    }
}

/// The registry of a resolved reference is a host without '/' or ':'; its
/// repository holds no ':'; on the default registry the repository holds a
/// '/' (it lies in a namespace).
pub proof fn lemma_reference_shape(image: Seq<char>)
    ensures
        spec_is_host(spec_registry(image)),
        !spec_registry(image).contains('/'),
        !spec_registry(image).contains(':'),
        !spec_repository(image).contains(':'),
        !spec_names_host(image) ==> spec_repository(image).contains('/'),
{
    reveal_strlit("library/");
    reveal_strlit("registry-1.docker.io");
    let name = spec_name_part(image);
    lemma_name_has_no_colon(image);
    lemma_first_index(name, '/');
    let d = DEFAULT_REGISTRY@;
    assert(d[10] == '.');
    assert(!d.contains('/') && !d.contains(':')) by {
        if d.contains('/') || d.contains(':') {
            let k = choose|k: int| 0 <= k < d.len() && (d[k] == '/' || d[k] == ':');
            assert(0 <= k < 20);
        }
    }
    if spec_names_host(image) {
        let j = first_index(name, '/');
        let h = name.take(j);
        let rest = name.skip(j + 1);
        assert(!h.contains('/')) by {
            if h.contains('/') {
                let k = choose|k: int| 0 <= k < h.len() && h[k] == '/';
                assert(name[k] == '/');
            }
        }
        assert(!h.contains(':')) by {
            if h.contains(':') {
                let k = choose|k: int| 0 <= k < h.len() && h[k] == ':';
                assert(name[k] == ':');
            }
        }
        assert(!rest.contains(':')) by {
            if rest.contains(':') {
                let k = choose|k: int| 0 <= k < rest.len() && rest[k] == ':';
                assert(name[k + j + 1] == ':');
            }
        }
    } else if !name.contains('/') {
        let full = OFFICIAL_NAMESPACE@ + name;
        assert(!full.contains(':')) by {
            if full.contains(':') {
                let k = choose|k: int| 0 <= k < full.len() && full[k] == ':';
                if k >= 8 {
                    assert(name[k - 8] == ':');
                }
            }
        }
        assert(full[7] == '/');
    }
}

/// Re-resolving the canonical text of a resolved reference gives back the
/// same registry, repository and tag.
pub proof fn lemma_canonical_round_trip(image: Seq<char>)
    ensures
        ({
            let canon = spec_canonical(spec_registry(image), spec_repository(image), spec_tag(image));
            &&& spec_registry(canon) == spec_registry(image)
            &&& spec_repository(canon) == spec_repository(image)
            &&& spec_tag(canon) == spec_tag(image)
        }),
{
    let reg = spec_registry(image);
    let repo = spec_repository(image);
    let tag = spec_tag(image);
    let canon = spec_canonical(reg, repo, tag);
    lemma_reference_shape(image);
    let p: int = reg.len() as int + 1 + repo.len() as int;
    lemma_first_index(canon, ':');
    assert forall|k: int| 0 <= k < p implies canon[k] != ':' by {
        if k < reg.len() {
            assert(canon[k] == reg[k]);
        } else if k > reg.len() {
            assert(canon[k] == repo[k - reg.len() - 1]);
        }
    }
    assert(is_first_index(canon, ':', p));
    let name = canon.take(p);
    assert(name =~= reg + seq!['/'] + repo);
    assert(canon.skip(p + 1) =~= tag);
    assert(spec_name_part(canon) == name);
    lemma_first_index(name, '/');
    assert forall|k: int| 0 <= k < reg.len() implies name[k] != '/' by {
        assert(name[k] == reg[k]);
    }
    assert(is_first_index(name, '/', reg.len() as int));
    assert(name.take(reg.len() as int) =~= reg);
    assert(name.skip(reg.len() as int + 1) =~= repo);
}

} // verus!

verus! {

/// Where the tag of `image` starts: `c` is the first ':' of `image`, or its
/// length when it has none.
pub open spec fn tag_separator(image: Seq<char>, c: int) -> bool {
    is_first_index(image, ':', c) || (!image.contains(':') && c == image.len())
}

/// Where the name part (before the tag) of an image holds a '/' first at `s`:
/// the registry is the component before that '/' exactly when the component
/// holds a '.', and then the repository is what lies between that '/' and the
/// tag; otherwise the registry is Docker Hub and the repository is the whole
/// name part. The tag is what follows the first ':', else "latest".
pub proof fn lemma_host_only_with_dot(image: Seq<char>, c: int, s: int)
    requires
        tag_separator(image, c),
        0 <= s < c,
        image[s] == '/',
        forall|k: int| 0 <= k < s ==> image[k] != '/',
    ensures
        image.take(s).contains('.') ==> spec_registry(image) == image.take(s) && spec_repository(
            image,
        ) == image.subrange(s + 1, c),
        !image.take(s).contains('.') ==> spec_registry(image) == seq![
            'r', 'e', 'g', 'i', 's', 't', 'r', 'y', '-', '1', '.', 'd', 'o', 'c', 'k', 'e', 'r', '.', 'i', 'o',
        ] && spec_repository(image) == image.take(c),
        spec_tag(image) == (if c < image.len() {
            image.skip(c + 1)
        } else {
            seq!['l', 'a', 't', 'e', 's', 't']
        }),
{
    reveal_strlit("registry-1.docker.io");
    reveal_strlit("latest");
    lemma_first_index(image, ':');
    let name = spec_name_part(image);
    assert(name =~= image.take(c));
    lemma_first_index(name, '/');
    assert(is_first_index(name, '/', s));
    assert(name.take(s) =~= image.take(s));
    assert(name.skip(s + 1) =~= image.subrange(s + 1, c));
    assert(name.contains('/')) by {
        assert(name[s] == '/');
    }
    assert(DEFAULT_REGISTRY@ =~= seq![
        'r', 'e', 'g', 'i', 's', 't', 'r', 'y', '-', '1', '.', 'd', 'o', 'c', 'k', 'e', 'r', '.', 'i', 'o',
    ]);
    assert(DEFAULT_TAG@ =~= seq!['l', 'a', 't', 'e', 's', 't']);
}

/// Where the name part of an image holds no '/', the image is an official
/// one: the registry is Docker Hub and the repository is "library/"
/// followed by the name part.
pub proof fn lemma_official_image(image: Seq<char>, c: int)
    requires
        tag_separator(image, c),
        forall|k: int| 0 <= k < c ==> image[k] != '/',
    ensures
        spec_registry(image) == seq![
            'r', 'e', 'g', 'i', 's', 't', 'r', 'y', '-', '1', '.', 'd', 'o', 'c', 'k', 'e', 'r', '.', 'i', 'o',
        ],
        spec_repository(image) == seq!['l', 'i', 'b', 'r', 'a', 'r', 'y', '/'] + image.take(c),
{
    reveal_strlit("registry-1.docker.io");
    reveal_strlit("library/");
    lemma_first_index(image, ':');
    let name = spec_name_part(image);
    assert(name =~= image.take(c));
    assert(!name.contains('/')) by {
        if name.contains('/') {
            let k = choose|k: int| 0 <= k < name.len() && name[k] == '/';
            assert(image[k] == '/');
        }
    }
    assert(DEFAULT_REGISTRY@ =~= seq![
        'r', 'e', 'g', 'i', 's', 't', 'r', 'y', '-', '1', '.', 'd', 'o', 'c', 'k', 'e', 'r', '.', 'i', 'o',
    ]);
    assert(OFFICIAL_NAMESPACE@ =~= seq!['l', 'i', 'b', 'r', 'a', 'r', 'y', '/']);
}

} // verus!
