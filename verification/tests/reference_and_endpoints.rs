use mini_docker::endpoint::{
    blob_url, bearer_authorization, manifest_url, pull_scope, token_url, IMAGE_MANIFEST_ACCEPT,
    MANIFEST_LIST_ACCEPT, REGISTRY_SERVICE,
};
use mini_docker::reference::ImageReference;

#[test]
fn official_image_without_tag() {
    let r = ImageReference::parse("nginx");
    assert_eq!(r.registry, "registry-1.docker.io");
    assert_eq!(r.repository, "library/nginx");
    assert_eq!(r.tag, "latest");
}

#[test]
fn official_image_with_tag() {
    let r = ImageReference::parse("nginx:1.25-alpine");
    assert_eq!(r.repository, "library/nginx");
    assert_eq!(r.tag, "1.25-alpine");
}

#[test]
fn namespaced_image_keeps_its_name() {
    let r = ImageReference::parse("bitnami/redis:7.2");
    assert_eq!(r.repository, "bitnami/redis");
    assert_eq!(r.tag, "7.2");
}

#[test]
fn registry_host_in_the_reference() {
    let r = ImageReference::parse("registry.example.com/library/hello:latest");
    assert_eq!(r.registry, "registry.example.com");
    assert_eq!(r.repository, "library/hello");
    assert_eq!(r.tag, "latest");
    assert_eq!(
        manifest_url(&r.registry, &r.repository, &r.tag),
        "https://registry.example.com/v2/library/hello/manifests/latest"
    );
}

#[test]
fn dotted_hosts() {
    // Only a first component with a '.' names a host: `localhost` is a
    // namespace on Docker Hub.
    let r = ImageReference::parse("localhost/app");
    assert_eq!((r.registry.as_str(), r.repository.as_str(), r.tag.as_str()), ("registry-1.docker.io", "localhost/app", "latest"));
    let r = ImageReference::parse("ghcr.io/owner/tool:v2");
    assert_eq!((r.registry.as_str(), r.repository.as_str(), r.tag.as_str()), ("ghcr.io", "owner/tool", "v2"));
    // A first component without '.' is a namespace on Docker Hub.
    let r = ImageReference::parse("localhostx/app");
    assert_eq!((r.registry.as_str(), r.repository.as_str()), ("registry-1.docker.io", "localhostx/app"));
}

#[test]
fn namespaced_image_without_tag() {
    let r = ImageReference::parse("grafana/grafana");
    assert_eq!(r.repository, "grafana/grafana");
    assert_eq!(r.tag, "latest");
}

#[test]
fn tag_is_everything_after_the_first_colon() {
    // The split is made at the first ':', so a registry port ends the name.
    let r = ImageReference::parse("localhost:5000/app:v1");
    assert_eq!(r.repository, "library/localhost");
    assert_eq!(r.tag, "5000/app:v1");
}

#[test]
fn empty_tag_is_kept() {
    let r = ImageReference::parse("alpine:");
    assert_eq!(r.repository, "library/alpine");
    assert_eq!(r.tag, "");
}

#[test]
fn empty_reference() {
    let r = ImageReference::parse("");
    assert_eq!(r.repository, "library/");
    assert_eq!(r.tag, "latest");
}

#[test]
fn non_ascii_reference() {
    let r = ImageReference::parse("bücher:ünï");
    assert_eq!(r.repository, "library/bücher");
    assert_eq!(r.tag, "ünï");
}

#[test]
fn canonical_text() {
    assert_eq!(ImageReference::parse("nginx").canonical(), "registry-1.docker.io/library/nginx:latest");
    assert_eq!(ImageReference::parse("a/b:c").canonical(), "registry-1.docker.io/a/b:c");
    assert_eq!(ImageReference::parse("example.com/x:1").canonical(), "example.com/x:1");
}

#[test]
fn canonical_text_parses_back_to_the_same_reference() {
    for image in [
        "nginx", "nginx:1.25", "a/b", "x:y:z", "localhost:5000/app:v1", "", ":",
        "registry.example.com/library/hello:latest", "localhost/app", "registry-1.docker.io/foo",
        "example.com/",
    ] {
        let r = ImageReference::parse(image);
        let again = ImageReference::parse(&r.canonical());
        assert_eq!(again.registry, r.registry, "{image}");
        assert_eq!(again.repository, r.repository, "{image}");
        assert_eq!(again.tag, r.tag, "{image}");
        assert!(!r.registry.contains('/') && !r.registry.contains(':'));
        assert!(!r.repository.contains(':'));
    }
}

#[test]
fn token_endpoint_and_scope() {
    assert_eq!(token_url(), "https://auth.docker.io/token");
    assert_eq!(pull_scope("library/nginx"), "repository:library/nginx:pull");
    assert_eq!(REGISTRY_SERVICE, "registry.docker.io");
}

#[test]
fn bearer_header_value() {
    assert_eq!(bearer_authorization("abc.def"), "Bearer abc.def");
    assert_eq!(bearer_authorization(""), "Bearer ");
}

#[test]
fn manifest_and_blob_urls() {
    assert_eq!(
        manifest_url("registry-1.docker.io", "library/nginx", "latest"),
        "https://registry-1.docker.io/v2/library/nginx/manifests/latest"
    );
    assert_eq!(
        blob_url("registry-1.docker.io", "library/nginx", "sha256:0123"),
        "https://registry-1.docker.io/v2/library/nginx/blobs/sha256:0123"
    );
}

#[test]
fn accept_headers() {
    assert_eq!(
        MANIFEST_LIST_ACCEPT,
        "application/vnd.docker.distribution.manifest.list.v2+json, application/vnd.oci.image.index.v1+json"
    );
    assert_eq!(
        IMAGE_MANIFEST_ACCEPT,
        "application/vnd.docker.distribution.manifest.v2+json, application/vnd.oci.image.manifest.v1+json"
    );
}
