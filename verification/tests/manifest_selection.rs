use mini_docker::lookup::{after_manifest_list, describe_image_manifest, registry_arch, LookupStep};
use mini_docker::manifest::{
    Descriptor, ImageManifest, ManifestDescriptor, ManifestList, Platform, RegistryError,
};

fn entry(digest: &str, arch: &str, os: &str, size: u64) -> ManifestDescriptor {
    ManifestDescriptor {
        digest: digest.to_string(),
        platform: Platform { architecture: arch.to_string(), os: os.to_string() },
        size,
    }
}

fn sample_list() -> ManifestList {
    ManifestList {
        manifests: vec![
            entry("sha256:aaa", "arm64", "linux", 10),
            entry("sha256:bbb", "amd64", "linux", 20),
            entry("sha256:ccc", "amd64", "windows", 30),
            entry("sha256:ddd", "amd64", "linux", 40),
        ],
    }
}

#[test]
fn selects_first_matching_platform() {
    let d = sample_list().select_platform("amd64", "linux").unwrap();
    assert_eq!(d.digest, "sha256:bbb");
    assert_eq!(d.size, 20);
    assert_eq!(d.platform.architecture, "amd64");
    assert_eq!(d.platform.os, "linux");
}

#[test]
fn both_architecture_and_os_must_match() {
    let d = sample_list().select_platform("amd64", "windows").unwrap();
    assert_eq!(d.digest, "sha256:ccc");
    assert!(sample_list().select_platform("arm64", "windows").is_err());
}

#[test]
fn no_platform_manifest_error() {
    match sample_list().select_platform("riscv64", "linux") {
        Err(RegistryError::NoPlatformManifest { os, arch }) => {
            assert_eq!(os, "linux");
            assert_eq!(arch, "riscv64");
        }
        other => panic!("unexpected result {other:?}"),
    }
    let empty = ManifestList { manifests: vec![] };
    assert!(empty.select_platform("amd64", "linux").is_err());
}

#[test]
fn error_message_names_the_platform() {
    let e = RegistryError::NoPlatformManifest { os: "linux".to_string(), arch: "s390x".to_string() };
    assert_eq!(e.message(), "No manifest found for the current platform (os: linux, arch: s390x)");
}

#[test]
fn position_of_first_match() {
    let l = sample_list();
    assert_eq!(l.position_for("amd64", "linux"), Some(1));
    assert_eq!(l.position_for("arm64", "linux"), Some(0));
    assert_eq!(l.position_for("arm", "linux"), None);
}

#[test]
fn architecture_names() {
    assert_eq!(registry_arch("x86_64"), "amd64");
    assert_eq!(registry_arch("aarch64"), "aarch64");
    assert_eq!(registry_arch("amd64"), "amd64");
    assert_eq!(registry_arch("x86_6"), "x86_6");
}

#[test]
fn lookup_uses_the_list_when_there_is_one() {
    match after_manifest_list(Some(sample_list()), "latest", "amd64", "linux") {
        LookupStep::Found(d) => assert_eq!(d.digest, "sha256:bbb"),
        other => panic!("unexpected step {other:?}"),
    }
    match after_manifest_list(Some(sample_list()), "latest", "mips", "linux") {
        LookupStep::Failed(RegistryError::NoPlatformManifest { os, arch }) => {
            assert_eq!((os.as_str(), arch.as_str()), ("linux", "mips"));
        }
        other => panic!("unexpected step {other:?}"),
    }
}

#[test]
fn lookup_falls_back_without_a_list() {
    match after_manifest_list(None, "1.25", "amd64", "linux") {
        LookupStep::FetchImageManifest(tag) => assert_eq!(tag, "1.25"),
        other => panic!("unexpected step {other:?}"),
    }
}

#[test]
fn single_platform_manifest_description() {
    let m = ImageManifest {
        config: Descriptor { digest: "sha256:cfg".to_string(), size: 1469 },
        layers: vec![Descriptor { digest: "sha256:layer".to_string(), size: 2818413 }],
    };
    let d = describe_image_manifest("latest", "amd64", "linux", &m);
    assert_eq!(d.digest, "latest");
    assert_eq!(d.platform.architecture, "amd64");
    assert_eq!(d.platform.os, "linux");
    assert_eq!(d.size, 1469);
}

#[test]
fn clones_are_equal() {
    let d = entry("sha256:x", "amd64", "linux", 7);
    let c = d.clone();
    assert_eq!(c.digest, d.digest);
    assert_eq!(c.platform.os, d.platform.os);
    assert_eq!(c.size, d.size);
}

#[test]
fn list_and_manifest_clones_are_equal() {
    let l = sample_list();
    let c = l.clone();
    assert_eq!(c.manifests.len(), 4);
    assert_eq!(c.manifests[2].digest, "sha256:ccc");
    let m = ImageManifest {
        config: Descriptor { digest: "sha256:cfg".to_string(), size: 1 },
        layers: vec![Descriptor { digest: "sha256:l".to_string(), size: 2 }],
    };
    let mc = m.clone();
    assert_eq!(mc.config.digest, "sha256:cfg");
    assert_eq!(mc.layers[0].size, 2);
}
