//! Where image references point, and how registries ask for tokens.

use docker_checker::challenge::parse_www_authenticate;
use docker_checker::registry::{info_url_for, is_registry_host, parse_image_ref, split_tag};

// --- parse_image_ref ---

#[test]
fn parse_image_ref_official_no_tag() {
    let (reg, name, reference) = parse_image_ref("nginx");
    assert_eq!(reg, "https://registry-1.docker.io");
    assert_eq!(name, "library/nginx");
    assert_eq!(reference, "latest");
}

#[test]
fn parse_image_ref_official_with_tag() {
    let (reg, name, reference) = parse_image_ref("nginx:alpine");
    assert_eq!(reg, "https://registry-1.docker.io");
    assert_eq!(name, "library/nginx");
    assert_eq!(reference, "alpine");
}

#[test]
fn parse_image_ref_user_image_with_tag() {
    let (reg, name, reference) = parse_image_ref("myuser/myimage:v1");
    assert_eq!(reg, "https://registry-1.docker.io");
    assert_eq!(name, "myuser/myimage");
    assert_eq!(reference, "v1");
}

#[test]
fn parse_image_ref_ghcr() {
    let (reg, name, reference) = parse_image_ref("ghcr.io/owner/repo:latest");
    assert_eq!(reg, "https://ghcr.io");
    assert_eq!(name, "owner/repo");
    assert_eq!(reference, "latest");
}

#[test]
fn parse_image_ref_explicit_docker_io() {
    let (reg, name, reference) = parse_image_ref("docker.io/library/redis:7");
    assert_eq!(reg, "https://registry-1.docker.io");
    assert_eq!(name, "library/redis");
    assert_eq!(reference, "7");
}

#[test]
fn parse_image_ref_digest_reference() {
    let (reg, name, reference) = parse_image_ref("nginx@sha256:abc123");
    assert_eq!(reg, "https://registry-1.docker.io");
    assert_eq!(name, "library/nginx");
    assert_eq!(reference, "sha256:abc123");
}

#[test]
fn parse_image_ref_registry_with_port() {
    let (reg, name, reference) = parse_image_ref("localhost:5000/myimage:tag");
    assert_eq!(reg, "https://localhost:5000");
    assert_eq!(name, "myimage");
    assert_eq!(reference, "tag");
}

// --- split_tag ---

#[test]
fn split_tag_with_explicit_tag() {
    let (name, tag) = split_tag("nginx:alpine");
    assert_eq!(name, "nginx");
    assert_eq!(tag, "alpine");
}

#[test]
fn split_tag_without_tag_defaults_latest() {
    let (name, tag) = split_tag("nginx");
    assert_eq!(name, "nginx");
    assert_eq!(tag, "latest");
}

#[test]
fn split_tag_registry_port_not_treated_as_tag() {
    let (name, tag) = split_tag("localhost:5000/myimage");
    assert_eq!(name, "localhost:5000/myimage");
    assert_eq!(tag, "latest");
}

// --- is_registry_host ---

#[test]
fn is_registry_host_fqdn() {
    assert!(is_registry_host("registry.example.com"));
}

#[test]
fn is_registry_host_localhost() {
    assert!(is_registry_host("localhost"));
}

#[test]
fn is_registry_host_with_port() {
    assert!(is_registry_host("localhost:5000"));
}

#[test]
fn is_registry_host_simple_name_is_not_host() {
    assert!(!is_registry_host("nginx"));
}

#[test]
fn is_registry_host_known_registries() {
    assert!(is_registry_host("ghcr.io"));
    assert!(is_registry_host("quay.io"));
    assert!(is_registry_host("docker.io"));
}

// --- parse_www_authenticate ---

#[test]
fn parse_www_auth_docker_hub_full_header() {
    let header = r#"Bearer realm="https://auth.docker.io/token",service="registry.docker.io",scope="repository:library/nginx:pull""#;
    let result = parse_www_authenticate(header).unwrap();
    assert_eq!(result.get("realm").unwrap(), "https://auth.docker.io/token");
    assert_eq!(result.get("service").unwrap(), "registry.docker.io");
    assert_eq!(result.get("scope").unwrap(), "repository:library/nginx:pull");
}

#[test]
fn parse_www_auth_non_bearer_returns_none() {
    assert!(parse_www_authenticate("Basic realm=\"test\"").is_none());
}

// --- info_url_for ---

#[test]
fn info_url_docker_hub_official() {
    assert_eq!(info_url_for("nginx"), "https://hub.docker.com/_/nginx/tags");
}

#[test]
fn info_url_docker_hub_user_image() {
    assert_eq!(info_url_for("myuser/myimage:v1"), "https://hub.docker.com/r/myuser/myimage/tags");
}

#[test]
fn info_url_ghcr() {
    assert_eq!(
        info_url_for("ghcr.io/owner/repo:latest"),
        "https://github.com/owner/pkgs/container/repo"
    );
}

#[test]
fn info_url_lscr() {
    assert_eq!(
        info_url_for("lscr.io/linuxserver/calibre:latest"),
        "https://docs.linuxserver.io/images/docker-calibre"
    );
}

#[test]
fn info_url_quay() {
    assert_eq!(
        info_url_for("quay.io/org/repo:tag"),
        "https://quay.io/repository/org/repo?tab=tags"
    );
}

#[test]
fn info_url_custom_registry_falls_back_to_api() {
    let url = info_url_for("myreg.example.com/myimage:tag");
    assert!(url.contains("/v2/") && url.ends_with("/tags/list"));
}

// --- references in full ---

#[test]
fn official_image_in_full_is_the_same_image() {
    assert_eq!(parse_image_ref("docker.io/library/nginx:1"), parse_image_ref("nginx:1"));
    assert_eq!(parse_image_ref("docker.io/user/app"), parse_image_ref("user/app"));
}

#[test]
fn registry_with_port_and_no_tag() {
    let (reg, name, reference) = parse_image_ref("localhost:5000/team/app");
    assert_eq!(reg, "https://localhost:5000");
    assert_eq!(name, "team/app");
    assert_eq!(reference, "latest");
}

#[test]
fn digest_at_a_registry() {
    let (reg, name, reference) = parse_image_ref("quay.io/org/repo@sha256:00ff");
    assert_eq!(reg, "https://quay.io");
    assert_eq!(name, "org/repo");
    assert_eq!(reference, "sha256:00ff");
}

#[test]
fn empty_tag_or_digest_is_latest() {
    assert_eq!(parse_image_ref("nginx:").2, "latest");
    assert_eq!(parse_image_ref("nginx@").2, "latest");
}

#[test]
fn tag_and_digest_keep_the_tag_in_the_name() {
    let (_, name, reference) = parse_image_ref("nginx:1@sha256:ab");
    assert_eq!(name, "library/nginx:1");
    assert_eq!(reference, "sha256:ab");
}

#[test]
fn split_tag_rejoins() {
    let (name, tag) = split_tag("a/b:c:d");
    assert_eq!(format!("{}:{}", name, tag), "a/b:c:d");
    assert_eq!(tag, "d");
}

#[test]
fn info_url_ignores_tag_and_digest() {
    let page = info_url_for("ghcr.io/owner/repo:1");
    assert_eq!(info_url_for("ghcr.io/owner/repo:2"), page);
    assert_eq!(info_url_for("ghcr.io/owner/repo@sha256:ab"), page);
}

#[test]
fn info_url_exact_pages() {
    assert_eq!(
        info_url_for("myreg.example.com/myimage:tag"),
        "https://myreg.example.com/v2/myimage/tags/list"
    );
    assert_eq!(
        info_url_for("ghcr.io/repo"),
        "https://github.com/orgs/docker/packages/container/package/repo"
    );
    assert_eq!(info_url_for("lscr.io/calibre"), "https://docs.linuxserver.io/images/docker-calibre");
    assert_eq!(info_url_for("library/library/x"), "https://hub.docker.com/_/x/tags");
}

#[test]
fn names_outside_ascii() {
    let (reg, name, reference) = parse_image_ref("größe.example/bild:ä");
    assert_eq!(reg, "https://größe.example");
    assert_eq!(name, "bild");
    assert_eq!(reference, "ä");
}

// --- challenges ---

#[test]
fn challenge_without_quotes() {
    let result = parse_www_authenticate("Bearer realm=https://a/t, service = s ,x=1").unwrap();
    assert_eq!(result.get("realm").unwrap(), "https://a/t");
    assert_eq!(result.get("service").unwrap(), " s ");
    assert_eq!(result.get("x").unwrap(), "1");
    assert!(result.get("scope").is_none());
}

#[test]
fn challenge_last_value_counts() {
    let result = parse_www_authenticate("Bearer a=\"1\",,, a=\"2\"").unwrap();
    assert_eq!(result.get("a").unwrap(), "2");
}

#[test]
fn challenge_with_a_comma_in_quotes() {
    let result = parse_www_authenticate("Bearer scope=\"repository:x:pull,push\"").unwrap();
    assert_eq!(result.get("scope").unwrap(), "repository:x:pull,push");
}

#[test]
fn challenge_that_is_cut_off() {
    assert!(parse_www_authenticate("Bearer realm=\"https://a").is_none());
    assert!(parse_www_authenticate("Bearer realm").is_none());
    assert!(parse_www_authenticate("bearer realm=\"x\"").is_none());
}

#[test]
fn challenge_without_parameters() {
    assert!(parse_www_authenticate("Bearer   ").unwrap().get("realm").is_none());
}
