//! What the Docker daemon says.

use docker_checker::docker::{image_ref_to_repo_name, normalize_repo};

#[test]
fn normalize_repo_strips_docker_io() {
    assert_eq!(normalize_repo("docker.io/library/nginx"), "library/nginx");
}

#[test]
fn normalize_repo_official_image_gets_library_prefix() {
    assert_eq!(normalize_repo("nginx"), "library/nginx");
}

#[test]
fn normalize_repo_user_image_unchanged() {
    assert_eq!(normalize_repo("myuser/myimage"), "myuser/myimage");
}

#[test]
fn image_ref_to_repo_name_strips_tag() {
    assert_eq!(image_ref_to_repo_name("nginx:alpine"), "nginx");
}

#[test]
fn image_ref_to_repo_name_strips_digest() {
    assert_eq!(image_ref_to_repo_name("nginx@sha256:abc123"), "nginx");
}

#[test]
fn image_ref_to_repo_name_plain() {
    assert_eq!(image_ref_to_repo_name("nginx"), "nginx");
}

#[test]
fn image_ref_to_repo_name_ghcr_with_tag() {
    assert_eq!(image_ref_to_repo_name("ghcr.io/owner/repo:v1"), "ghcr.io/owner/repo");
}
