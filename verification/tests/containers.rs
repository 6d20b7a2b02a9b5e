//! Which image a container runs.

use docker_checker::checker::{begin_check, Check};
use docker_checker::docker::{
    get_local_digest, normalize_repo, resolve_image_name, scan_container, socket_path, socket_usable,
    Candidate, ContainerSummary, ImageInspect, Scan,
};
use docker_checker::types::{CheckResult, ContainerInfo, ItemState};

fn strings(texts: &[&str]) -> Vec<String> {
    texts.iter().map(|t| t.to_string()).collect()
}

fn container(names: Option<&[&str]>, image: Option<&str>, id: Option<&str>) -> ContainerSummary {
    ContainerSummary {
        id: Some("c0ffee".to_string()),
        names: names.map(strings),
        image: image.map(|i| i.to_string()),
        image_id: id.map(|i| i.to_string()),
        state: Some("running".to_string()),
    }
}

fn inspect(tags: Option<&[&str]>, digests: Option<&[&str]>) -> Option<ImageInspect> {
    Some(ImageInspect { repo_tags: tags.map(strings), repo_digests: digests.map(strings) })
}

fn needs_digest(scan: Scan) -> Candidate {
    match scan {
        Scan::NeedsDigest(candidate) => candidate,
        _ => panic!("the digest is not needed"),
    }
}

fn needs_name(scan: Scan) -> Candidate {
    match scan {
        Scan::NeedsName(candidate) => candidate,
        _ => panic!("the name is not needed"),
    }
}

fn found(scan: Scan) -> ContainerInfo {
    match scan {
        Scan::Found(info) => info,
        _ => panic!("the container is not found"),
    }
}

#[test]
fn container_with_a_tagged_image() {
    let c = container(Some(&["//web", "other"]), Some("nginx:1"), Some("sha256:00ff"));
    let candidate = needs_digest(scan_container(c));
    assert_eq!(candidate.inspect_id(), "00ff");
    let info = candidate.completed(inspect(None, Some(&["other@sha256:1", "nginx@sha256:2"])));
    assert_eq!(info.display_name, "web");
    assert_eq!(info.image_ref, "nginx:1");
    assert_eq!(info.local_digest.unwrap(), "sha256:2");
    assert_eq!(info.state, ItemState::Running);
}

#[test]
fn container_without_a_name_goes_by_its_id() {
    let c = container(Some(&[]), Some("nginx"), Some("1"));
    assert_eq!(needs_digest(scan_container(c)).display_name, "c0ffee");
    let mut c = container(None, Some("nginx"), Some("1"));
    c.id = None;
    c.state = Some("exited".to_string());
    let candidate = needs_digest(scan_container(c));
    assert_eq!(candidate.display_name, "");
    assert_eq!(candidate.state, ItemState::Stopped);
}

#[test]
fn container_without_a_known_image_is_skipped() {
    assert!(matches!(scan_container(container(None, None, Some("1"))), Scan::Skipped));
    assert!(matches!(scan_container(container(None, Some(""), Some("1"))), Scan::Skipped));
    assert!(matches!(scan_container(container(None, Some("nginx"), None)), Scan::Skipped));
}

#[test]
fn container_known_by_image_id_gets_a_name() {
    let c = || container(Some(&["/a"]), Some("sha256:12"), Some("sha256:12"));
    let candidate = needs_name(scan_container(c()));
    let scan = candidate.resolved(inspect(Some(&["<none>:<none>", "redis:8"]), None));
    assert_eq!(needs_digest(scan).image_ref, "redis:8");
    let candidate = needs_name(scan_container(c()));
    let scan = candidate.resolved(inspect(Some(&[]), Some(&["ghcr.io/a/b@sha256:3"])));
    assert_eq!(needs_digest(scan).image_ref, "ghcr.io/a/b:latest");
}

#[test]
fn container_that_gets_no_name_has_no_digest() {
    for answer in [None, inspect(None, None), inspect(Some(&["<none>"]), Some(&[]))] {
        let c = container(Some(&["/a"]), Some("sha256:12"), Some("sha256:12"));
        let info = found(needs_name(scan_container(c)).resolved(answer));
        assert_eq!(info.image_ref, "sha256:12");
        assert!(info.local_digest.is_none());
    }
    let c = container(Some(&["/a"]), Some("sha256:12"), Some("sha256:12"));
    let info = found(needs_name(scan_container(c)).resolved(inspect(Some(&["sha256:x"]), None)));
    assert_eq!(info.image_ref, "sha256:x");
    assert!(info.local_digest.is_none());
}

#[test]
fn container_started_by_digest_gets_a_tag() {
    let c = || container(Some(&["/web"]), Some("nginx@sha256:d1"), Some("sha256:aa"));
    let untagged = || inspect(Some(&[]), Some(&["nginx@sha256:d1"]));
    let candidate = needs_digest(needs_name(scan_container(c())).resolved(untagged()));
    let info = candidate.completed(untagged());
    assert_eq!(info.display_name, "web");
    assert_eq!(info.image_ref, "nginx:latest");
    assert_eq!(info.local_digest.unwrap(), "sha256:d1");
    assert_eq!(info.state, ItemState::Running);
    let tagged = inspect(Some(&["nginx:1.25"]), Some(&["nginx@sha256:d1"]));
    let candidate = needs_digest(needs_name(scan_container(c())).resolved(tagged));
    assert_eq!(candidate.image_ref, "nginx:1.25");
}

#[test]
fn container_started_with_a_tag_and_a_digest_keeps_both() {
    let c = container(Some(&["/web"]), Some("nginx:1.25@sha256:d1"), Some("sha256:aa"));
    let info = needs_digest(scan_container(c)).completed(inspect(None, Some(&["nginx@sha256:d1"])));
    assert_eq!(info.image_ref, "nginx:1.25@sha256:d1");
    assert_eq!(info.local_digest.unwrap(), "sha256:d1");
    let c = container(Some(&["/web"]), Some("localhost:5000/app@sha256:d1"), Some("sha256:aa"));
    needs_name(scan_container(c));
    let c = container(Some(&["/web"]), Some("localhost:5000/app:2@sha256:d1"), Some("sha256:aa"));
    needs_digest(scan_container(c));
}

#[test]
fn container_started_by_digest_without_a_tag_is_local_only() {
    for answer in [None, inspect(None, None), inspect(Some(&["<none>:<none>"]), Some(&[]))] {
        let c = container(Some(&["/web"]), Some("nginx@sha256:d1"), Some("sha256:aa"));
        let info = found(needs_name(scan_container(c)).resolved(answer));
        assert_eq!(info.image_ref, "nginx@sha256:d1");
        assert!(info.local_digest.is_none());
        assert!(matches!(begin_check(info), Check::Finished(CheckResult::LocalOnly { .. })));
    }
}

#[test]
fn names_from_descriptions() {
    assert!(resolve_image_name(None).is_none());
    assert_eq!(resolve_image_name(inspect(None, Some(&["a/b"]))).unwrap(), "a/b:latest");
}

#[test]
fn digests_from_descriptions() {
    assert!(get_local_digest(None, "nginx").is_none());
    assert!(get_local_digest(inspect(None, None), "nginx").is_none());
    assert!(get_local_digest(inspect(None, Some(&[])), "nginx").is_none());
    assert!(get_local_digest(inspect(None, Some(&["nginx"])), "nginx").is_none());
    let first = inspect(None, Some(&["x/y@sha256:1", "z@sha256:2"]));
    assert_eq!(get_local_digest(first, "nginx").unwrap(), "sha256:1");
    let own = inspect(None, Some(&["x/y@sha256:1", "docker.io/library/nginx@sha256:2"]));
    assert_eq!(get_local_digest(own, "nginx:1@sha256:9").unwrap(), "sha256:2");
}

#[test]
fn full_repositories_stay_as_they_are() {
    for repo in ["nginx", "docker.io/a", "docker.io/docker.io/a/b", "", "ghcr.io/a/b"] {
        let full = normalize_repo(repo);
        assert_eq!(normalize_repo(&full), full);
        assert_eq!(normalize_repo(&format!("docker.io/{}", repo)), full);
        assert!(!full.starts_with("docker.io/"));
    }
    assert_eq!(normalize_repo(""), "library/");
}

#[test]
fn socket_that_refuses_is_not_usable() {
    assert!(socket_usable(None));
    assert!(socket_usable(Some(true)));
    assert!(!socket_usable(Some(false)));
}

#[test]
fn socket_of_the_daemon() {
    assert_eq!(socket_path(None), "/var/run/docker.sock");
    assert_eq!(socket_path(Some("unix:///tmp/d.sock".to_string())), "/tmp/d.sock");
    assert_eq!(socket_path(Some("tcp://host:1".to_string())), "/var/run/docker.sock");
}
