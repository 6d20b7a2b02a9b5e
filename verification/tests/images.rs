//! Images without a container, and images that could be removed.

use docker_checker::docker::{ContainerSummary, ImageSummary};
use docker_checker::images::{
    count_removable, list_standalone_images, local_digests, pruneable_info,
};
use docker_checker::registry::add_default_tag;
use docker_checker::selection::{container_refs, count_state, merge_standalone};
use docker_checker::string_set::StringSet;
use docker_checker::types::{ContainerInfo, ItemState, PruneableInfo};

fn image(id: &str, tags: &[&str], digests: &[&str], size: i64) -> ImageSummary {
    ImageSummary {
        id: id.to_string(),
        repo_tags: tags.iter().map(|t| t.to_string()).collect(),
        repo_digests: digests.iter().map(|d| d.to_string()).collect(),
        size,
    }
}

fn user_of(image_id: &str) -> ContainerSummary {
    ContainerSummary {
        id: None,
        names: None,
        image: None,
        image_id: Some(image_id.to_string()),
        state: None,
    }
}

fn set(members: &[&str]) -> StringSet {
    let mut set = StringSet::new();
    for member in members {
        set.insert(member.to_string());
    }
    set
}

fn item(image_ref: &str, state: ItemState) -> ContainerInfo {
    ContainerInfo {
        display_name: image_ref.to_string(),
        image_ref: image_ref.to_string(),
        local_digest: None,
        state,
    }
}

fn refs(items: &[ContainerInfo]) -> Vec<&str> {
    items.iter().map(|i| i.image_ref.as_str()).collect()
}

fn counts(info: &PruneableInfo) -> (usize, u64, usize, u64) {
    (info.dangling_count, info.dangling_bytes, info.unused_count, info.unused_bytes)
}

fn sorted_members(set: &StringSet) -> Vec<&str> {
    let mut members: Vec<&str> = set.members().iter().map(|m| m.as_str()).collect();
    members.sort();
    members
}

#[test]
fn set_holds_each_member_once() {
    let mut names = set(&["b", "a", "b"]);
    assert_eq!(sorted_members(&names), ["a", "b"]);
    assert!(names.contains("a") && !names.contains("c"));
    assert!(names.insert("c".to_string()));
    assert!(!names.insert("c".to_string()));
}

#[test]
fn standalone_images() {
    let containers = vec![user_of("sha256:aa")];
    let images = vec![
        image("sha256:aa", &["used:1"], &[], 1),
        image("bb", &["<none>:<none>", "free:1", "free:2"], &["free@sha256:1", "x@sha256:2"], 1),
        image("cc", &["<none>:<none>"], &[], 1),
        image("dd", &["built:1"], &[], 1),
    ];
    let items = list_standalone_images(&containers, &images);
    assert_eq!(refs(&items), ["free:1", "built:1"]);
    assert_eq!(items[0].display_name, "free:1");
    assert_eq!(items[0].local_digest.as_deref(), Some("sha256:1"));
    assert_eq!(items[0].state, ItemState::Image);
    assert!(items[1].local_digest.is_none());
}

#[test]
fn digests_that_are_stored() {
    let images = vec![
        image("a", &[], &["x@sha256:1", "y@sha256:2"], 0),
        image("b", &[], &["broken"], 0),
        image("c", &[], &["x@sha256:1"], 0),
    ];
    let digests = local_digests(Some(&images));
    assert_eq!(sorted_members(&digests), ["sha256:1", "sha256:2"]);
    assert!(local_digests(None).members().is_empty());
}

#[test]
fn merging_checks_each_image_once() {
    let containers = vec![item("a", ItemState::Running), item("a", ItemState::Stopped)];
    let images = vec![
        item("b", ItemState::Image),
        item("a", ItemState::Image),
        item("b", ItemState::Image),
        item("c", ItemState::Image),
    ];
    let all = merge_standalone(containers, images);
    assert_eq!(refs(&all), ["a", "a", "b", "c"]);
    assert_eq!(count_state(&all, ItemState::Running), 1);
    assert_eq!(count_state(&all, ItemState::Stopped), 1);
    assert_eq!(count_state(&all, ItemState::Image), 2);
    assert_eq!(container_refs(&all).members(), &vec!["a".to_string()]);
}

#[test]
fn images_that_could_be_removed() {
    let containers = vec![user_of("sha256:used1"), user_of("used2")];
    let images = vec![
        image("sha256:used1", &[], &[], 1),
        image("used2", &["kept:1"], &[], 2),
        image("d1", &[], &[], 4),
        image("d2", &["<none>:<none>"], &[], 8),
        image("d3", &["<none>:<none>"], &[], -1),
        image("u1", &["old:1"], &["old@sha256:9"], 16),
        image("u2", &["<none>:<none>", "old:2"], &[], 32),
        image("r1", &["web:latest"], &[], 64),
        image("r2", &["db:3"], &[], 128),
        image("p1", &["new:1"], &["x@sha256:7", "new@sha256:8"], 256),
    ];
    let info = pruneable_info(
        Some(&containers),
        Some(&images),
        &set(&["web", "db:3", "x@sha256:0"]),
        &set(&["sha256:8"]),
    );
    assert_eq!(counts(&info), (3, 12, 2, 48));
}

#[test]
fn port_of_a_registry_is_no_tag() {
    let images = vec![
        image("sha256:aa", &["localhost:5000/app:latest"], &[], 9),
        image("sha256:bb", &["localhost:5000/app:2"], &[], 5),
        image("sha256:cc", &["localhost:5000/db:3"], &[], 3),
    ];
    let refs = set(&["localhost:5000/app", "localhost:5000/db:3"]);
    let info = pruneable_info(Some(&vec![]), Some(&images), &refs, &set(&[]));
    assert_eq!(counts(&info), (0, 0, 1, 5));
    assert_eq!(add_default_tag("localhost:5000/app"), "localhost:5000/app:latest");
    assert_eq!(add_default_tag("localhost:5000/app:2"), "localhost:5000/app:2");
    assert_eq!(add_default_tag("app"), "app:latest");
    assert_eq!(add_default_tag("app:"), "app:");
    assert_eq!(add_default_tag("host/app@sha256:1"), "host/app@sha256:1");
}

#[test]
fn sizes_that_cannot_be_counted() {
    let big = |id: &str| image(id, &[], &[], i64::MAX);
    let none = set(&[]);
    let two = vec![big("a"), big("b"), image("c", &[], &[], 1)];
    let info = count_removable(None, &two, &none, &none).unwrap();
    assert_eq!(counts(&info), (3, u64::MAX, 0, 0));
    let three = vec![big("a"), big("b"), image("c", &[], &[], 2)];
    assert!(count_removable(None, &three, &none, &none).is_none());
    let used = vec![user_of("a")];
    let info = count_removable(Some(&used), &three, &none, &none).unwrap();
    assert_eq!(counts(&info), (2, i64::MAX as u64 + 2, 0, 0));
}

#[test]
fn nothing_is_counted_without_images() {
    let info = pruneable_info(None, None, &set(&[]), &set(&[]));
    assert_eq!(counts(&info), (0, 0, 0, 0));
    assert_eq!(counts(&PruneableInfo::default()), (0, 0, 0, 0));
}

#[test]
fn every_image_is_free_where_containers_cannot_be_listed() {
    let images = vec![image("a", &[], &[], 1), image("b", &["t:1"], &[], 2)];
    let info = pruneable_info(None, Some(&images), &set(&[]), &set(&[]));
    assert_eq!(counts(&info), (1, 1, 1, 2));
}
