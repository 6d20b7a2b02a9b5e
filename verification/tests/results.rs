//! Checks, and what they add up to.

use docker_checker::checker::{begin_check, client_failed, Check, PendingCheck};
use docker_checker::error::Error;
use docker_checker::string_set::StringSet;
use docker_checker::summary::{pulled_digests, sort_results, tally, Summary};
use docker_checker::types::{CheckResult, ContainerInfo, ItemState};

fn info(name: &str, digest: Option<&str>) -> ContainerInfo {
    ContainerInfo {
        display_name: name.to_string(),
        image_ref: "nginx:1".to_string(),
        local_digest: digest.map(|d| d.to_string()),
        state: ItemState::Stopped,
    }
}

fn pending() -> PendingCheck {
    match begin_check(info("web", Some("sha256:1"))) {
        Check::AskRegistry(pending) => pending,
        Check::Finished(_) => panic!("the registry is not asked"),
    }
}

fn stored(digest: &str) -> StringSet {
    let mut set = StringSet::new();
    set.insert(digest.to_string());
    set
}

fn up_to_date(name: &str, image: &str) -> CheckResult {
    CheckResult::UpToDate {
        name: name.to_string(),
        image: image.to_string(),
        state: ItemState::Running,
    }
}

fn update(name: &str, remote: &str, already_pulled: bool) -> CheckResult {
    CheckResult::UpdateAvailable {
        name: name.to_string(),
        image: String::new(),
        local: String::new(),
        remote: remote.to_string(),
        info_url: String::new(),
        already_pulled,
        state: ItemState::Running,
    }
}

#[test]
fn image_without_a_digest_is_local_only() {
    match begin_check(info("web", None)) {
        Check::Finished(CheckResult::LocalOnly { name, image, state }) => {
            assert_eq!((name.as_str(), image.as_str()), ("web", "nginx:1"));
            assert_eq!(state, ItemState::Stopped);
        }
        _ => panic!("the image is not local only"),
    }
}

#[test]
fn same_digest_is_up_to_date() {
    match pending().finish(Ok("sha256:1".to_string()), &StringSet::new()) {
        CheckResult::UpToDate { name, image, .. } => {
            assert_eq!((name.as_str(), image.as_str()), ("web", "nginx:1"));
        }
        _ => panic!("the image is not up to date"),
    }
}

#[test]
fn other_digest_is_an_update() {
    for (here, pulled) in [("sha256:2", true), ("sha256:3", false)] {
        match pending().finish(Ok("sha256:2".to_string()), &stored(here)) {
            CheckResult::UpdateAvailable { local, remote, info_url, already_pulled, .. } => {
                assert_eq!((local.as_str(), remote.as_str()), ("sha256:1", "sha256:2"));
                assert_eq!(info_url, "https://hub.docker.com/_/nginx/tags");
                assert_eq!(already_pulled, pulled);
            }
            _ => panic!("there is no update"),
        }
    }
}

#[test]
fn failed_lookup_is_an_error() {
    let error = Error::NoManifest { image: "nginx:1".to_string() };
    match pending().finish(Err(error), &StringSet::new()) {
        CheckResult::Error { reason, .. } => assert_eq!(reason, "No manifest found for nginx:1"),
        _ => panic!("there is no error"),
    }
}

#[test]
fn without_a_client_every_item_fails() {
    let items = vec![info("a", Some("d")), info("b", None)];
    let results = client_failed(items, &Error::Http("tls".to_string()));
    assert_eq!(results.len(), 2);
    for (result, wanted) in results.iter().zip(["a", "b"]) {
        match result {
            CheckResult::Error { name, reason, .. } => {
                assert_eq!(name, wanted);
                assert_eq!(reason, "failed to create HTTP client: HTTP error: tls");
            }
            _ => panic!("there is no error"),
        }
    }
}

#[test]
fn results_are_sorted_by_name_and_keep_their_order() {
    let results = vec![
        up_to_date("b", "1"),
        up_to_date("a", "2"),
        up_to_date("b", "3"),
        up_to_date("B", "4"),
        up_to_date("a", "5"),
    ];
    let sorted = sort_results(results);
    let order: Vec<(&str, &str)> = sorted
        .iter()
        .map(|r| match r {
            CheckResult::UpToDate { name, image, .. } => (name.as_str(), image.as_str()),
            _ => panic!("another result"),
        })
        .collect();
    assert_eq!(order, [("B", "4"), ("a", "2"), ("a", "5"), ("b", "1"), ("b", "3")]);
    assert_eq!(sorted[0].sort_key(), "B");
    assert!(sort_results(Vec::new()).is_empty());
}

#[test]
fn tally_and_exit_code() {
    let results = vec![
        up_to_date("a", ""),
        update("b", "sha256:1", true),
        update("c", "sha256:2", false),
        update("d", "sha256:1", true),
        CheckResult::LocalOnly {
            name: String::new(),
            image: String::new(),
            state: ItemState::Image,
        },
        CheckResult::Error {
            name: String::new(),
            image: String::new(),
            reason: String::new(),
            state: ItemState::Image,
        },
    ];
    let summary = tally(&results);
    let wanted =
        Summary { up_to_date: 1, updates: 3, restart_only: 2, local_only: 1, errors: 1 };
    assert_eq!(summary, wanted);
    assert_eq!(summary.exit_code(), 2);
    assert_eq!(pulled_digests(&results).members(), &vec!["sha256:1".to_string()]);
    assert_eq!(tally(&vec![up_to_date("a", "")]).exit_code(), 0);
    assert_eq!(tally(&Vec::new()).exit_code(), 0);
}
