//! What is shown without colours.

use docker_checker::report::{
    fatal_line, fmt_name, nothing_line, opening_line, permission_line, prune_lines, result_lines,
    size_text, summary_line, warning_line, SizeText,
};
use docker_checker::summary::Summary;
use docker_checker::types::{CheckResult, ContainerInfo, ItemState, PruneableInfo};

fn plain() {
    colored::control::set_override(false);
}

fn update(already_pulled: bool) -> CheckResult {
    CheckResult::UpdateAvailable {
        name: "redis".to_string(),
        image: "redis:latest".to_string(),
        local: "sha256:25".to_string(),
        remote: "sha256:0c".to_string(),
        info_url: "https://hub.docker.com/_/redis/tags".to_string(),
        already_pulled,
        state: ItemState::Running,
    }
}

fn items(states: &[ItemState]) -> Vec<ContainerInfo> {
    states
        .iter()
        .map(|state| ContainerInfo {
            display_name: String::new(),
            image_ref: String::new(),
            local_digest: None,
            state: *state,
        })
        .collect()
}

#[test]
fn plain_names() {
    plain();
    assert_eq!(fmt_name("a", &ItemState::Running), "a");
    assert_eq!(fmt_name("a", &ItemState::Stopped), "a [stopped]");
    assert_eq!(fmt_name("a", &ItemState::Image), "a [image]");
}

#[test]
fn plain_update_lines() {
    plain();
    assert_eq!(
        result_lines(&update(true), 0),
        [
            "[↻] redis (redis:latest) — UPDATE ALREADY PULLED — restart required",
            "      local:  sha256:25",
            "      remote: sha256:0c",
            "      info:   https://hub.docker.com/_/redis/tags",
        ]
    );
    assert_eq!(
        result_lines(&update(false), 0)[0],
        "[!] redis (redis:latest) — UPDATE AVAILABLE"
    );
}

#[test]
fn plain_lines_on_demand() {
    plain();
    let current = CheckResult::UpToDate {
        name: "a".to_string(),
        image: "b".to_string(),
        state: ItemState::Stopped,
    };
    assert!(result_lines(&current, 0).is_empty());
    assert_eq!(result_lines(&current, 1), ["[✓] a [stopped] (b) — up to date"]);
    let local = CheckResult::LocalOnly {
        name: "a".to_string(),
        image: "b".to_string(),
        state: ItemState::Image,
    };
    assert!(result_lines(&local, 0).is_empty());
    assert_eq!(
        result_lines(&local, 3),
        ["[?] a [image] (b) — locally built, no registry digest"]
    );
}

#[test]
fn plain_error_line() {
    plain();
    let error = CheckResult::Error {
        name: "a".to_string(),
        image: "b".to_string(),
        reason: "No manifest found for b".to_string(),
        state: ItemState::Running,
    };
    assert_eq!(result_lines(&error, 0), ["[✗] a (b) — error: No manifest found for b"]);
}

#[test]
fn plain_opening() {
    plain();
    assert_eq!(opening_line(&items(&[ItemState::Running]), false), "Checking 1 running container...\n");
    assert_eq!(
        opening_line(&items(&[ItemState::Running, ItemState::Running]), false),
        "Checking 2 running containers...\n"
    );
    assert_eq!(
        opening_line(&items(&[ItemState::Image]), true),
        "Checking 1 item (0 running, 0 stopped, 1 standalone images)...\n"
    );
    let mixed = [ItemState::Running, ItemState::Stopped, ItemState::Image, ItemState::Running];
    assert_eq!(
        opening_line(&items(&mixed), true),
        "Checking 4 items (2 running, 1 stopped, 1 standalone images)...\n"
    );
}

#[test]
fn plain_summary() {
    plain();
    let summary =
        Summary { up_to_date: 2, updates: 2, restart_only: 1, local_only: 0, errors: 0 };
    assert_eq!(
        summary_line(&summary),
        "\nSummary: 4 checked | 2 updates available (1 restart-only) | 0 errors | 0 local-only"
    );
    let summary =
        Summary { up_to_date: 0, updates: 1, restart_only: 0, local_only: 12, errors: 1 };
    assert_eq!(
        summary_line(&summary),
        "\nSummary: 14 checked | 1 update available (0 restart-only) | 1 error | 12 local-only"
    );
}

#[test]
fn plain_hints() {
    plain();
    let mut info =
        PruneableInfo { dangling_count: 2, dangling_bytes: 0, unused_count: 1, unused_bytes: 0 };
    assert_eq!(
        prune_lines(&info, "280.0 MB", "456.0 MB"),
        ["", "  2 dangling images (280.0 MB virtual)", "  1 unused image (456.0 MB virtual)"]
    );
    info.dangling_count = 0;
    assert_eq!(prune_lines(&info, "x", "y"), ["", "  1 unused image (y virtual)"]);
    info.unused_count = 0;
    assert!(prune_lines(&info, "x", "y").is_empty());
    info.dangling_count = 1;
    assert_eq!(prune_lines(&info, "x", "y"), ["", "  1 dangling image (x virtual)"]);
}

#[test]
fn sizes_in_writing() {
    let written = |bytes: u64| match size_text(bytes) {
        SizeText::Written(text) => text,
        _ => panic!("not written"),
    };
    assert_eq!(written(0), "0 B");
    assert_eq!(written(999), "999 B");
    assert_eq!(written(1_000), "1 KB");
    assert_eq!(written(999_999), "999 KB");
    assert!(matches!(size_text(1_000_000), SizeText::Megabytes));
    assert!(matches!(size_text(999_999_999), SizeText::Megabytes));
    assert!(matches!(size_text(1_000_000_000), SizeText::Gigabytes));
    assert!(matches!(size_text(u64::MAX), SizeText::Gigabytes));
}

#[test]
fn plain_messages() {
    plain();
    assert_eq!(fatal_line("x"), "error: x");
    assert_eq!(
        permission_line("/s"),
        "error: insufficient permissions to access Docker socket at /s"
    );
    assert_eq!(warning_line("x"), "warning: listing standalone images: x");
    assert_eq!(nothing_line(), "Nothing to check.");
}
