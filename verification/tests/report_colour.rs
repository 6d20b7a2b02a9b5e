//! What is shown in colours.

use docker_checker::report::{
    fatal_line, fmt_name, nothing_line, prune_lines, result_lines, summary_line, warning_line,
};
use docker_checker::summary::Summary;
use docker_checker::types::{CheckResult, ItemState, PruneableInfo};

fn colours() {
    colored::control::set_override(true);
}

#[test]
fn coloured_names() {
    colours();
    assert_eq!(fmt_name("a", &ItemState::Running), "\x1b[1ma\x1b[0m");
    assert_eq!(
        fmt_name("a", &ItemState::Stopped),
        "\x1b[1ma\x1b[0m \x1b[2m[stopped]\x1b[0m"
    );
    assert_eq!(fmt_name("a", &ItemState::Image), "\x1b[1ma\x1b[0m \x1b[2m[image]\x1b[0m");
}

#[test]
fn colour_is_kept_up_after_a_reset() {
    colours();
    assert_eq!(
        fmt_name("ä\x1b[0mb\x1b[0m", &ItemState::Running),
        "\x1b[1mä\x1b[0m\x1b[1mb\x1b[0m\x1b[1m\x1b[0m"
    );
}

#[test]
fn coloured_update_lines() {
    colours();
    let update = |already_pulled| CheckResult::UpdateAvailable {
        name: "n".to_string(),
        image: "i".to_string(),
        local: "l".to_string(),
        remote: "r".to_string(),
        info_url: "u".to_string(),
        already_pulled,
        state: ItemState::Running,
    };
    assert_eq!(
        result_lines(&update(false), 0),
        [
            "\x1b[1;33m[!]\x1b[0m \x1b[1mn\x1b[0m (i) — \x1b[1;33mUPDATE AVAILABLE\x1b[0m",
            "      local:  \x1b[2ml\x1b[0m",
            "      remote: \x1b[2mr\x1b[0m",
            "      info:   \x1b[36mu\x1b[0m",
        ]
    );
    assert_eq!(
        result_lines(&update(true), 0)[0],
        "\x1b[1;36m[↻]\x1b[0m \x1b[1mn\x1b[0m (i) — \x1b[1;36mUPDATE ALREADY PULLED — restart required\x1b[0m"
    );
}

#[test]
fn coloured_result_lines() {
    colours();
    let current = CheckResult::UpToDate {
        name: "n".to_string(),
        image: "i".to_string(),
        state: ItemState::Running,
    };
    assert_eq!(
        result_lines(&current, 1),
        ["\x1b[1;32m[✓]\x1b[0m \x1b[1mn\x1b[0m (i) — \x1b[32mup to date\x1b[0m"]
    );
    let error = CheckResult::Error {
        name: "n".to_string(),
        image: "i".to_string(),
        reason: "why".to_string(),
        state: ItemState::Running,
    };
    assert_eq!(
        result_lines(&error, 0),
        ["\x1b[1;31m[✗]\x1b[0m \x1b[1mn\x1b[0m (i) — \x1b[31merror:\x1b[0m why"]
    );
}

#[test]
fn coloured_messages() {
    colours();
    assert_eq!(fatal_line("x"), "\x1b[1;31merror:\x1b[0m x");
    assert_eq!(warning_line("x"), "\x1b[33mwarning:\x1b[0m listing standalone images: x");
    assert_eq!(nothing_line(), "\x1b[33mNothing to check.\x1b[0m");
    let summary =
        Summary { up_to_date: 0, updates: 0, restart_only: 0, local_only: 0, errors: 0 };
    assert!(summary_line(&summary).starts_with("\n\x1b[1mSummary\x1b[0m: 0 checked"));
    let info =
        PruneableInfo { dangling_count: 1, dangling_bytes: 0, unused_count: 0, unused_bytes: 0 };
    assert_eq!(
        prune_lines(&info, "1 KB", "")[1],
        "  1 dangling image (\x1b[2m1 KB virtual\x1b[0m)"
    );
}
