//! What is shown to the user.

use vstd::prelude::*;
use vstd::string::*;

use crate::images::infos;
use crate::selection;
use crate::style;
use crate::summary::Summary;
use crate::text;
use crate::types::{
    opt_text, texts, CheckResult, CheckResultView, ContainerInfo, ContainerInfoView, ItemState,
    PruneableInfo,
};

verus! {

/// What is shown beside the name of an item that is no running container.
pub open spec fn state_note(state: ItemState) -> Option<Seq<char>> {
    match state {
        ItemState::Running => None,
        ItemState::Stopped => Some("[stopped]"@),
        ItemState::Image => Some("[image]"@),
    }
}

/// A name with a note beside it.
pub open spec fn labelled(name: Seq<char>, note: Option<Seq<char>>) -> Seq<char> {
    match note {
        Some(note) => name + " "@ + note,
        None => name,
    }
}

/// Whether `shown` is the name `name` in bold type, with a dimmed note on the state `state`.
pub open spec fn is_name(name: Seq<char>, state: ItemState, shown: Seq<char>) -> bool {
    exists|bold: Seq<char>, note: Option<Seq<char>>|
        #![trigger labelled(bold, note)]
        {
            &&& shown == labelled(bold, note)
            &&& style::painted(name, "1"@, bold)
            &&& match (state_note(state), note) {
                (Some(plain), Some(dim)) => style::painted(plain, "2"@, dim),
                (None, None) => true,
                _ => false,
            }
        }
}

/// A name with a note beside it.
pub fn label(name: &str, note: Option<String>) -> (text: String)
    ensures
        text@ == labelled(name@, opt_text(note)),
{
    match note {
        Some(note) => text::concat3(name, " ", note.as_str()),
        None => name.to_string(),
    }
}

/// The name of an item, with a note on its state.
pub fn fmt_name(name: &str, state: &ItemState) -> (shown: String)
    ensures
        is_name(name@, *state, shown@),
{
    let bold = style::bold(name);
    let note = match state {
        ItemState::Running => None,
        ItemState::Stopped => Some(style::dimmed("[stopped]")),
        ItemState::Image => Some(style::dimmed("[image]")),
    };
    let ghost dim = opt_text(note);
    let shown = label(bold.as_str(), note);
    assert(shown@ == labelled(bold@, dim));
    shown
}

/// The line for an item: its marker, its name, its image and the verdict on it.
pub open spec fn line_of(
    marker: Seq<char>,
    name: Seq<char>,
    image: Seq<char>,
    verdict: Seq<char>,
) -> Seq<char> {
    marker + " "@ + name + " ("@ + image + ") — "@ + verdict
}

/// The line for an item.
pub fn item_line(marker: &str, name: &str, image: &str, verdict: &str) -> (line: String)
    ensures
        line@ == line_of(marker@, name@, image@, verdict@),
{
    let mut line = text::concat3(marker, " ", name);
    line.append(" (");
    line.append(image);
    line.append(") — ");
    line.append(verdict);
    line
}

/// Whether `line` is the line for an item with a marker and a verdict in these codes.
pub open spec fn is_item_line(
    marker: Seq<char>,
    marker_codes: Seq<char>,
    name: Seq<char>,
    state: ItemState,
    image: Seq<char>,
    verdict: Seq<char>,
    verdict_codes: Seq<char>,
    line: Seq<char>,
) -> bool {
    exists|m: Seq<char>, n: Seq<char>, v: Seq<char>|
        #![trigger line_of(m, n, image, v)]
        {
            &&& line == line_of(m, n, image, v)
            &&& style::painted(marker, marker_codes, m)
            &&& is_name(name, state, n)
            &&& style::painted(verdict, verdict_codes, v)
        }
}

/// Whether `line` is the line for an item whose check failed for the reason `reason`.
pub open spec fn is_error_line(
    name: Seq<char>,
    state: ItemState,
    image: Seq<char>,
    reason: Seq<char>,
    line: Seq<char>,
) -> bool {
    exists|m: Seq<char>, n: Seq<char>, v: Seq<char>|
        #![trigger line_of(m, n, image, v + " "@ + reason)]
        {
            &&& line == line_of(m, n, image, v + " "@ + reason)
            &&& style::painted("[✗]"@, "1;31"@, m)
            &&& is_name(name, state, n)
            &&& style::painted("error:"@, "31"@, v)
        }
}

/// Whether `line` is `caption` and then `detail` in these codes.
pub open spec fn is_detail_line(
    caption: Seq<char>,
    detail: Seq<char>,
    codes: Seq<char>,
    line: Seq<char>,
) -> bool {
    exists|d: Seq<char>|
        #![trigger caption + d]
        line == caption + d && style::painted(detail, codes, d)
}

/// Whether `lines` show `finding`. What needs no attention is shown only on demand.
pub open spec fn shows(lines: Seq<Seq<char>>, finding: CheckResultView, verbosity: u8) -> bool {
    match finding {
        CheckResultView::UpToDate { name, image, state } => if verbosity >= 1 {
            &&& lines.len() == 1
            &&& is_item_line(
                "[✓]"@,
                "1;32"@,
                name,
                state,
                image,
                "up to date"@,
                "32"@,
                lines[0],
            )
        } else {
            lines.len() == 0
        },
        CheckResultView::UpdateAvailable {
            name,
            image,
            local,
            remote,
            info_url,
            already_pulled,
            state,
        } => {
            &&& lines.len() == 4
            &&& if already_pulled {
                is_item_line(
                    "[↻]"@,
                    "1;36"@,
                    name,
                    state,
                    image,
                    "UPDATE ALREADY PULLED — restart required"@,
                    "1;36"@,
                    lines[0],
                )
            } else {
                is_item_line(
                    "[!]"@,
                    "1;33"@,
                    name,
                    state,
                    image,
                    "UPDATE AVAILABLE"@,
                    "1;33"@,
                    lines[0],
                )
            }
            &&& is_detail_line("      local:  "@, local, "2"@, lines[1])
            &&& is_detail_line("      remote: "@, remote, "2"@, lines[2])
            &&& is_detail_line("      info:   "@, info_url, "36"@, lines[3])
        },
        CheckResultView::LocalOnly { name, image, state } => if verbosity >= 1 {
            &&& lines.len() == 1
            &&& is_item_line(
                "[?]"@,
                "2"@,
                name,
                state,
                image,
                "locally built, no registry digest"@,
                "2"@,
                lines[0],
            )
        } else {
            lines.len() == 0
        },
        CheckResultView::Error { name, image, reason, state } => {
            &&& lines.len() == 1
            &&& is_error_line(name, state, image, reason, lines[0])
        },
    }
}

/// The lines that show a result.
pub fn result_lines(result: &CheckResult, verbosity: u8) -> (lines: Vec<String>)
    ensures
        shows(texts(lines@), result@, verbosity),
{
    let mut lines: Vec<String> = Vec::new();
    match result {
        CheckResult::UpToDate { name, image, state } => {
            if verbosity >= 1 {
                let marker = style::bold_green("[✓]");
                let shown = fmt_name(name.as_str(), state);
                let verdict = style::green("up to date");
                lines.push(
                    item_line(marker.as_str(), shown.as_str(), image.as_str(), verdict.as_str()),
                );
            }
        },
        CheckResult::UpdateAvailable {
            name,
            image,
            local,
            remote,
            info_url,
            already_pulled,
            state,
        } => {
            let shown = fmt_name(name.as_str(), state);
            if *already_pulled {
                let marker = style::bold_cyan("[↻]");
                let verdict = style::bold_cyan("UPDATE ALREADY PULLED — restart required");
                lines.push(
                    item_line(marker.as_str(), shown.as_str(), image.as_str(), verdict.as_str()),
                );
            } else {
                let marker = style::bold_yellow("[!]");
                let verdict = style::bold_yellow("UPDATE AVAILABLE");
                lines.push(
                    item_line(marker.as_str(), shown.as_str(), image.as_str(), verdict.as_str()),
                );
            }
            let local = style::dimmed(local.as_str());
            lines.push(text::concat2("      local:  ", local.as_str()));
            let remote = style::dimmed(remote.as_str());
            lines.push(text::concat2("      remote: ", remote.as_str()));
            let info_url = style::cyan(info_url.as_str());
            lines.push(text::concat2("      info:   ", info_url.as_str()));
        },
        CheckResult::LocalOnly { name, image, state } => {
            if verbosity >= 1 {
                let marker = style::dimmed("[?]");
                let shown = fmt_name(name.as_str(), state);
                let verdict = style::dimmed("locally built, no registry digest");
                lines.push(
                    item_line(marker.as_str(), shown.as_str(), image.as_str(), verdict.as_str()),
                );
            }
        },
        CheckResult::Error { name, image, reason, state } => {
            let marker = style::bold_red("[✗]");
            let shown = fmt_name(name.as_str(), state);
            let heading = style::red("error:");
            let verdict = text::concat3(heading.as_str(), " ", reason.as_str());
            lines.push(
                item_line(marker.as_str(), shown.as_str(), image.as_str(), verdict.as_str()),
            );
        },
    }
    lines
}

/// The ending of a noun of which there are `n`.
pub open spec fn plural(n: nat) -> Seq<char> {
    if n == 1 {
        ""@
    } else {
        "s"@
    }
}

/// The ending of a noun of which there are `n`.
fn plural_ending(n: usize) -> (ending: &'static str)
    ensures
        ending@ == plural(n as nat),
{
    if n == 1 {
        ""
    } else {
        "s"
    }
}

/// `n` in decimal notation.
fn number(n: usize) -> (text: String)
    ensures
        text@ == text::decimal(n as nat),
{
    text::decimal_text(n as u64)
}

/// What is said before the checks.
pub open spec fn opening(items: Seq<ContainerInfoView>, all: bool) -> Seq<char> {
    if all {
        "Checking "@ + text::decimal(items.len()) + " item"@ + plural(items.len()) + " ("@
            + text::decimal(selection::count_in_state(items, ItemState::Running)) + " running, "@
            + text::decimal(selection::count_in_state(items, ItemState::Stopped)) + " stopped, "@
            + text::decimal(selection::count_in_state(items, ItemState::Image))
            + " standalone images)...\n"@
    } else {
        "Checking "@ + text::decimal(items.len()) + " running container"@ + plural(items.len())
            + "...\n"@
    }
}

/// What is said before the checks; `all` is set where more is checked than running containers.
pub fn opening_line(items: &Vec<ContainerInfo>, all: bool) -> (line: String)
    ensures
        line@ == opening(infos(items@), all),
{
    let total: usize = items.len();
    let mut line = "Checking ".to_string();
    line.append(number(total).as_str());
    if all {
        line.append(" item");
        line.append(plural_ending(total));
        line.append(" (");
        line.append(number(selection::count_state(items, ItemState::Running)).as_str());
        line.append(" running, ");
        line.append(number(selection::count_state(items, ItemState::Stopped)).as_str());
        line.append(" stopped, ");
        line.append(number(selection::count_state(items, ItemState::Image)).as_str());
        line.append(" standalone images)...\n");
    } else {
        line.append(" running container");
        line.append(plural_ending(total));
        line.append("...\n");
    }
    line
}

/// The summary after the heading `heading`.
pub open spec fn summary_after(heading: Seq<char>, summary: Summary) -> Seq<char> {
    "\n"@ + heading + ": "@ + text::decimal(summary.checked() as nat) + " checked | "@
        + text::decimal(summary.updates as nat) + " update"@ + plural(summary.updates as nat)
        + " available ("@ + text::decimal(summary.restart_only as nat) + " restart-only) | "@
        + text::decimal(summary.errors as nat) + " error"@ + plural(summary.errors as nat) + " | "@
        + text::decimal(summary.local_only as nat) + " local-only"@
}

/// The summary after the heading `heading`.
pub fn summary_text(heading: &str, summary: &Summary) -> (line: String)
    requires
        summary.checked() <= usize::MAX,
    ensures
        line@ == summary_after(heading@, *summary),
{
    let total: usize = summary.up_to_date + summary.updates + summary.local_only + summary.errors;
    let mut line = text::concat3("\n", heading, ": ");
    line.append(number(total).as_str());
    line.append(" checked | ");
    line.append(number(summary.updates).as_str());
    line.append(" update");
    line.append(plural_ending(summary.updates));
    line.append(" available (");
    line.append(number(summary.restart_only).as_str());
    line.append(" restart-only) | ");
    line.append(number(summary.errors).as_str());
    line.append(" error");
    line.append(plural_ending(summary.errors));
    line.append(" | ");
    line.append(number(summary.local_only).as_str());
    line.append(" local-only");
    line
}

/// The summary of all checks.
pub fn summary_line(summary: &Summary) -> (line: String)
    requires
        summary.checked() <= usize::MAX,
    ensures
        exists|heading: Seq<char>|
            #![trigger summary_after(heading, *summary)]
            line@ == summary_after(heading, *summary) && style::painted(
                "Summary"@,
                "1"@,
                heading,
            ),
{
    let heading = style::bold("Summary");
    summary_text(heading.as_str(), summary)
}

/// How the size of something is written.
#[derive(Debug)]
pub enum SizeText {
    /// As a fraction of gigabytes.
    Gigabytes,
    /// As a fraction of megabytes.
    Megabytes,
    /// As this text.
    Written(String),
}

/// Whether `size` is how `bytes` bytes are written.
pub open spec fn is_size_text(bytes: u64, size: SizeText) -> bool {
    if bytes >= 1_000_000_000 {
        size is Gigabytes
    } else if bytes >= 1_000_000 {
        size is Megabytes
    } else if bytes >= 1_000 {
        size matches SizeText::Written(text) && text@ == text::decimal((bytes / 1_000) as nat)
            + " KB"@
    } else {
        size matches SizeText::Written(text) && text@ == text::decimal(bytes as nat) + " B"@
    }
}

/// How `bytes` bytes are written: in the largest unit of which there is at least one.
pub fn size_text(bytes: u64) -> (size: SizeText)
    ensures
        is_size_text(bytes, size),
{
    if bytes >= 1_000_000_000 {
        SizeText::Gigabytes
    } else if bytes >= 1_000_000 {
        SizeText::Megabytes
    } else if bytes >= 1_000 {
        SizeText::Written(text::concat2(text::decimal_text(bytes / 1_000).as_str(), " KB"))
    } else {
        SizeText::Written(text::concat2(text::decimal_text(bytes).as_str(), " B"))
    }
}

/// The hint that `count` images of the kind `kind` could be removed, with their size as shown.
pub open spec fn hint_of(count: nat, kind: Seq<char>, size: Seq<char>) -> Seq<char> {
    "  "@ + text::decimal(count) + " "@ + kind + " image"@ + plural(count) + " ("@ + size + ")"@
}

/// The hint that images could be removed.
pub fn prune_hint(count: usize, kind: &str, size: &str) -> (line: String)
    ensures
        line@ == hint_of(count as nat, kind@, size@),
{
    let mut line = text::concat3("  ", number(count).as_str(), " ");
    line.append(kind);
    line.append(" image");
    line.append(plural_ending(count));
    line.append(" (");
    line.append(size);
    line.append(")");
    line
}

/// Whether `line` is the hint that `count` images of the size `size` could be removed.
pub open spec fn is_hint(count: nat, kind: Seq<char>, size: Seq<char>, line: Seq<char>) -> bool {
    exists|shown: Seq<char>|
        #![trigger hint_of(count, kind, shown)]
        line == hint_of(count, kind, shown) && style::painted(size + " virtual"@, "2"@, shown)
}

/// Whether `lines` are the hints on what could be removed, after an empty line. The sizes are
/// given in writing.
pub open spec fn are_hints(
    info: PruneableInfo,
    dangling_size: Seq<char>,
    unused_size: Seq<char>,
    lines: Seq<Seq<char>>,
) -> bool {
    let dangling = info.dangling_count > 0;
    let unused = info.unused_count > 0;
    if dangling && unused {
        &&& lines.len() == 3
        &&& lines[0] == ""@
        &&& is_hint(info.dangling_count as nat, "dangling"@, dangling_size, lines[1])
        &&& is_hint(info.unused_count as nat, "unused"@, unused_size, lines[2])
    } else if dangling {
        &&& lines.len() == 2
        &&& lines[0] == ""@
        &&& is_hint(info.dangling_count as nat, "dangling"@, dangling_size, lines[1])
    } else if unused {
        &&& lines.len() == 2
        &&& lines[0] == ""@
        &&& is_hint(info.unused_count as nat, "unused"@, unused_size, lines[1])
    } else {
        lines.len() == 0
    }
}

/// The hints on what could be removed; none where there is nothing.
pub fn prune_lines(info: &PruneableInfo, dangling_size: &str, unused_size: &str) -> (lines: Vec<
    String,
>)
    ensures
        are_hints(*info, dangling_size@, unused_size@, texts(lines@)),
{
    let mut lines: Vec<String> = Vec::new();
    if info.dangling_count > 0 || info.unused_count > 0 {
        lines.push("".to_string());
        if info.dangling_count > 0 {
            let size = text::concat2(dangling_size, " virtual");
            let shown = style::dimmed(size.as_str());
            lines.push(prune_hint(info.dangling_count, "dangling", shown.as_str()));
        }
        if info.unused_count > 0 {
            let size = text::concat2(unused_size, " virtual");
            let shown = style::dimmed(size.as_str());
            lines.push(prune_hint(info.unused_count, "unused", shown.as_str()));
        }
    }
    lines
}

/// Whether `line` is `heading` in these codes and then `message`.
pub open spec fn is_message(
    heading: Seq<char>,
    codes: Seq<char>,
    message: Seq<char>,
    line: Seq<char>,
) -> bool {
    exists|shown: Seq<char>|
        #![trigger shown + message]
        line == shown + message && style::painted(heading, codes, shown)
}

/// The line for an error after which nothing can be checked.
pub fn fatal_line(message: &str) -> (line: String)
    ensures
        is_message("error:"@, "1;31"@, " "@ + message@, line@),
{
    let heading = style::bold_red("error:");
    let rest = text::concat2(" ", message);
    text::concat2(heading.as_str(), rest.as_str())
}

/// The line for a Docker socket that may not be used.
pub fn permission_line(socket: &str) -> (line: String)
    ensures
        is_message(
            "error:"@,
            "1;31"@,
            " insufficient permissions to access Docker socket at "@ + socket@,
            line@,
        ),
{
    let heading = style::bold_red("error:");
    let rest = text::concat2(" insufficient permissions to access Docker socket at ", socket);
    text::concat2(heading.as_str(), rest.as_str())
}

/// The line for images that could not be listed.
pub fn warning_line(message: &str) -> (line: String)
    ensures
        is_message("warning:"@, "33"@, " listing standalone images: "@ + message@, line@),
{
    let heading = style::yellow("warning:");
    let rest = text::concat2(" listing standalone images: ", message);
    text::concat2(heading.as_str(), rest.as_str())
}

/// What is said where there is nothing to check.
pub fn nothing_line() -> (line: String)
    ensures
        style::painted("Nothing to check."@, "33"@, line@),
{
    style::yellow("Nothing to check.")
}

/// Updates and errors are always shown; items that are up to date or known to no registry are
/// shown only on demand.
pub proof fn attention_is_never_lost(
    lines: Seq<Seq<char>>,
    finding: CheckResultView,
    verbosity: u8,
)
    requires
        shows(lines, finding, verbosity),
    ensures
        lines.len() > 0 <==> finding is UpdateAvailable || finding is Error || verbosity >= 1,
{
}

/// The name of a running container is shown by itself, and that of anything else with a note on
/// what it is: the name in bold type, a blank, and the note dimmed.
pub proof fn name_is_shown_with_its_state(name: Seq<char>, state: ItemState, shown: Seq<char>)
    requires
        is_name(name, state, shown),
    ensures
        state == ItemState::Running ==> style::painted(name, "1"@, shown),
        state == ItemState::Stopped ==> exists|bold: Seq<char>, dim: Seq<char>|
            #[trigger] (bold + " "@ + dim) == shown && style::painted(name, "1"@, bold)
                && style::painted("[stopped]"@, "2"@, dim),
        state == ItemState::Image ==> exists|bold: Seq<char>, dim: Seq<char>|
            #[trigger] (bold + " "@ + dim) == shown && style::painted(name, "1"@, bold)
                && style::painted("[image]"@, "2"@, dim),
{
    let (bold, note) = choose|bold: Seq<char>, note: Option<Seq<char>>|
        #![trigger labelled(bold, note)]
        {
            &&& shown == labelled(bold, note)
            &&& style::painted(name, "1"@, bold)
            &&& match (state_note(state), note) {
                (Some(plain), Some(dim)) => style::painted(plain, "2"@, dim),
                (None, None) => true,
                _ => false,
            }
        };
    if let Some(dim) = note {
        assert(bold + " "@ + dim == shown);
    }
}

/// The line for an item names its marker, its name, its image in brackets and the verdict, in this
/// order.
pub proof fn line_names_the_image(
    marker: Seq<char>,
    codes: Seq<char>,
    name: Seq<char>,
    state: ItemState,
    image: Seq<char>,
    verdict: Seq<char>,
    verdict_codes: Seq<char>,
    line: Seq<char>,
)
    requires
        is_item_line(marker, codes, name, state, image, verdict, verdict_codes, line),
    ensures
        exists|m: Seq<char>, n: Seq<char>, v: Seq<char>|
            #[trigger] (m + " "@ + n + " ("@ + image + ") — "@ + v) == line && style::painted(
                marker,
                codes,
                m,
            ) && is_name(name, state, n) && style::painted(verdict, verdict_codes, v),
{
    let (m, n, v) = choose|m: Seq<char>, n: Seq<char>, v: Seq<char>|
        #![trigger line_of(m, n, image, v)]
        {
            &&& line == line_of(m, n, image, v)
            &&& style::painted(marker, codes, m)
            &&& is_name(name, state, n)
            &&& style::painted(verdict, verdict_codes, v)
        };
    assert(m + " "@ + n + " ("@ + image + ") — "@ + v == line);
}

/// What is shown of a result: for every update the line that says whether it is already pulled,
/// and below it the digest that is here, the digest that the registry has, and the page; for every
/// error the reason; and for the rest a line on demand.
pub proof fn result_is_shown_as_what_it_is(
    lines: Seq<Seq<char>>,
    finding: CheckResultView,
    verbosity: u8,
)
    requires
        shows(lines, finding, verbosity),
    ensures
        ({
            match finding {
                CheckResultView::UpToDate { name, image, state } => {
                    &&& verbosity == 0 ==> lines.len() == 0
                    &&& verbosity > 0 ==> lines.len() == 1 && is_item_line(
                        "[✓]"@,
                        "1;32"@,
                        name,
                        state,
                        image,
                        "up to date"@,
                        "32"@,
                        lines[0],
                    )
                },
                CheckResultView::LocalOnly { name, image, state } => {
                    &&& verbosity == 0 ==> lines.len() == 0
                    &&& verbosity > 0 ==> lines.len() == 1 && is_item_line(
                        "[?]"@,
                        "2"@,
                        name,
                        state,
                        image,
                        "locally built, no registry digest"@,
                        "2"@,
                        lines[0],
                    )
                },
                CheckResultView::Error { name, image, reason, state } => lines.len() == 1 && exists|
                    m: Seq<char>,
                    n: Seq<char>,
                    v: Seq<char>,
                |
                    #[trigger] (m + " "@ + n + " ("@ + image + ") — "@ + (v + " "@ + reason))
                        == lines[0] && style::painted("[✗]"@, "1;31"@, m) && is_name(
                        name,
                        state,
                        n,
                    ) && style::painted("error:"@, "31"@, v),
                CheckResultView::UpdateAvailable {
                    name,
                    image,
                    local,
                    remote,
                    info_url,
                    already_pulled,
                    state,
                } => {
                    &&& lines.len() == 4
                    &&& already_pulled ==> is_item_line(
                        "[↻]"@,
                        "1;36"@,
                        name,
                        state,
                        image,
                        "UPDATE ALREADY PULLED — restart required"@,
                        "1;36"@,
                        lines[0],
                    )
                    &&& !already_pulled ==> is_item_line(
                        "[!]"@,
                        "1;33"@,
                        name,
                        state,
                        image,
                        "UPDATE AVAILABLE"@,
                        "1;33"@,
                        lines[0],
                    )
                    &&& exists|d: Seq<char>|
                        #[trigger] ("      local:  "@ + d) == lines[1] && style::painted(
                            local,
                            "2"@,
                            d,
                        )
                    &&& exists|d: Seq<char>|
                        #[trigger] ("      remote: "@ + d) == lines[2] && style::painted(
                            remote,
                            "2"@,
                            d,
                        )
                    &&& exists|d: Seq<char>|
                        #[trigger] ("      info:   "@ + d) == lines[3] && style::painted(
                            info_url,
                            "36"@,
                            d,
                        )
                },
            }
        }),
{
    if let CheckResultView::Error { name, image, reason, state } = finding {
        let (m, n, v) = choose|m: Seq<char>, n: Seq<char>, v: Seq<char>|
            #![trigger line_of(m, n, image, v + " "@ + reason)]
            {
                &&& lines[0] == line_of(m, n, image, v + " "@ + reason)
                &&& style::painted("[✗]"@, "1;31"@, m)
                &&& is_name(name, state, n)
                &&& style::painted("error:"@, "31"@, v)
            };
        assert(m + " "@ + n + " ("@ + image + ") — "@ + (v + " "@ + reason) == lines[0]);
    }
}

/// A message is its heading in its colour, and then what it says.
pub proof fn message_follows_its_heading(
    heading: Seq<char>,
    codes: Seq<char>,
    message: Seq<char>,
    line: Seq<char>,
)
    requires
        is_message(heading, codes, message, line),
    ensures
        exists|shown: Seq<char>|
            #[trigger] (shown + message) == line && style::painted(heading, codes, shown),
{
}

/// Before the checks, the number of containers is told; with everything else, the number of items,
/// and how many of them run, do not run, and are images without a container.
pub proof fn opening_tells_the_numbers(items: Seq<ContainerInfoView>)
    ensures
        ({
            let n = items.len();
            let count = |state: ItemState| text::decimal(selection::count_in_state(items, state));
            &&& opening(items, false) == "Checking "@ + text::decimal(n) + (if n == 1 {
                " running container"@
            } else {
                " running containers"@
            }) + "...\n"@
            &&& opening(items, true) == "Checking "@ + text::decimal(n) + (if n == 1 {
                " item"@
            } else {
                " items"@
            }) + " ("@ + count(ItemState::Running) + " running, "@ + count(ItemState::Stopped)
                + " stopped, "@ + count(ItemState::Image) + " standalone images)...\n"@
        }),
{
    reveal_strlit("");
    reveal_strlit("s");
    reveal_strlit(" item");
    reveal_strlit(" items");
    reveal_strlit(" running container");
    reveal_strlit(" running containers");
    let front = "Checking "@ + text::decimal(items.len());
    assert(front + " item"@ + ""@ =~= front + " item"@);
    assert(front + " item"@ + "s"@ =~= front + " items"@);
    assert(front + " running container"@ + ""@ =~= front + " running container"@);
    assert(front + " running container"@ + "s"@ =~= front + " running containers"@);
}

/// The summary tells how many items were checked, how many updates there are and how many of them
/// need only a restart, how many checks failed, and how many items no registry knows.
pub proof fn summary_tells_the_counts(heading: Seq<char>, summary: Summary)
    ensures
        summary_after(heading, summary) == "\n"@ + heading + ": "@ + text::decimal(
            (summary.up_to_date + summary.updates + summary.local_only + summary.errors) as nat,
        ) + " checked | "@ + text::decimal(summary.updates as nat) + (if summary.updates == 1 {
            " update"@
        } else {
            " updates"@
        }) + " available ("@ + text::decimal(summary.restart_only as nat) + " restart-only) | "@
            + text::decimal(summary.errors as nat) + (if summary.errors == 1 {
            " error"@
        } else {
            " errors"@
        }) + " | "@ + text::decimal(summary.local_only as nat) + " local-only"@,
{
    reveal_strlit("");
    reveal_strlit("s");
    reveal_strlit(" update");
    reveal_strlit(" updates");
    reveal_strlit(" error");
    reveal_strlit(" errors");
    let front = "\n"@ + heading + ": "@ + text::decimal(summary.checked() as nat) + " checked | "@
        + text::decimal(summary.updates as nat);
    assert(front + " update"@ + ""@ =~= front + " update"@);
    assert(front + " update"@ + "s"@ =~= front + " updates"@);
    let middle = front + " update"@ + plural(summary.updates as nat) + " available ("@
        + text::decimal(summary.restart_only as nat) + " restart-only) | "@ + text::decimal(
        summary.errors as nat,
    );
    assert(middle + " error"@ + ""@ =~= middle + " error"@);
    assert(middle + " error"@ + "s"@ =~= middle + " errors"@);
}

/// A size is told in the largest unit of which there is at least one, and bytes and kilobytes in
/// whole numbers, rounded down.
pub proof fn size_is_told_in_its_largest_unit(bytes: u64, size: SizeText, thousands: nat)
    requires
        is_size_text(bytes, size),
    ensures
        bytes < 1_000 ==> (size matches SizeText::Written(text) && text@ == text::decimal(
            bytes as nat,
        ) + " B"@),
        1 <= thousands < 1_000 && 1_000 * thousands <= bytes < 1_000 * (thousands + 1) ==> (
        size matches SizeText::Written(text) && text@ == text::decimal(thousands) + " KB"@),
        1_000_000 <= bytes < 1_000_000_000 ==> size is Megabytes,
        1_000_000_000 <= bytes ==> size is Gigabytes,
{
}

/// A hint is shown for each kind of image of which there is one to remove, first for those that
/// dangle and then for those that are unused, each with its own number and size; without any,
/// nothing is shown.
pub proof fn hints_tell_what_could_be_removed(
    info: PruneableInfo,
    dangling_size: Seq<char>,
    unused_size: Seq<char>,
    lines: Seq<Seq<char>>,
)
    requires
        are_hints(info, dangling_size, unused_size, lines),
    ensures
        info.dangling_count == 0 && info.unused_count == 0 ==> lines.len() == 0,
        info.dangling_count > 0 || info.unused_count > 0 ==> lines[0].len() == 0 && lines.len()
            == 1 + (if info.dangling_count > 0 {
            1int
        } else {
            0int
        }) + (if info.unused_count > 0 {
            1int
        } else {
            0int
        }),
        info.dangling_count > 0 ==> exists|shown: Seq<char>|
            #[trigger] hint_of(info.dangling_count as nat, "dangling"@, shown) == lines[1]
                && style::painted(dangling_size + " virtual"@, "2"@, shown),
        info.unused_count > 0 ==> exists|shown: Seq<char>|
            #[trigger] hint_of(info.unused_count as nat, "unused"@, shown) == lines.last()
                && style::painted(unused_size + " virtual"@, "2"@, shown),
{
    reveal_strlit("");
}

/// A label is a name and, where there is one, a blank and a note; the line for an item is made of
/// the texts that it is given; and a hint is made of its number, its kind and its size.
pub proof fn texts_are_put_together_in_order(
    a: Seq<char>,
    b: Seq<char>,
    c: Seq<char>,
    d: Seq<char>,
    n: nat,
)
    ensures
        labelled(a, None) == a,
        labelled(a, Some(b)) == a + " "@ + b,
        line_of(a, b, c, d) == a + " "@ + b + " ("@ + c + ") — "@ + d,
        hint_of(n, a, b) == "  "@ + text::decimal(n) + " "@ + a + (if n == 1 {
            " image"@
        } else {
            " images"@
        }) + " ("@ + b + ")"@,
{
    reveal_strlit("");
    reveal_strlit("s");
    reveal_strlit(" image");
    reveal_strlit(" images");
    let front = "  "@ + text::decimal(n) + " "@ + a;
    assert(front + " image"@ + ""@ =~= front + " image"@);
    assert(front + " image"@ + "s"@ =~= front + " images"@);
}

} // verus!
