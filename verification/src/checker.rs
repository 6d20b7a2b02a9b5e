//! The check of one item: whether the registry has another image than the one that is here.

use vstd::prelude::*;

use crate::docker;
use crate::docker::{ContainerSummary, ImageInspect, ImageSummary, ScanView};
use crate::error::{Error, ErrorView};
use crate::images;
use crate::images::infos;
use crate::lookup::outcome_view;
use crate::registry;
use crate::string_set::StringSet;
use crate::text;
use crate::types::{CheckResult, CheckResultView, ContainerInfo, ContainerInfoView, ItemState};

verus! {

/// An item whose registry has to be asked.
pub struct PendingCheck {
    pub name: String,
    pub image: String,
    pub local: String,
    pub state: ItemState,
}

/// What a [`PendingCheck`] says.
pub struct PendingCheckView {
    pub name: Seq<char>,
    pub image: Seq<char>,
    pub local: Seq<char>,
    pub state: ItemState,
}

impl View for PendingCheck {
    type V = PendingCheckView;

    open spec fn view(&self) -> PendingCheckView {
        PendingCheckView {
            name: self.name@,
            image: self.image@,
            local: self.local@,
            state: self.state,
        }
    }
}

/// How far a check has come.
pub enum Check {
    /// It is over.
    Finished(CheckResult),
    /// The registry has to be asked for the digest of the image.
    AskRegistry(PendingCheck),
}

/// What a [`Check`] says.
pub enum CheckView {
    Finished(CheckResultView),
    AskRegistry(PendingCheckView),
}

impl View for Check {
    type V = CheckView;

    open spec fn view(&self) -> CheckView {
        match self {
            Check::Finished(result) => CheckView::Finished(result@),
            Check::AskRegistry(pending) => CheckView::AskRegistry(pending@),
        }
    }
}

/// What is to do for an item: an image without a local digest is known to no registry.
pub open spec fn first_check(info: ContainerInfoView) -> CheckView {
    match info.local_digest {
        None => CheckView::Finished(
            CheckResultView::LocalOnly {
                name: info.display_name,
                image: info.image_ref,
                state: info.state,
            },
        ),
        Some(local) => CheckView::AskRegistry(
            PendingCheckView {
                name: info.display_name,
                image: info.image_ref,
                local,
                state: info.state,
            },
        ),
    }
}

/// What the digest that the registry has, or the lack of it, says of an item. An update has
/// already been pulled where an image with that digest is stored locally.
pub open spec fn checked(
    pending: PendingCheckView,
    remote: Result<Seq<char>, ErrorView>,
    stored: Set<Seq<char>>,
) -> CheckResultView {
    match remote {
        Err(error) => CheckResultView::Error {
            name: pending.name,
            image: pending.image,
            reason: error.message(),
            state: pending.state,
        },
        Ok(remote) => if remote == pending.local {
            CheckResultView::UpToDate {
                name: pending.name,
                image: pending.image,
                state: pending.state,
            }
        } else {
            CheckResultView::UpdateAvailable {
                name: pending.name,
                image: pending.image,
                local: pending.local,
                remote,
                info_url: registry::info_url(pending.image),
                already_pulled: stored.contains(remote),
                state: pending.state,
            }
        },
    }
}

/// Begins the check of an item.
pub fn begin_check(info: ContainerInfo) -> (check: Check)
    ensures
        check@ == first_check(info@),
{
    match info.local_digest {
        None => Check::Finished(
            CheckResult::LocalOnly {
                name: info.display_name,
                image: info.image_ref,
                state: info.state,
            },
        ),
        Some(local) => Check::AskRegistry(
            PendingCheck {
                name: info.display_name,
                image: info.image_ref,
                local,
                state: info.state,
            },
        ),
    }
}

impl PendingCheck {
    /// Ends the check with the digest that the registry has, or with the reason why it is not
    /// known.
    pub fn finish(self, remote: Result<String, Error>, local_digests: &StringSet) -> (result:
        CheckResult)
        ensures
            result@ == checked(self@, outcome_view(remote), local_digests@),
    {
        match remote {
            Ok(remote) => if text::same_text(self.local.as_str(), remote.as_str()) {
                CheckResult::UpToDate { name: self.name, image: self.image, state: self.state }
            } else {
                let already_pulled = local_digests.contains(remote.as_str());
                let info_url = registry::info_url_for(self.image.as_str());
                CheckResult::UpdateAvailable {
                    name: self.name,
                    image: self.image,
                    local: self.local,
                    remote,
                    info_url,
                    already_pulled,
                    state: self.state,
                }
            },
            Err(error) => CheckResult::Error {
                name: self.name,
                image: self.image,
                reason: error.message(),
                state: self.state,
            },
        }
    }
}

/// What some [`CheckResult`] say.
pub open spec fn findings(results: Seq<CheckResult>) -> Seq<CheckResultView> {
    results.map_values(|result: CheckResult| result@)
}

/// What is found of an item where no registry can be asked for the reason `reason`.
pub open spec fn unchecked(info: ContainerInfoView, reason: Seq<char>) -> CheckResultView {
    CheckResultView::Error {
        name: info.display_name,
        image: info.image_ref,
        reason: "failed to create HTTP client: "@ + reason,
        state: info.state,
    }
}

/// The results where no registry can be asked at all.
pub fn client_failed(items: Vec<ContainerInfo>, error: &Error) -> (results: Vec<CheckResult>)
    ensures
        findings(results@) == infos(items@).map_values(
            |info: ContainerInfoView| unchecked(info, error@.message()),
        ),
{
    let reason = error.message();
    let mut results: Vec<CheckResult> = Vec::new();
    let mut i: usize = 0;
    while i < items.len()
        invariant
            i <= items.len(),
            reason@ == error@.message(),
            results.len() == i,
            forall|k: int| 0 <= k < i ==> (#[trigger] results@[k])@ == unchecked(items@[k]@, reason@),
        decreases items.len() - i,
    {
        let item = &items[i];
        results.push(
            CheckResult::Error {
                name: item.display_name.clone(),
                image: item.image_ref.clone(),
                reason: text::concat2("failed to create HTTP client: ", reason.as_str()),
                state: item.state,
            },
        );
        i += 1;
    }
    assert(findings(results@) =~= infos(items@).map_values(
        |info: ContainerInfoView| unchecked(info, error@.message()),
    ));
    results
}

/// Whether `result` is about the item `info`.
pub open spec fn is_about(result: CheckResultView, info: ContainerInfoView) -> bool {
    &&& result.name() == info.display_name
    &&& result.image() == info.image_ref
    &&& result.state() == info.state
}

/// Every result is about the item that was checked, whatever the registry said.
pub proof fn result_is_about_the_item(
    info: ContainerInfoView,
    remote: Result<Seq<char>, ErrorView>,
    stored: Set<Seq<char>>,
    reason: Seq<char>,
)
    ensures
        match first_check(info) {
            CheckView::Finished(result) => is_about(result, info),
            CheckView::AskRegistry(pending) => is_about(checked(pending, remote, stored), info),
        },
        is_about(unchecked(info, reason), info),
{
}

/// An update is reported if and only if the registry has a digest for the image and that digest
/// is not the local one.
pub proof fn update_means_different_digests(
    pending: PendingCheckView,
    remote: Result<Seq<char>, ErrorView>,
    stored: Set<Seq<char>>,
)
    ensures
        checked(pending, remote, stored) is UpdateAvailable <==> (remote matches Ok(digest)
            && digest != pending.local),
        checked(pending, remote, stored) is UpToDate <==> (remote matches Ok(digest) && digest
            == pending.local),
        checked(pending, remote, stored) is Error <==> remote is Err,
        checked(pending, remote, stored) !is LocalOnly,
{
}

/// An update counts as already pulled if and only if some image that is stored locally has the
/// digest that the registry has.
pub proof fn already_pulled_means_stored(
    pending: PendingCheckView,
    remote: Seq<char>,
    images: Seq<ImageSummary>,
)
    requires
        remote != pending.local,
    ensures
        checked(pending, Ok(remote), images::stored_digests(images))->already_pulled
            <==> exists|i: int|
            0 <= i < images.len() && images::has_digest(#[trigger] images[i], remote),
{
}

/// A container that was started by digest alone, or is known only by the id of its image, and whose image
/// has no name, is reported as known to no registry.
pub proof fn unresolved_digest_is_local_only(c: ContainerSummary, inspect: Option<ImageInspect>)
    requires
        c.image matches Some(image) && docker::is_digest_only(image@),
        c.image_id is Some,
        docker::image_name(inspect) is None,
    ensures
        docker::scan_first(c) matches ScanView::NeedsName(candidate) && docker::scan_after_name(
            candidate,
            inspect,
        ) matches ScanView::Found(info) && first_check(info) == CheckView::Finished(
            CheckResultView::LocalOnly {
                name: docker::container_name(c),
                image: c.image->0@,
                state: docker::container_state(c),
            },
        ),
{
    reveal_strlit("sha256:");
    assert(c.image->0@.len() > 0);
}

/// An item without a local digest is known to no registry, and that is the end of its check. Every
/// other item, in whatever state, is checked: its registry is asked for its image, and the answer
/// decides. The digest that is here means that it is up to date; any other digest is an update,
/// already pulled if an image with that digest is stored; and no digest is an error.
pub proof fn every_item_with_a_digest_is_checked(
    info: ContainerInfoView,
    remote: Result<Seq<char>, ErrorView>,
    stored: Set<Seq<char>>,
)
    ensures
        info.local_digest is None ==> first_check(info) == CheckView::Finished(
            (CheckResultView::LocalOnly {
                name: info.display_name,
                image: info.image_ref,
                state: info.state,
            }),
        ),
        info.local_digest matches Some(local) ==> (first_check(info) matches CheckView::AskRegistry(
            pending,
        ) && {
            &&& pending.name == info.display_name
            &&& pending.image == info.image_ref
            &&& pending.local == local
            &&& pending.state == info.state
            &&& checked(pending, remote, stored) == match remote {
                Ok(remote) => if remote == local {
                    (CheckResultView::UpToDate {
                        name: info.display_name,
                        image: info.image_ref,
                        state: info.state,
                    })
                } else {
                    (CheckResultView::UpdateAvailable {
                        name: info.display_name,
                        image: info.image_ref,
                        local,
                        remote,
                        info_url: registry::info_url(info.image_ref),
                        already_pulled: stored.contains(remote),
                        state: info.state,
                    })
                },
                Err(error) => (CheckResultView::Error {
                    name: info.display_name,
                    image: info.image_ref,
                    reason: error.message(),
                    state: info.state,
                }),
            }
        }),
{
}

/// An update is one that is already pulled if and only if some image that is stored, with whatever
/// tags, was pulled under the digest that the registry has: that digest stands in one of its
/// entries behind the first `@`.
pub proof fn pulled_image_makes_the_update_pulled(
    info: ContainerInfoView,
    local: Seq<char>,
    remote: Seq<char>,
    images: Seq<ImageSummary>,
    i: int,
    j: int,
    repo: Seq<char>,
)
    requires
        info.local_digest == Some(local),
        remote != local,
        0 <= i < images.len(),
        0 <= j < images[i].repo_digests@.len(),
        images[i].repo_digests@[j]@ == repo + seq!['@'] + remote,
        !repo.contains('@'),
        !remote.contains('@'),
    ensures
        first_check(info) matches CheckView::AskRegistry(pending) && checked(
            pending,
            Ok(remote),
            images::stored_digests(images),
        ) matches CheckResultView::UpdateAvailable { already_pulled, .. } && already_pulled,
{
    images::pulled_digest_is_stored(images, i, j, repo, remote);
}

/// Where no registry can be asked, the result for an item says so and why.
pub proof fn failed_client_is_told(info: ContainerInfoView, reason: Seq<char>)
    ensures
        unchecked(info, reason) == (CheckResultView::Error {
            name: info.display_name,
            image: info.image_ref,
            reason: "failed to create HTTP client: "@ + reason,
            state: info.state,
        }),
{
}

/// Each of some results is seen in its place.
pub proof fn findings_are_seen_in_their_places(results: Seq<CheckResult>, i: int)
    ensures
        findings(results).len() == results.len(),
        0 <= i < results.len() ==> findings(results)[i] == results[i]@,
{
}

/// A check is seen as it is: one that is over with its result, and one that waits with the item
/// that it is about.
pub proof fn check_is_seen_as_it_is(check: Check)
    ensures
        ({
            match (check, check@) {
                (Check::Finished(result), CheckView::Finished(seen)) => seen == result@,
                (Check::AskRegistry(pending), CheckView::AskRegistry(seen)) => seen == pending@
                    && seen.name == pending.name@ && seen.image == pending.image@ && seen.local
                    == pending.local@ && seen.state == pending.state,
                _ => false,
            }
        }),
{
}

} // verus!
