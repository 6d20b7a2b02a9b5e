//! What is checked, and what a check finds.

use vstd::prelude::*;

verus! {

/// How many images could be removed, and how many bytes they take up.
#[derive(Debug)]
pub struct PruneableInfo {
    pub dangling_count: usize,
    pub dangling_bytes: u64,
    pub unused_count: usize,
    pub unused_bytes: u64,
}

impl Default for PruneableInfo {
    fn default() -> (info: Self)
        ensures
            info == (PruneableInfo {
                dangling_count: 0,
                dangling_bytes: 0,
                unused_count: 0,
                unused_bytes: 0,
            }),
    {
        PruneableInfo { dangling_count: 0, dangling_bytes: 0, unused_count: 0, unused_bytes: 0 }
    }
}

/// What an item to check is.
#[derive(Debug, Clone, Copy, PartialEq, Eq, Structural)]
pub enum ItemState {
    /// A running container.
    Running,
    /// A container that does not run.
    Stopped,
    /// A locally stored image without any associated container.
    Image,
}

/// An item to check: a container, or an image that no container uses.
#[derive(Debug)]
pub struct ContainerInfo {
    /// The container's name, or the image reference of an image without a container.
    pub display_name: String,
    pub image_ref: String,
    pub local_digest: Option<String>,
    pub state: ItemState,
}

/// What a [`ContainerInfo`] says.
pub struct ContainerInfoView {
    pub display_name: Seq<char>,
    pub image_ref: Seq<char>,
    pub local_digest: Option<Seq<char>>,
    pub state: ItemState,
}

impl View for ContainerInfo {
    type V = ContainerInfoView;

    open spec fn view(&self) -> ContainerInfoView {
        ContainerInfoView {
            display_name: self.display_name@,
            image_ref: self.image_ref@,
            local_digest: opt_text(self.local_digest),
            state: self.state,
        }
    }
}

impl Clone for ContainerInfo {
    fn clone(&self) -> (copy: Self)
        ensures
            copy@ == self@,
    {
        ContainerInfo {
            display_name: self.display_name.clone(),
            image_ref: self.image_ref.clone(),
            local_digest: match &self.local_digest {
                Some(digest) => Some(digest.clone()),
                None => None,
            },
            state: self.state,
        }
    }
}

/// The text that `s` holds, if any.
pub open spec fn opt_text(s: Option<String>) -> Option<Seq<char>> {
    match s {
        Some(text) => Some(text@),
        None => None,
    }
}

/// The texts that `names` holds.
pub open spec fn texts(names: Seq<String>) -> Seq<Seq<char>> {
    names.map_values(|name: String| name@)
}

/// What the check of one item found.
#[derive(Debug)]
pub enum CheckResult {
    /// The registry has the image that is here.
    UpToDate { name: String, image: String, state: ItemState },
    /// The registry has another image.
    UpdateAvailable {
        name: String,
        image: String,
        local: String,
        remote: String,
        info_url: String,
        already_pulled: bool,
        state: ItemState,
    },
    /// No registry knows the image.
    LocalOnly { name: String, image: String, state: ItemState },
    /// The registry could not be asked, or did not say.
    Error { name: String, image: String, reason: String, state: ItemState },
}

/// What a [`CheckResult`] says.
pub enum CheckResultView {
    UpToDate { name: Seq<char>, image: Seq<char>, state: ItemState },
    UpdateAvailable {
        name: Seq<char>,
        image: Seq<char>,
        local: Seq<char>,
        remote: Seq<char>,
        info_url: Seq<char>,
        already_pulled: bool,
        state: ItemState,
    },
    LocalOnly { name: Seq<char>, image: Seq<char>, state: ItemState },
    Error { name: Seq<char>, image: Seq<char>, reason: Seq<char>, state: ItemState },
}

impl View for CheckResult {
    type V = CheckResultView;

    open spec fn view(&self) -> CheckResultView {
        match self {
            CheckResult::UpToDate { name, image, state } => CheckResultView::UpToDate {
                name: name@,
                image: image@,
                state: *state,
            },
            CheckResult::UpdateAvailable {
                name,
                image,
                local,
                remote,
                info_url,
                already_pulled,
                state,
            } => CheckResultView::UpdateAvailable {
                name: name@,
                image: image@,
                local: local@,
                remote: remote@,
                info_url: info_url@,
                already_pulled: *already_pulled,
                state: *state,
            },
            CheckResult::LocalOnly { name, image, state } => CheckResultView::LocalOnly {
                name: name@,
                image: image@,
                state: *state,
            },
            CheckResult::Error { name, image, reason, state } => CheckResultView::Error {
                name: name@,
                image: image@,
                reason: reason@,
                state: *state,
            },
        }
    }
}

impl CheckResultView {
    /// The name of the item that was checked.
    pub open spec fn name(self) -> Seq<char> {
        match self {
            CheckResultView::UpToDate { name, .. } => name,
            CheckResultView::UpdateAvailable { name, .. } => name,
            CheckResultView::LocalOnly { name, .. } => name,
            CheckResultView::Error { name, .. } => name,
        }
    }

    /// The image of the item that was checked.
    pub open spec fn image(self) -> Seq<char> {
        match self {
            CheckResultView::UpToDate { image, .. } => image,
            CheckResultView::UpdateAvailable { image, .. } => image,
            CheckResultView::LocalOnly { image, .. } => image,
            CheckResultView::Error { image, .. } => image,
        }
    }

    /// What the item that was checked is.
    pub open spec fn state(self) -> ItemState {
        match self {
            CheckResultView::UpToDate { state, .. } => state,
            CheckResultView::UpdateAvailable { state, .. } => state,
            CheckResultView::LocalOnly { state, .. } => state,
            CheckResultView::Error { state, .. } => state,
        }
    }
}

impl CheckResult {
    /// The name by which results are put in order.
    pub fn sort_key(&self) -> (key: &str)
        ensures
            key@ == self@.name(),
    {
        match self {
            Self::UpToDate { name, .. } => name.as_str(),
            Self::UpdateAvailable { name, .. } => name.as_str(),
            Self::LocalOnly { name, .. } => name.as_str(),
            Self::Error { name, .. } => name.as_str(),
        }
    }
}

/// A text that is there is seen, and one that is not is not.
pub proof fn optional_text_is_seen_as_it_is(s: Option<String>)
    ensures
        opt_text(s) is Some <==> s is Some,
        s matches Some(text) ==> opt_text(s) == Some(text@),
{
}

/// Each of some texts is seen in its place.
pub proof fn texts_are_seen_in_their_places(names: Seq<String>, i: int)
    ensures
        texts(names).len() == names.len(),
        0 <= i < names.len() ==> texts(names)[i] == names[i]@,
{
}

/// An item is seen with its own name, image, digest and state.
pub proof fn item_is_seen_as_it_is(info: ContainerInfo)
    ensures
        info@.display_name == info.display_name@,
        info@.image_ref == info.image_ref@,
        info@.state == info.state,
        info.local_digest matches Some(digest) ==> info@.local_digest == Some(digest@),
        info.local_digest is None ==> info@.local_digest is None,
{
}

/// A result is seen as one of its own kind, with what it says, and goes by the name, the image and
/// the state that it says.
pub proof fn result_is_seen_as_it_is(result: CheckResult)
    ensures
        ({
            match (result, result@) {
                (
                    CheckResult::UpToDate { name, image, state },
                    CheckResultView::UpToDate { name: n, image: i, state: s },
                ) => n == name@ && i == image@ && s == state && result@.name() == name@
                    && result@.image() == image@ && result@.state() == state,
                (
                    CheckResult::UpdateAvailable {
                        name,
                        image,
                        local,
                        remote,
                        info_url,
                        already_pulled,
                        state,
                    },
                    CheckResultView::UpdateAvailable {
                        name: n,
                        image: i,
                        local: l,
                        remote: r,
                        info_url: u,
                        already_pulled: a,
                        state: s,
                    },
                ) => {
                    &&& n == name@ && i == image@ && l == local@ && r == remote@ && u == info_url@
                    &&& a == already_pulled && s == state && result@.name() == name@
                    &&& result@.image() == image@ && result@.state() == state
                },
                (
                    CheckResult::LocalOnly { name, image, state },
                    CheckResultView::LocalOnly { name: n, image: i, state: s },
                ) => n == name@ && i == image@ && s == state && result@.name() == name@
                    && result@.image() == image@ && result@.state() == state,
                (
                    CheckResult::Error { name, image, reason, state },
                    CheckResultView::Error { name: n, image: i, reason: r, state: s },
                ) => n == name@ && i == image@ && r == reason@ && s == state && result@.name()
                    == name@ && result@.image() == image@ && result@.state() == state,
                _ => false,
            }
        }),
{
}

} // verus!
