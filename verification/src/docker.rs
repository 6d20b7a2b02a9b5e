//! What the Docker daemon says of containers and images, and what follows from it.

use vstd::prelude::*;
use vstd::string::*;

use crate::registry;
use crate::text;
use crate::types::{opt_text, texts, ContainerInfo, ContainerInfoView, ItemState};

verus! {

/// A container, as the daemon lists it.
pub struct ContainerSummary {
    pub id: Option<String>,
    pub names: Option<Vec<String>>,
    pub image: Option<String>,
    pub image_id: Option<String>,
    pub state: Option<String>,
}

/// An image, as the daemon lists it.
pub struct ImageSummary {
    pub id: String,
    pub repo_tags: Vec<String>,
    pub repo_digests: Vec<String>,
    pub size: i64,
}

/// An image, as the daemon describes it.
pub struct ImageInspect {
    pub repo_tags: Option<Vec<String>>,
    pub repo_digests: Option<Vec<String>>,
}

/// The repository in an image reference: what stands before its digest and its first colon.
pub open spec fn repo_name(image_ref: Seq<char>) -> Seq<char> {
    text::before(text::before(image_ref, '@'), ':')
}

/// A repository in full: without the hub's address, and with the owner of official images.
pub open spec fn normalized_repo(repo: Seq<char>) -> Seq<char> {
    let path = text::without_leading(repo, "docker.io/"@);
    if path.contains('/') {
        path
    } else {
        "library/"@ + path
    }
}

/// The repository in an image reference.
pub fn image_ref_to_repo_name(image_ref: &str) -> (name: String)
    ensures
        name@ == repo_name(image_ref@),
{
    text::text_before(text::text_before(image_ref, '@'), ':').to_string()
}

/// A repository in full.
pub fn normalize_repo(repo: &str) -> (full: String)
    ensures
        full@ == normalized_repo(repo@),
{
    let path = text::strip_leading(repo, "docker.io/");
    if text::has_char(path, '/') {
        path.to_string()
    } else {
        text::concat2("library/", path)
    }
}

/// The socket at which the daemon listens, by the value of `DOCKER_HOST`.
pub open spec fn socket_of(docker_host: Option<Seq<char>>) -> Seq<char> {
    match docker_host {
        Some(host) => if "unix://"@.is_prefix_of(host) {
            host.skip("unix://"@.len() as int)
        } else {
            "/var/run/docker.sock"@
        },
        None => "/var/run/docker.sock"@,
    }
}

/// The socket at which the daemon listens, by the value of `DOCKER_HOST`.
pub fn socket_path(docker_host: Option<String>) -> (path: String)
    ensures
        path@ == socket_of(opt_text(docker_host)),
{
    if let Some(host) = docker_host {
        let host = host.as_str();
        if text::starts_with(host, "unix://") {
            let prefix_len = "unix://".unicode_len();
            let len = host.unicode_len();
            let path = host.substring_char(prefix_len, len);
            assert(path@ =~= host@.skip(prefix_len as int));
            return path.to_string();
        }
    }
    "/var/run/docker.sock".to_string()
}

/// Whether the daemon can be asked: a socket that exists has to take the connection that was tried.
/// Where there is no socket, no connection was tried, and the daemon may listen elsewhere.
pub fn socket_usable(connected: Option<bool>) -> (usable: bool)
    ensures
        usable <==> connected != Some(false),
{
    match connected {
        Some(connected) => connected,
        None => true,
    }
}

/// An image id without the name of the hash.
pub open spec fn bare_id(id: Seq<char>) -> Seq<char> {
    text::without_leading(id, "sha256:"@)
}

/// Whether a tag is one that somebody gave.
pub open spec fn is_real_tag(tag: Seq<char>) -> bool {
    !text::occurs(tag, "<none>"@)
}

/// The first of `tags` that somebody gave.
pub open spec fn first_real_tag(tags: Seq<Seq<char>>) -> Option<Seq<char>>
    decreases tags.len(),
{
    if tags.len() == 0 {
        None
    } else if is_real_tag(tags[0]) {
        Some(tags[0])
    } else {
        first_real_tag(tags.skip(1))
    }
}

/// The first of `tags` that somebody gave.
pub(crate) fn find_real_tag(tags: &Vec<String>) -> (tag: Option<String>)
    ensures
        opt_text(tag) == first_real_tag(texts(tags@)),
{
    let mut i: usize = 0;
    assert(texts(tags@).skip(0) =~= texts(tags@));
    while i < tags.len()
        invariant
            i <= tags.len(),
            first_real_tag(texts(tags@)) == first_real_tag(texts(tags@).skip(i as int)),
        decreases tags.len() - i,
    {
        if !text::has_text(tags[i].as_str(), "<none>") {
            return Some(tags[i].clone());
        }
        assert(texts(tags@).skip(i as int).skip(1) =~= texts(tags@).skip(i + 1));
        i += 1;
    }
    None
}

/// A name for the image that `inspect` describes: a tag that somebody gave, or else the latest
/// image of the repository of its first digest.
pub open spec fn image_name(inspect: Option<ImageInspect>) -> Option<Seq<char>> {
    match inspect {
        None => None,
        Some(inspect) => {
            let tag = match inspect.repo_tags {
                Some(tags) => first_real_tag(texts(tags@)),
                None => None,
            };
            match (tag, inspect.repo_digests) {
                (Some(tag), _) => Some(tag),
                (None, Some(digests)) => if digests@.len() > 0 {
                    Some(text::before(digests@[0]@, '@') + ":latest"@)
                } else {
                    None
                },
                (None, None) => None,
            }
        },
    }
}

/// A name for the image that `inspect` describes; without a description there is none.
pub fn resolve_image_name(inspect: Option<ImageInspect>) -> (name: Option<String>)
    ensures
        opt_text(name) == image_name(inspect),
{
    let inspect = match inspect {
        Some(inspect) => inspect,
        None => {
            return None;
        },
    };
    if let Some(tags) = &inspect.repo_tags {
        if let Some(tag) = find_real_tag(tags) {
            return Some(tag);
        }
    }
    if let Some(digests) = &inspect.repo_digests {
        if digests.len() > 0 {
            let name = text::text_before(digests[0].as_str(), '@');
            return Some(text::concat2(name, ":latest"));
        }
    }
    None
}

/// The first of `digests` that belongs to the repository `repo`.
pub open spec fn digest_of_repo(digests: Seq<Seq<char>>, repo: Seq<char>) -> Option<Seq<char>>
    decreases digests.len(),
{
    if digests.len() == 0 {
        None
    } else if normalized_repo(text::before(digests[0], '@')) == normalized_repo(repo) {
        Some(digests[0])
    } else {
        digest_of_repo(digests.skip(1), repo)
    }
}

/// The digest under which the image that `inspect` describes was pulled as `image_ref`: that of
/// its repository, or else the first.
pub open spec fn pulled_digest(
    inspect: Option<ImageInspect>,
    image_ref: Seq<char>,
) -> Option<Seq<char>> {
    match inspect {
        Some(ImageInspect { repo_digests: Some(digests), .. }) => {
            let all = texts(digests@);
            match digest_of_repo(all, repo_name(image_ref)) {
                Some(entry) => text::second_field(entry, '@'),
                None => if all.len() > 0 {
                    text::second_field(all[0], '@')
                } else {
                    None
                },
            }
        },
        _ => None,
    }
}

/// The first of `digests` that belongs to the repository `repo`.
fn find_repo_digest<'a>(digests: &'a Vec<String>, repo: &str) -> (entry: Option<&'a String>)
    ensures
        match entry {
            Some(entry) => digest_of_repo(texts(digests@), repo@) == Some(entry@),
            None => digest_of_repo(texts(digests@), repo@) is None,
        },
{
    let wanted = normalize_repo(repo);
    let ghost all = texts(digests@);
    let mut i: usize = 0;
    assert(all.skip(0) =~= all);
    while i < digests.len()
        invariant
            all == texts(digests@),
            i <= digests.len(),
            wanted@ == normalized_repo(repo@),
            digest_of_repo(all, repo@) == digest_of_repo(all.skip(i as int), repo@),
        decreases digests.len() - i,
    {
        let name = normalize_repo(text::text_before(digests[i].as_str(), '@'));
        assert(all.skip(i as int)[0] == digests@[i as int]@);
        if text::same_text(name.as_str(), wanted.as_str()) {
            return Some(&digests[i]);
        }
        assert(all.skip(i as int).skip(1) =~= all.skip(i + 1));
        i += 1;
    }
    None
}

/// The digest under which the image that `inspect` describes was pulled as `image_ref`.
pub fn get_local_digest(inspect: Option<ImageInspect>, image_ref: &str) -> (digest: Option<String>)
    ensures
        opt_text(digest) == pulled_digest(inspect, image_ref@),
{
    let digests = match inspect {
        Some(inspect) => match inspect.repo_digests {
            Some(digests) => digests,
            None => {
                return None;
            },
        },
        None => {
            return None;
        },
    };
    let repo = image_ref_to_repo_name(image_ref);
    let entry = match find_repo_digest(&digests, repo.as_str()) {
        Some(entry) => entry,
        None => if digests.len() > 0 {
            &digests[0]
        } else {
            return None;
        },
    };
    match text::text_second_field(entry.as_str(), '@') {
        Some(digest) => Some(digest.to_string()),
        None => None,
    }
}

/// A container that is listed, while it is found out which image it runs.
pub struct Candidate {
    pub display_name: String,
    pub state: ItemState,
    pub image_ref: String,
    pub image_id: String,
}

/// What a [`Candidate`] says.
pub struct CandidateView {
    pub display_name: Seq<char>,
    pub state: ItemState,
    pub image_ref: Seq<char>,
    pub image_id: Seq<char>,
}

impl View for Candidate {
    type V = CandidateView;

    open spec fn view(&self) -> CandidateView {
        CandidateView {
            display_name: self.display_name@,
            state: self.state,
            image_ref: self.image_ref@,
            image_id: self.image_id@,
        }
    }
}

/// How far the examination of a container has come.
pub enum Scan {
    /// The container runs no image that is known, and is passed over.
    Skipped,
    /// A description of the image is needed, to find a name for it.
    NeedsName(Candidate),
    /// A description of the image is needed, to find its digest.
    NeedsDigest(Candidate),
    /// The container can be checked.
    Found(ContainerInfo),
}

/// What a [`Scan`] says.
pub enum ScanView {
    Skipped,
    NeedsName(CandidateView),
    NeedsDigest(CandidateView),
    Found(ContainerInfoView),
}

impl View for Scan {
    type V = ScanView;

    open spec fn view(&self) -> ScanView {
        match self {
            Scan::Skipped => ScanView::Skipped,
            Scan::NeedsName(candidate) => ScanView::NeedsName(candidate@),
            Scan::NeedsDigest(candidate) => ScanView::NeedsDigest(candidate@),
            Scan::Found(info) => ScanView::Found(info@),
        }
    }
}

/// Whether an image reference is only the id of an image.
pub open spec fn is_bare_digest(image_ref: Seq<char>) -> bool {
    "sha256:"@.is_prefix_of(image_ref)
}

/// Whether an image reference gives only the id of an image, or a digest without a tag, so that
/// a tag has to be found for it.
pub open spec fn is_digest_only(image_ref: Seq<char>) -> bool {
    is_bare_digest(image_ref) || (image_ref.contains('@') && !registry::has_tag(
        text::before(image_ref, '@'),
    ))
}

/// The name of a container: the first one it has, without slashes in front, or else its id.
pub open spec fn container_name(c: ContainerSummary) -> Seq<char> {
    match c.names {
        Some(names) => if names@.len() > 0 {
            text::without_leading(names@[0]@, "/"@)
        } else {
            container_id(c)
        },
        None => container_id(c),
    }
}

/// The id of a container, or nothing.
pub open spec fn container_id(c: ContainerSummary) -> Seq<char> {
    match c.id {
        Some(id) => id@,
        None => Seq::empty(),
    }
}

/// Whether a container runs.
pub open spec fn container_state(c: ContainerSummary) -> ItemState {
    if opt_text(c.state) == Some("running"@) {
        ItemState::Running
    } else {
        ItemState::Stopped
    }
}

/// A candidate whose image has the name `image_ref` and no digest.
pub open spec fn found_without_digest(candidate: CandidateView, image_ref: Seq<char>) -> ScanView {
    ScanView::Found(
        ContainerInfoView {
            display_name: candidate.display_name,
            image_ref,
            local_digest: None,
            state: candidate.state,
        },
    )
}

/// What is needed first for a container that is listed.
pub open spec fn scan_first(c: ContainerSummary) -> ScanView {
    match (c.image, c.image_id) {
        (Some(image), Some(image_id)) => if image@.len() == 0 {
            ScanView::Skipped
        } else {
            let candidate = CandidateView {
                display_name: container_name(c),
                state: container_state(c),
                image_ref: image@,
                image_id: image_id@,
            };
            if is_digest_only(image@) {
                ScanView::NeedsName(candidate)
            } else {
                ScanView::NeedsDigest(candidate)
            }
        },
        _ => ScanView::Skipped,
    }
}

/// What is needed next for a candidate whose image `inspect` describes. Without a name the image
/// keeps its reference, and has no digest.
pub open spec fn scan_after_name(
    candidate: CandidateView,
    inspect: Option<ImageInspect>,
) -> ScanView {
    match image_name(inspect) {
        None => found_without_digest(candidate, candidate.image_ref),
        Some(name) => if is_bare_digest(name) {
            found_without_digest(candidate, name)
        } else {
            ScanView::NeedsDigest(CandidateView { image_ref: name, ..candidate })
        },
    }
}

/// What is known of a candidate whose image `inspect` describes.
pub open spec fn scan_after_digest(
    candidate: CandidateView,
    inspect: Option<ImageInspect>,
) -> ContainerInfoView {
    ContainerInfoView {
        display_name: candidate.display_name,
        image_ref: candidate.image_ref,
        local_digest: pulled_digest(inspect, candidate.image_ref),
        state: candidate.state,
    }
}

/// The name of a container.
fn name_of(c: &ContainerSummary) -> (name: String)
    ensures
        name@ == container_name(*c),
{
    if let Some(names) = &c.names {
        if names.len() > 0 {
            return text::strip_leading(names[0].as_str(), "/").to_string();
        }
    }
    match &c.id {
        Some(id) => id.clone(),
        None => String::new(),
    }
}

/// Whether a container runs.
fn state_of(c: &ContainerSummary) -> (state: ItemState)
    ensures
        state == container_state(*c),
{
    match &c.state {
        Some(state) => if text::same_text(state.as_str(), "running") {
            ItemState::Running
        } else {
            ItemState::Stopped
        },
        None => ItemState::Stopped,
    }
}

/// Whether an image reference gives only the id of an image, or a digest without a tag.
fn digest_only(image_ref: &str) -> (only: bool)
    ensures
        only == is_digest_only(image_ref@),
{
    text::starts_with(image_ref, "sha256:") || (text::has_char(image_ref, '@')
        && !registry::is_tagged(text::text_before(image_ref, '@')))
}

/// Begins the examination of a container that is listed.
pub fn scan_container(c: ContainerSummary) -> (scan: Scan)
    ensures
        scan@ == scan_first(c),
{
    let display_name = name_of(&c);
    let state = state_of(&c);
    let image_ref = match c.image {
        Some(image) => image,
        None => {
            return Scan::Skipped;
        },
    };
    let image_id = match c.image_id {
        Some(id) => id,
        None => {
            return Scan::Skipped;
        },
    };
    if image_ref.as_str().is_empty() {
        return Scan::Skipped;
    }
    let needs_name = digest_only(image_ref.as_str());
    let candidate = Candidate { display_name, state, image_ref, image_id };
    if needs_name {
        Scan::NeedsName(candidate)
    } else {
        Scan::NeedsDigest(candidate)
    }
}

impl Candidate {
    /// The id under which the daemon describes the image.
    pub fn inspect_id(&self) -> (id: String)
        ensures
            id@ == bare_id(self@.image_id),
    {
        text::strip_leading(self.image_id.as_str(), "sha256:").to_string()
    }

    /// Goes on with the description of the image, from which the image gets its name. Without
    /// a name the image keeps its reference, and has no digest.
    pub fn resolved(self, inspect: Option<ImageInspect>) -> (scan: Scan)
        ensures
            scan@ == scan_after_name(self@, inspect),
    {
        let image_ref = match resolve_image_name(inspect) {
            Some(name) => if text::starts_with(name.as_str(), "sha256:") {
                name
            } else {
                return Scan::NeedsDigest(
                    Candidate {
                        display_name: self.display_name,
                        state: self.state,
                        image_ref: name,
                        image_id: self.image_id,
                    },
                );
            },
            None => self.image_ref,
        };
        Scan::Found(
            ContainerInfo {
                display_name: self.display_name,
                image_ref,
                local_digest: None,
                state: self.state,
            },
        )
    }

    /// Ends with the description of the image, from which its digest is taken.
    pub fn completed(self, inspect: Option<ImageInspect>) -> (info: ContainerInfo)
        ensures
            info@ == scan_after_digest(self@, inspect),
    {
        let local_digest = get_local_digest(inspect, self.image_ref.as_str());
        ContainerInfo {
            display_name: self.display_name,
            image_ref: self.image_ref,
            local_digest,
            state: self.state,
        }
    }
}

/// What is left after all repetitions of `part` are removed at the start does not start with it.
proof fn nothing_leading_left(s: Seq<char>, part: Seq<char>)
    requires
        part.len() > 0,
    ensures
        !part.is_prefix_of(text::without_leading(s, part)),
    decreases s.len(),
{
    if part.is_prefix_of(s) {
        nothing_leading_left(s.skip(part.len() as int), part);
    }
}

/// A repository in full stays as it is, and is the same with the hub's address in front. It names
/// an owner, and never the hub.
pub proof fn full_repo_is_final(repo: Seq<char>)
    ensures
        normalized_repo(normalized_repo(repo)) == normalized_repo(repo),
        normalized_repo("docker.io/"@ + repo) == normalized_repo(repo),
        normalized_repo(repo).contains('/'),
        !"docker.io/"@.is_prefix_of(normalized_repo(repo)),
{
    reveal_strlit("docker.io/");
    reveal_strlit("library/");
    let part = "docker.io/"@;
    let path = text::without_leading(repo, part);
    nothing_leading_left(repo, part);
    let full = "library/"@ + path;
    assert(full[7] == '/');
    assert(full[0] == 'l');
    assert(full.len() >= part.len() ==> full.subrange(0, part.len() as int)[0] != part[0]);
    let longer = part + repo;
    assert(longer.subrange(0, part.len() as int) =~= part);
    assert(longer.skip(part.len() as int) =~= repo);
}

/// The image of a container is described at most twice: once for its name, and once for its digest.
pub proof fn scan_comes_to_an_end(
    c: ContainerSummary,
    candidate: CandidateView,
    inspect: Option<ImageInspect>,
)
    ensures
        scan_first(c) !is Found,
        scan_after_name(candidate, inspect) is NeedsDigest || scan_after_name(
            candidate,
            inspect,
        ) is Found,
{
}

/// A container keeps its name and state through its examination, and whatever is found without
/// a description for its digest has none.
pub proof fn scan_keeps_the_container(candidate: CandidateView, inspect: Option<ImageInspect>)
    ensures
        match scan_after_name(candidate, inspect) {
            ScanView::Found(info) => info.display_name == candidate.display_name && info.state
                == candidate.state && info.local_digest is None,
            ScanView::NeedsDigest(next) => next.display_name == candidate.display_name && next.state
                == candidate.state && next.image_id == candidate.image_id,
            _ => false,
        },
        scan_after_digest(candidate, inspect).display_name == candidate.display_name,
        scan_after_digest(candidate, inspect).image_ref == candidate.image_ref,
        scan_after_digest(candidate, inspect).state == candidate.state,
{
}

/// An image that was pulled once, as `repo@digest`, has that digest, whatever it is called now.
pub proof fn only_digest_is_the_digest(
    inspect: ImageInspect,
    image_ref: Seq<char>,
    repo: Seq<char>,
    digest: Seq<char>,
)
    requires
        !repo.contains('@'),
        !digest.contains('@'),
        inspect.repo_digests matches Some(digests) && texts(digests@) == seq![
            repo + seq!['@'] + digest,
        ],
    ensures
        pulled_digest(Some(inspect), image_ref) == Some(digest),
{
    let entry = repo + seq!['@'] + digest;
    let all = seq![entry];
    assert forall|j: int| 0 <= j < repo.len() implies entry[j] != '@' by {
        assert(entry[j] == repo[j]);
    }
    text::first_position(entry, '@', repo.len() as int);
    assert(entry.skip(repo.len() as int + 1) =~= digest);
    text::no_position(digest, '@');
    assert(text::second_field(entry, '@') == Some(digest));
    assert(all.skip(1) =~= Seq::empty());
    assert(digest_of_repo(all.skip(1), repo_name(image_ref)) is None);
    assert(digest_of_repo(all, repo_name(image_ref)) is None || digest_of_repo(
        all,
        repo_name(image_ref),
    ) == Some(entry));
}

/// A container that was started with a tag keeps it, also where it was started with a digest
/// besides.
pub proof fn tag_of_the_container_is_kept(c: ContainerSummary)
    requires
        c.image matches Some(image) && image@.len() > 0 && !is_bare_digest(image@)
            && registry::has_tag(text::before(image@, '@')),
        c.image_id is Some,
    ensures
        scan_first(c) matches ScanView::NeedsDigest(candidate) && candidate.image_ref
            == c.image->0@,
{
}

/// A container that was started by digest alone, and whose image was pulled once, as `repo@digest`,
/// and has no tag, counts as one of the latest image of that repository with that digest.
pub proof fn digest_reference_gets_a_tag(
    c: ContainerSummary,
    inspect: ImageInspect,
    repo: Seq<char>,
    digest: Seq<char>,
)
    requires
        c.image matches Some(image) && is_digest_only(image@),
        c.image_id is Some,
        inspect.repo_tags matches Some(tags) ==> first_real_tag(texts(tags@)) is None,
        inspect.repo_digests matches Some(digests) && texts(digests@) == seq![
            repo + seq!['@'] + digest,
        ],
        !repo.contains('@'),
        !digest.contains('@'),
        !is_bare_digest(repo + ":latest"@),
    ensures
        scan_first(c) matches ScanView::NeedsName(first) && scan_after_name(first, Some(inspect)) matches
            ScanView::NeedsDigest(second) && scan_after_digest(second, Some(inspect)) == (
        ContainerInfoView {
            display_name: container_name(c),
            image_ref: repo + ":latest"@,
            local_digest: Some(digest),
            state: container_state(c),
        }),
{
    reveal_strlit("sha256:");
    let entry = repo + seq!['@'] + digest;
    assert(c.image->0@.len() > 0);
    assert(texts(inspect.repo_digests->0@)[0] == entry);
    assert forall|j: int| 0 <= j < repo.len() implies entry[j] != '@' by {
        assert(entry[j] == repo[j]);
    }
    text::first_position(entry, '@', repo.len() as int);
    assert(entry.take(repo.len() as int) =~= repo);
    only_digest_is_the_digest(inspect, repo + ":latest"@, repo, digest);
}

/// The first tag that is not `<none>` is the one with nothing but `<none>` before it; where all
/// are `<none>`, there is none.
pub proof fn first_real_tag_is_the_first(tags: Seq<Seq<char>>, k: int)
    ensures
        (forall|j: int| 0 <= j < tags.len() ==> text::occurs(#[trigger] tags[j], "<none>"@))
            ==> first_real_tag(tags) is None,
        0 <= k < tags.len() && !text::occurs(tags[k], "<none>"@) && (forall|j: int|
            0 <= j < k ==> text::occurs(#[trigger] tags[j], "<none>"@)) ==> first_real_tag(tags)
            == Some(tags[k]),
    decreases tags.len(),
{
    if tags.len() > 0 {
        let rest = tags.skip(1);
        first_real_tag_is_the_first(rest, k - 1);
        assert forall|j: int| 0 <= j < rest.len() implies #[trigger] rest[j] == tags[j + 1] by {}
        if k == 0 {
            assert(is_real_tag(tags[0]) <==> !text::occurs(tags[0], "<none>"@));
        }
    }
}

/// The repository of `repo`, `repo:tag`, `repo@digest` and `repo:tag@digest` is `repo`.
pub proof fn repository_stands_before_tag_and_digest(
    repo: Seq<char>,
    tag: Seq<char>,
    digest: Seq<char>,
)
    requires
        !repo.contains(':') && !repo.contains('@'),
        !tag.contains('@'),
    ensures
        repo_name(repo) == repo,
        repo_name(repo + seq![':'] + tag) == repo,
        repo_name(repo + seq!['@'] + digest) == repo,
        repo_name(repo + seq![':'] + tag + seq!['@'] + digest) == repo,
{
    let tagged = repo + seq![':'] + tag;
    assert(!tagged.contains('@')) by {
        if tagged.contains('@') {
            let j = choose|j: int| 0 <= j < tagged.len() && tagged[j] == '@';
            if j < repo.len() {
                assert(repo[j] == '@');
            } else {
                assert(tag[j - repo.len() - 1] == '@');
            }
        }
    }
    text::text_divides_at_the_first(repo, '@', digest);
    text::text_divides_at_the_first(tagged, '@', digest);
    text::text_divides_at_the_first(repo, ':', tag);
}

/// A repository without an owner is one of the owner `library`, and every other one that does not
/// name the hub is in full already.
pub proof fn owner_is_added_where_none_is(repo: Seq<char>)
    requires
        !"docker.io/"@.is_prefix_of(repo),
    ensures
        !repo.contains('/') ==> normalized_repo(repo) == "library/"@ + repo,
        repo.contains('/') ==> normalized_repo(repo) == repo,
{
    reveal_strlit("docker.io/");
    text::leading_parts_are_removed(repo, "docker.io/"@);
}

/// The daemon listens where `DOCKER_HOST` says, if that is a Unix socket, and else at the usual
/// place.
pub proof fn daemon_listens_at_its_socket(path: Seq<char>, host: Seq<char>)
    requires
        !"unix://"@.is_prefix_of(host),
    ensures
        socket_of(Some("unix://"@ + path)) == path,
        socket_of(Some(host)) == "/var/run/docker.sock"@,
        socket_of(None) == "/var/run/docker.sock"@,
{
    let full = "unix://"@ + path;
    assert(full.subrange(0, "unix://"@.len() as int) =~= "unix://"@);
    assert(full.skip("unix://"@.len() as int) =~= path);
}

/// An image has the same id with the name of the hash in front as without it, and otherwise its id
/// stays as it is.
pub proof fn hash_name_is_no_part_of_the_id(id: Seq<char>)
    ensures
        bare_id("sha256:"@ + id) == bare_id(id),
        !"sha256:"@.is_prefix_of(id) ==> bare_id(id) == id,
{
    reveal_strlit("sha256:");
    text::leading_parts_are_removed(id, "sha256:"@);
}

/// An image is called by the first tag that is not `<none>`; without one, by the latest image of
/// the repository that its first digest names; and without either it has no name.
pub proof fn image_is_called_by_its_tag(inspect: ImageInspect, k: int)
    ensures
        image_name(None) is None,
        inspect.repo_tags matches Some(tags) ==> (0 <= k < tags@.len() && !text::occurs(
            tags@[k]@,
            "<none>"@,
        ) && (forall|j: int| 0 <= j < k ==> text::occurs(#[trigger] tags@[j]@, "<none>"@))
            ==> image_name(Some(inspect)) == Some(tags@[k]@)),
        (inspect.repo_tags matches Some(tags) ==> forall|j: int|
            0 <= j < tags@.len() ==> text::occurs(#[trigger] tags@[j]@, "<none>"@)) ==> (
        match inspect.repo_digests {
            Some(digests) => if digests@.len() > 0 {
                image_name(Some(inspect)) == Some(
                    text::before(digests@[0]@, '@') + ":latest"@,
                )
            } else {
                image_name(Some(inspect)) is None
            },
            None => image_name(Some(inspect)) is None,
        }),
{
    if let Some(tags) = inspect.repo_tags {
        let all = texts(tags@);
        first_real_tag_is_the_first(all, k);
        assert forall|j: int| 0 <= j < all.len() implies #[trigger] all[j] == tags@[j]@ by {}
    }
}

/// The entry of a repository is the first one whose repository is the same in full.
proof fn entry_of_a_repository_is_the_first(
    digests: Seq<Seq<char>>,
    repo: Seq<char>,
    k: int,
)
    ensures
        (forall|j: int|
            0 <= j < digests.len() ==> normalized_repo(
                text::before(#[trigger] digests[j], '@'),
            ) != normalized_repo(repo)) ==> digest_of_repo(digests, repo) is None,
        0 <= k < digests.len() && normalized_repo(text::before(digests[k], '@'))
            == normalized_repo(repo) && (forall|j: int|
            0 <= j < k ==> normalized_repo(text::before(#[trigger] digests[j], '@'))
                != normalized_repo(repo)) ==> digest_of_repo(digests, repo) == Some(digests[k]),
    decreases digests.len(),
{
    if digests.len() > 0 {
        let rest = digests.skip(1);
        entry_of_a_repository_is_the_first(rest, repo, k - 1);
        assert forall|j: int| 0 <= j < rest.len() implies #[trigger] rest[j] == digests[j + 1] by {}
    }
}

/// The digest of an image is the one under which it was pulled from the repository of its
/// reference, the first of several; where it was not pulled from there, it is the first of all.
/// A digest stands in an entry behind the first `@`.
pub proof fn digest_is_that_of_the_repository(
    inspect: ImageInspect,
    image_ref: Seq<char>,
    k: int,
)
    ensures
        pulled_digest(None, image_ref) is None,
        inspect.repo_digests is None ==> pulled_digest(Some(inspect), image_ref) is None,
        inspect.repo_digests matches Some(digests) ==> {
            let wanted = normalized_repo(repo_name(image_ref));
            &&& digests@.len() == 0 ==> pulled_digest(Some(inspect), image_ref) is None
            &&& (0 <= k < digests@.len() && normalized_repo(text::before(digests@[k]@, '@'))
                == wanted && (forall|j: int|
                0 <= j < k ==> normalized_repo(text::before(#[trigger] digests@[j]@, '@'))
                    != wanted)) ==> pulled_digest(Some(inspect), image_ref) == text::second_field(
                digests@[k]@,
                '@',
            )
            &&& (digests@.len() > 0 && (forall|j: int|
                0 <= j < digests@.len() ==> normalized_repo(
                    text::before(#[trigger] digests@[j]@, '@'),
                ) != wanted)) ==> pulled_digest(Some(inspect), image_ref) == text::second_field(
                digests@[0]@,
                '@',
            )
        },
{
    if let Some(digests) = inspect.repo_digests {
        let all = texts(digests@);
        entry_of_a_repository_is_the_first(all, repo_name(image_ref), k);
        assert forall|j: int| 0 <= j < all.len() implies #[trigger] all[j] == digests@[j]@ by {}
        assert(digest_of_repo(Seq::empty(), repo_name(image_ref)) is None);
        if digests@.len() == 0 {
            assert(all =~= Seq::empty());
        }
    }
}

/// A container goes by the first of its names, without slashes in front, or else by its id, and it
/// runs if and only if the daemon says so.
pub proof fn container_goes_by_its_first_name(c: ContainerSummary)
    ensures
        (c.names matches Some(names) && names@.len() > 0) ==> container_name(c)
            == text::without_leading(c.names->0@[0]@, "/"@),
        (c.names matches Some(names) ==> names@.len() == 0) ==> (match c.id {
            Some(id) => container_name(c) == id@,
            None => container_name(c).len() == 0,
        }),
        match c.state {
            Some(state) => container_state(c) == if state@ == "running"@ {
                ItemState::Running
            } else {
                ItemState::Stopped
            },
            None => container_state(c) == ItemState::Stopped,
        },
{
}

/// A container is passed over if and only if it has no image or its image no id. A name is looked
/// for if and only if its reference starts with `sha256:`, or has an `@` and no tag before that;
/// every other container keeps its reference, and its digest is looked for.
pub proof fn container_is_examined(c: ContainerSummary)
    ensures
        ({
            match (c.image, c.image_id) {
                (Some(image), Some(image_id)) => if image@.len() == 0 {
                    scan_first(c) is Skipped
                } else {
                    let candidate = CandidateView {
                        display_name: container_name(c),
                        state: container_state(c),
                        image_ref: image@,
                        image_id: image_id@,
                    };
                    let nameless = "sha256:"@.is_prefix_of(image@) || (image@.contains('@')
                        && !registry::has_tag(text::before(image@, '@')));
                    &&& nameless ==> scan_first(c) == ScanView::NeedsName(candidate)
                    &&& !nameless ==> scan_first(c) == ScanView::NeedsDigest(candidate)
                },
                _ => scan_first(c) is Skipped,
            }
        }),
{
}

/// A container whose image has a name goes on under that name, and its digest is looked for,
/// unless the name is an id; a container whose image has none keeps its reference, and has no
/// digest. In the end it has the digest under which its image was pulled as that reference.
pub proof fn container_gets_the_name_of_its_image(
    candidate: CandidateView,
    inspect: Option<ImageInspect>,
)
    ensures
        ({
            let found = |image_ref: Seq<char>|
                ScanView::Found(
                    ContainerInfoView {
                        display_name: candidate.display_name,
                        image_ref,
                        local_digest: None,
                        state: candidate.state,
                    },
                );
            match image_name(inspect) {
                Some(name) => if "sha256:"@.is_prefix_of(name) {
                    scan_after_name(candidate, inspect) == found(name)
                } else {
                    scan_after_name(candidate, inspect) == ScanView::NeedsDigest(
                        CandidateView {
                            display_name: candidate.display_name,
                            state: candidate.state,
                            image_ref: name,
                            image_id: candidate.image_id,
                        },
                    )
                },
                None => scan_after_name(candidate, inspect) == found(candidate.image_ref),
            }
        }),
        scan_after_digest(candidate, inspect) == (ContainerInfoView {
            display_name: candidate.display_name,
            image_ref: candidate.image_ref,
            local_digest: pulled_digest(inspect, candidate.image_ref),
            state: candidate.state,
        }),
{
}

/// A candidate is seen as it is.
pub proof fn candidate_is_seen_as_it_is(candidate: Candidate)
    ensures
        candidate@.display_name == candidate.display_name@,
        candidate@.state == candidate.state,
        candidate@.image_ref == candidate.image_ref@,
        candidate@.image_id == candidate.image_id@,
{
}

/// How far an examination has come is seen as it is.
pub proof fn scan_is_seen_as_it_is(scan: Scan)
    ensures
        ({
            match (scan, scan@) {
                (Scan::Skipped, ScanView::Skipped) => true,
                (Scan::NeedsName(candidate), ScanView::NeedsName(seen)) => seen == candidate@,
                (Scan::NeedsDigest(candidate), ScanView::NeedsDigest(seen)) => seen == candidate@,
                (Scan::Found(info), ScanView::Found(seen)) => seen == info@,
                _ => false,
            }
        }),
{
}

} // verus!
