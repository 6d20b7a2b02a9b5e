//! The images that are stored locally: which ones no container uses, and which could be removed.

use vstd::prelude::*;

use crate::docker::{
    bare_id, first_real_tag, find_real_tag, is_real_tag, ContainerSummary, ImageSummary,
};
use crate::registry::{add_default_tag, with_default_tag};
use crate::string_set::StringSet;
use crate::text;
use crate::types::{opt_text, texts, ContainerInfo, ContainerInfoView, ItemState, PruneableInfo};

verus! {

/// Whether one of `containers` uses the image with the id `id`.
pub open spec fn is_used(containers: Seq<ContainerSummary>, id: Seq<char>) -> bool {
    exists|i: int|
        0 <= i < containers.len() && (#[trigger] containers[i]).image_id is Some && bare_id(
            containers[i].image_id->0@,
        ) == id
}

/// The ids of the images that `containers` use.
pub open spec fn used_ids(containers: Seq<ContainerSummary>) -> Set<Seq<char>> {
    Set::new(|id: Seq<char>| is_used(containers, id))
}

/// The ids of the images that `containers` use.
fn collect_used_ids(containers: &Vec<ContainerSummary>) -> (ids: StringSet)
    ensures
        ids@ == used_ids(containers@),
{
    let mut ids = StringSet::new();
    let mut i: usize = 0;
    assert(ids@ =~= used_ids(containers@.take(0)));
    while i < containers.len()
        invariant
            i <= containers.len(),
            ids@ == used_ids(containers@.take(i as int)),
        decreases containers.len() - i,
    {
        let ghost before = containers@.take(i as int);
        let ghost now = containers@.take(i + 1);
        let ghost ids_before = ids@;
        if let Some(id) = &containers[i].image_id {
            ids.insert(text::strip_leading(id.as_str(), "sha256:").to_string());
        }
        proof {
            assert forall|id: Seq<char>| ids@.contains(id) <==> used_ids(now).contains(id) by {
                if is_used(before, id) {
                    let j = choose|j: int|
                        0 <= j < before.len() && (#[trigger] before[j]).image_id is Some && bare_id(
                            before[j].image_id->0@,
                        ) == id;
                    assert(now[j] == before[j]);
                }
                if is_used(now, id) {
                    let j = choose|j: int|
                        0 <= j < now.len() && (#[trigger] now[j]).image_id is Some && bare_id(
                            now[j].image_id->0@,
                        ) == id;
                    if j < i {
                        assert(before[j] == now[j]);
                    }
                }
                assert(now[i as int] == containers@[i as int]);
            }
            assert(ids@ =~= used_ids(now));
        }
        i += 1;
    }
    assert(containers@.take(i as int) =~= containers@);
    ids
}

/// What is checked of an image, if no container uses it and somebody gave it a tag.
pub open spec fn standalone(used: Set<Seq<char>>, image: ImageSummary) -> Option<
    ContainerInfoView,
> {
    if used.contains(bare_id(image.id@)) {
        None
    } else {
        match first_real_tag(texts(image.repo_tags@)) {
            None => None,
            Some(tag) => Some(
                ContainerInfoView {
                    display_name: tag,
                    image_ref: tag,
                    local_digest: if image.repo_digests@.len() > 0 {
                        text::second_field(image.repo_digests@[0]@, '@')
                    } else {
                        None
                    },
                    state: ItemState::Image,
                },
            ),
        }
    }
}

/// What some [`ContainerInfo`] say.
pub open spec fn infos(items: Seq<ContainerInfo>) -> Seq<ContainerInfoView> {
    items.map_values(|item: ContainerInfo| item@)
}

/// The images that no container uses.
pub fn list_standalone_images(
    containers: &Vec<ContainerSummary>,
    images: &Vec<ImageSummary>,
) -> (items: Vec<ContainerInfo>)
    ensures
        infos(items@) == images@.filter_map(
            |image: ImageSummary| standalone(used_ids(containers@), image),
        ),
{
    let used = collect_used_ids(containers);
    let ghost pick = |image: ImageSummary| standalone(used_ids(containers@), image);
    let mut items: Vec<ContainerInfo> = Vec::new();
    let mut i: usize = 0;
    assert(infos(items@) =~= images@.take(0).filter_map(pick));
    while i < images.len()
        invariant
            i <= images.len(),
            used@ == used_ids(containers@),
            pick == (|image: ImageSummary| standalone(used_ids(containers@), image)),
            infos(items@) == images@.take(i as int).filter_map(pick),
        decreases images.len() - i,
    {
        let image = &images[i];
        let ghost before = items@;
        proof {
            assert(images@.take(i + 1).drop_last() =~= images@.take(i as int));
            assert(images@.take(i + 1).last() == image);
        }
        i += 1;
        if used.contains(text::strip_leading(image.id.as_str(), "sha256:")) {
            continue;
        }
        let image_ref = match find_real_tag(&image.repo_tags) {
            Some(tag) => tag,
            None => {
                continue;
            },
        };
        let local_digest = if image.repo_digests.len() > 0 {
            match text::text_second_field(image.repo_digests[0].as_str(), '@') {
                Some(digest) => Some(digest.to_string()),
                None => None,
            }
        } else {
            None
        };
        let item = ContainerInfo {
            display_name: image_ref.clone(),
            image_ref,
            local_digest,
            state: ItemState::Image,
        };
        proof {
            assert(pick(*image) == Some(item@));
        }
        items.push(item);
        assert(infos(items@) =~= infos(before) + seq![item@]);
    }
    assert(images@.take(i as int) =~= images@);
    items
}

/// Whether one of the digests of `image` is `digest`.
pub open spec fn has_digest(image: ImageSummary, digest: Seq<char>) -> bool {
    exists|j: int|
        0 <= j < image.repo_digests@.len() && text::second_field(
            #[trigger] image.repo_digests@[j]@,
            '@',
        ) == Some(digest)
}

/// Whether one of `images` has the digest `digest`.
pub open spec fn is_stored(images: Seq<ImageSummary>, digest: Seq<char>) -> bool {
    exists|i: int| 0 <= i < images.len() && has_digest(#[trigger] images[i], digest)
}

/// The digests of the images that are stored locally.
pub open spec fn stored_digests(images: Seq<ImageSummary>) -> Set<Seq<char>> {
    Set::new(|digest: Seq<char>| is_stored(images, digest))
}

/// Adds the digests of `image` to `digests`.
fn add_digests(digests: &mut StringSet, image: &ImageSummary)
    ensures
        forall|digest: Seq<char>| #[trigger]
            final(digests)@.contains(digest) <==> old(digests)@.contains(digest) || has_digest(
                *image,
                digest,
            ),
{
    let mut j: usize = 0;
    while j < image.repo_digests.len()
        invariant
            j <= image.repo_digests.len(),
            forall|digest: Seq<char>| #[trigger]
                digests@.contains(digest) <==> old(digests)@.contains(digest) || exists|k: int|
                    0 <= k < j && text::second_field(#[trigger] image.repo_digests@[k]@, '@')
                        == Some(digest),
        decreases image.repo_digests.len() - j,
    {
        let ghost before = digests@;
        if let Some(digest) = text::text_second_field(image.repo_digests[j].as_str(), '@') {
            digests.insert(digest.to_string());
        }
        proof {
            let entry = image.repo_digests@[j as int];
            assert forall|digest: Seq<char>| #[trigger]
                digests@.contains(digest) <==> old(digests)@.contains(digest) || exists|k: int|
                    0 <= k < j + 1 && text::second_field(#[trigger] image.repo_digests@[k]@, '@')
                        == Some(digest) by {
                if before.contains(digest) && !old(digests)@.contains(digest) {
                    let k = choose|k: int|
                        0 <= k < j && text::second_field(#[trigger] image.repo_digests@[k]@, '@')
                            == Some(digest);
                    assert(0 <= k < j + 1);
                }
                if text::second_field(entry@, '@') == Some(digest) {
                    assert(digests@.contains(digest));
                }
            }
        }
        j += 1;
    }
}

/// The digests of the images that are stored locally; none where the images cannot be listed.
pub fn local_digests(images: Option<&Vec<ImageSummary>>) -> (digests: StringSet)
    ensures
        match images {
            Some(images) => digests@ == stored_digests(images@),
            None => digests@ == Set::<Seq<char>>::empty(),
        },
{
    let mut digests = StringSet::new();
    let images = match images {
        Some(images) => images,
        None => {
            return digests;
        },
    };
    let mut i: usize = 0;
    while i < images.len()
        invariant
            i <= images.len(),
            forall|digest: Seq<char>| #[trigger]
                digests@.contains(digest) <==> exists|k: int|
                    0 <= k < i && has_digest(#[trigger] images@[k], digest),
        decreases images.len() - i,
    {
        add_digests(&mut digests, &images[i]);
        i += 1;
    }
    assert(digests@ =~= stored_digests(images@));
    digests
}

/// Whether nobody gave `image` a tag.
pub open spec fn is_dangling(image: ImageSummary) -> bool {
    forall|j: int|
        0 <= j < image.repo_tags@.len() ==> !is_real_tag(#[trigger] image.repo_tags@[j]@)
}

/// The tags that image references stand for.
pub open spec fn tags_of_refs(refs: Set<Seq<char>>) -> Set<Seq<char>> {
    refs.map(|image_ref: Seq<char>| with_default_tag(image_ref))
}

/// Whether one of `tags` is a tag of `image`.
pub open spec fn has_tag_in(image: ImageSummary, tags: Set<Seq<char>>) -> bool {
    exists|j: int|
        0 <= j < image.repo_tags@.len() && tags.contains(#[trigger] image.repo_tags@[j]@)
}

/// Whether one of `digests` is a digest of `image`.
pub open spec fn has_digest_in(image: ImageSummary, digests: Set<Seq<char>>) -> bool {
    exists|j: int|
        0 <= j < image.repo_digests@.len() && (text::second_field(
            #[trigger] image.repo_digests@[j]@,
            '@',
        ) matches Some(digest) && digests.contains(digest))
}

/// Whether `image` counts as dangling: nobody gave it a tag, and no container uses it.
pub open spec fn is_removable_dangling(used: Set<Seq<char>>, image: ImageSummary) -> bool {
    is_dangling(image) && !used.contains(bare_id(image.id@))
}

/// Whether `image` counts as unused: somebody gave it a tag, no container uses it or refers to
/// it, and it is not waiting for a container to be restarted.
pub open spec fn is_removable_unused(
    used: Set<Seq<char>>,
    refs: Set<Seq<char>>,
    pulled: Set<Seq<char>>,
    image: ImageSummary,
) -> bool {
    &&& !is_dangling(image)
    &&& !used.contains(bare_id(image.id@))
    &&& !has_tag_in(image, tags_of_refs(refs))
    &&& !has_digest_in(image, pulled)
}

/// The size of `image`; what is not known counts for nothing.
pub open spec fn size_of_image(image: ImageSummary) -> nat {
    if image.size < 0 {
        0
    } else {
        image.size as nat
    }
}

/// The size of all `images` together.
pub open spec fn total_size(images: Seq<ImageSummary>) -> nat
    decreases images.len(),
{
    if images.len() == 0 {
        0
    } else {
        total_size(images.drop_last()) + size_of_image(images.last())
    }
}

/// Those of `images` that count as dangling.
pub open spec fn removable_dangling(used: Set<Seq<char>>, images: Seq<ImageSummary>) -> Seq<
    ImageSummary,
> {
    images.filter(|image: ImageSummary| is_removable_dangling(used, image))
}

/// Those of `images` that count as unused.
pub open spec fn removable_unused(
    used: Set<Seq<char>>,
    refs: Set<Seq<char>>,
    pulled: Set<Seq<char>>,
    images: Seq<ImageSummary>,
) -> Seq<ImageSummary> {
    images.filter(|image: ImageSummary| is_removable_unused(used, refs, pulled, image))
}

/// The ids of the images that containers use; none where the containers cannot be listed.
pub open spec fn ids_in_use(containers: Option<&Vec<ContainerSummary>>) -> Set<Seq<char>> {
    match containers {
        Some(containers) => used_ids(containers@),
        None => Set::empty(),
    }
}

/// Whether nobody gave `image` a tag.
fn dangles(image: &ImageSummary) -> (dangling: bool)
    ensures
        dangling == is_dangling(*image),
{
    let mut j: usize = 0;
    while j < image.repo_tags.len()
        invariant
            j <= image.repo_tags.len(),
            forall|k: int| 0 <= k < j ==> !is_real_tag(#[trigger] image.repo_tags@[k]@),
        decreases image.repo_tags.len() - j,
    {
        if !text::has_text(image.repo_tags[j].as_str(), "<none>") {
            return false;
        }
        j += 1;
    }
    true
}

/// Whether one of `tags` is a tag of `image`.
fn tagged_in(image: &ImageSummary, tags: &StringSet) -> (found: bool)
    ensures
        found == has_tag_in(*image, tags@),
{
    let mut j: usize = 0;
    while j < image.repo_tags.len()
        invariant
            j <= image.repo_tags.len(),
            forall|k: int| 0 <= k < j ==> !tags@.contains(#[trigger] image.repo_tags@[k]@),
        decreases image.repo_tags.len() - j,
    {
        if tags.contains(image.repo_tags[j].as_str()) {
            return true;
        }
        j += 1;
    }
    false
}

/// Whether one of `digests` is a digest of `image`.
fn digest_in(image: &ImageSummary, digests: &StringSet) -> (found: bool)
    ensures
        found == has_digest_in(*image, digests@),
{
    let mut j: usize = 0;
    while j < image.repo_digests.len()
        invariant
            j <= image.repo_digests.len(),
            forall|k: int|
                0 <= k < j ==> !(text::second_field(#[trigger] image.repo_digests@[k]@, '@') matches
                    Some(digest) && digests@.contains(digest)),
        decreases image.repo_digests.len() - j,
    {
        if let Some(digest) = text::text_second_field(image.repo_digests[j].as_str(), '@') {
            if digests.contains(digest) {
                return true;
            }
        }
        j += 1;
    }
    false
}

/// The tags that image references stand for.
fn collect_tags(refs: &StringSet) -> (tags: StringSet)
    ensures
        tags@ == tags_of_refs(refs@),
{
    let members = refs.members();
    let mut tags = StringSet::new();
    let mut i: usize = 0;
    while i < members.len()
        invariant
            i <= members.len(),
            texts(members@).to_set() == refs@,
            forall|tag: Seq<char>| #[trigger]
                tags@.contains(tag) <==> exists|k: int|
                    0 <= k < i && tag == with_default_tag(#[trigger] texts(members@)[k]),
        decreases members.len() - i,
    {
        let image_ref = members[i].as_str();
        let ghost before = tags@;
        assert(texts(members@)[i as int] == image_ref@);
        tags.insert(add_default_tag(image_ref));
        assert(tags@ == before.insert(with_default_tag(texts(members@)[i as int])));
        i += 1;
    }
    proof {
        assert forall|tag: Seq<char>| tags@.contains(tag) <==> tags_of_refs(refs@).contains(tag) by {
            if tags@.contains(tag) {
                let k = choose|k: int|
                    0 <= k < i && tag == with_default_tag(#[trigger] texts(members@)[k]);
                assert(refs@.contains(texts(members@)[k]));
            }
            if tags_of_refs(refs@).contains(tag) {
                let image_ref = choose|image_ref: Seq<char>|
                    refs@.contains(image_ref) && tag == with_default_tag(image_ref);
                assert(texts(members@).to_set().contains(image_ref));
                let k = texts(members@).index_of(image_ref);
                assert(texts(members@)[k] == image_ref);
            }
        }
        assert(tags@ =~= tags_of_refs(refs@));
    }
    tags
}

/// Whether `info` counts those of `images` that dangle and those that are unused.
pub open spec fn counts_removable(
    info: PruneableInfo,
    used: Set<Seq<char>>,
    refs: Set<Seq<char>>,
    pulled: Set<Seq<char>>,
    images: Seq<ImageSummary>,
) -> bool {
    &&& info.dangling_count == removable_dangling(used, images).len()
    &&& info.dangling_bytes == total_size(removable_dangling(used, images))
    &&& info.unused_count == removable_unused(used, refs, pulled, images).len()
    &&& info.unused_bytes == total_size(removable_unused(used, refs, pulled, images))
}

/// Whether the sizes of the images that dangle, and of those that are unused, can be counted.
pub open spec fn sizes_fit(
    used: Set<Seq<char>>,
    refs: Set<Seq<char>>,
    pulled: Set<Seq<char>>,
    images: Seq<ImageSummary>,
) -> bool {
    &&& total_size(removable_dangling(used, images)) <= u64::MAX
    &&& total_size(removable_unused(used, refs, pulled, images)) <= u64::MAX
}

/// How many images could be removed: those that dangle, and those that are unused. The image
/// references `container_refs` are those of the containers that were checked, and
/// `pulled_digests` are the digests of the images that wait for a container to be restarted.
/// Nothing is counted where the images cannot be listed.
pub fn pruneable_info(
    containers: Option<&Vec<ContainerSummary>>,
    images: Option<&Vec<ImageSummary>>,
    container_refs: &StringSet,
    pulled_digests: &StringSet,
) -> (info: PruneableInfo)
    requires
        images matches Some(images) ==> sizes_fit(
            ids_in_use(containers),
            container_refs@,
            pulled_digests@,
            images@,
        ),
    ensures
        match images {
            Some(images) => counts_removable(
                info,
                ids_in_use(containers),
                container_refs@,
                pulled_digests@,
                images@,
            ),
            None => info == (PruneableInfo {
                dangling_count: 0,
                dangling_bytes: 0,
                unused_count: 0,
                unused_bytes: 0,
            }),
        },
{
    match images {
        Some(images) => match count_removable(containers, images, container_refs, pulled_digests) {
            Some(info) => info,
            None => vstd::pervasive::unreached(),
        },
        None => PruneableInfo::default(),
    }
}

/// How many of `images` could be removed, as [`pruneable_info`] counts them; nothing where the
/// sizes cannot be counted.
pub fn count_removable(
    containers: Option<&Vec<ContainerSummary>>,
    images: &Vec<ImageSummary>,
    container_refs: &StringSet,
    pulled_digests: &StringSet,
) -> (info: Option<PruneableInfo>)
    ensures
        info is Some <==> sizes_fit(
            ids_in_use(containers),
            container_refs@,
            pulled_digests@,
            images@,
        ),
        info matches Some(info) ==> counts_removable(
            info,
            ids_in_use(containers),
            container_refs@,
            pulled_digests@,
            images@,
        ),
{
    let used = match containers {
        Some(containers) => collect_used_ids(containers),
        None => StringSet::new(),
    };
    let tags = collect_tags(container_refs);
    let mut dangling_count: usize = 0;
    let mut dangling_bytes: u128 = 0;
    let mut unused_count: usize = 0;
    let mut unused_bytes: u128 = 0;
    let ghost dangling = |image: ImageSummary| is_removable_dangling(used@, image);
    let ghost unused = |image: ImageSummary|
        is_removable_unused(used@, container_refs@, pulled_digests@, image);
    let mut i: usize = 0;
    assert(images@.take(0) =~= Seq::empty());
    assert(images@.take(0).filter(dangling) =~= Seq::empty()) by {
        reveal(Seq::filter);
    }
    assert(images@.take(0).filter(unused) =~= Seq::empty()) by {
        reveal(Seq::filter);
    }
    while i < images.len()
        invariant
            i <= images.len(),
            tags@ == tags_of_refs(container_refs@),
            dangling == (|image: ImageSummary| is_removable_dangling(used@, image)),
            unused == (|image: ImageSummary|
                is_removable_unused(used@, container_refs@, pulled_digests@, image)),
            dangling_count == images@.take(i as int).filter(dangling).len(),
            dangling_bytes == total_size(images@.take(i as int).filter(dangling)),
            unused_count == images@.take(i as int).filter(unused).len(),
            unused_bytes == total_size(images@.take(i as int).filter(unused)),
            dangling_count <= i,
            unused_count <= i,
            dangling_bytes <= i * i64::MAX,
            unused_bytes <= i * i64::MAX,
        decreases images.len() - i,
    {
        let image = &images[i];
        proof {
            reveal(Seq::filter);
            let longer = images@.take(i + 1);
            assert(longer.drop_last() =~= images@.take(i as int));
            assert(longer.last() == image);
            if dangling(*image) {
                assert(longer.filter(dangling).drop_last() =~= images@.take(i as int).filter(
                    dangling,
                ));
            }
            if unused(*image) {
                assert(longer.filter(unused).drop_last() =~= images@.take(i as int).filter(
                    unused,
                ));
            }
        }
        let size: u128 = if image.size < 0 {
            0
        } else {
            image.size as u128
        };
        let in_use = used.contains(text::strip_leading(image.id.as_str(), "sha256:"));
        if dangles(image) {
            if !in_use {
                dangling_count += 1;
                dangling_bytes += size;
            }
        } else if !in_use && !tagged_in(image, &tags) && !digest_in(image, pulled_digests) {
            unused_count += 1;
            unused_bytes += size;
        }
        i += 1;
    }
    assert(images@.take(i as int) =~= images@);
    if dangling_bytes > u64::MAX as u128 || unused_bytes > u64::MAX as u128 {
        return None;
    }
    Some(
        PruneableInfo {
            dangling_count,
            dangling_bytes: dangling_bytes as u64,
            unused_count,
            unused_bytes: unused_bytes as u64,
        },
    )
}

/// An image is counted at most once.
pub proof fn images_are_counted_once(
    used: Set<Seq<char>>,
    refs: Set<Seq<char>>,
    pulled: Set<Seq<char>>,
    images: Seq<ImageSummary>,
)
    ensures
        removable_dangling(used, images).len() + removable_unused(used, refs, pulled, images).len()
            <= images.len(),
    decreases images.len(),
{
    reveal(Seq::filter);
    if images.len() > 0 {
        images_are_counted_once(used, refs, pulled, images.drop_last());
    }
}

/// The members of a filtered sequence.
pub proof fn filtered_members(
    images: Seq<ImageSummary>,
    pred: spec_fn(ImageSummary) -> bool,
    image: ImageSummary,
)
    ensures
        images.filter(pred).contains(image) <==> images.contains(image) && pred(image),
{
    if images.filter(pred).contains(image) {
        let i = images.filter(pred).index_of(image);
        images.lemma_filter_pred(pred, i);
        images.lemma_filter_contains_rev(pred, image);
    }
    if images.contains(image) && pred(image) {
        let i = images.index_of(image);
        images.lemma_filter_contains(pred, i);
    }
}

/// No image that a container uses is counted, and every other image without a tag is. An image
/// with a tag is counted unless a container refers to it or it waits for a container to be
/// restarted.
pub proof fn needed_images_are_not_counted(
    used: Set<Seq<char>>,
    refs: Set<Seq<char>>,
    pulled: Set<Seq<char>>,
    images: Seq<ImageSummary>,
    image: ImageSummary,
)
    requires
        images.contains(image),
    ensures
        ({
            let dangling = removable_dangling(used, images).contains(image);
            let unused = removable_unused(used, refs, pulled, images).contains(image);
            &&& used.contains(bare_id(image.id@)) ==> !dangling && !unused
            &&& !used.contains(bare_id(image.id@)) && is_dangling(image) ==> dangling && !unused
            &&& !used.contains(bare_id(image.id@)) && !is_dangling(image) ==> !dangling && (unused
                <==> !has_tag_in(image, tags_of_refs(refs)) && !has_digest_in(image, pulled))
        }),
{
    filtered_members(images, |image: ImageSummary| is_removable_dangling(used, image), image);
    filtered_members(
        images,
        |image: ImageSummary| is_removable_unused(used, refs, pulled, image),
        image,
    );
}

/// The images that are checked without a container are no container's, and carry a tag that
/// somebody gave.
pub proof fn standalone_images_have_no_container(used: Set<Seq<char>>, image: ImageSummary)
    ensures
        standalone(used, image) is Some <==> !used.contains(bare_id(image.id@)) && !is_dangling(
            image,
        ),
        standalone(used, image) matches Some(info) ==> is_real_tag(info.image_ref) && texts(
            image.repo_tags@,
        ).contains(info.image_ref) && info.display_name == info.image_ref,
{
    first_real_tag_is_real(texts(image.repo_tags@));
    let tags = texts(image.repo_tags@);
    if exists|j: int| 0 <= j < tags.len() && is_real_tag(#[trigger] tags[j]) {
        let j = choose|j: int| 0 <= j < tags.len() && is_real_tag(#[trigger] tags[j]);
        assert(tags[j] == image.repo_tags@[j]@);
    }
    assert forall|j: int| 0 <= j < image.repo_tags@.len() && first_real_tag(tags) is None implies
        !is_real_tag(#[trigger] image.repo_tags@[j]@) by {
        assert(tags[j] == image.repo_tags@[j]@);
    }
}

/// The first tag that somebody gave is one of the tags; there is none only if nobody gave one.
proof fn first_real_tag_is_real(tags: Seq<Seq<char>>)
    ensures
        match first_real_tag(tags) {
            Some(tag) => is_real_tag(tag) && tags.contains(tag) && (exists|j: int|
                0 <= j < tags.len() && is_real_tag(#[trigger] tags[j])),
            None => forall|j: int| 0 <= j < tags.len() ==> !is_real_tag(#[trigger] tags[j]),
        },
    decreases tags.len(),
{
    if tags.len() > 0 {
        if is_real_tag(tags[0]) {
            assert(tags.contains(tags[0]));
        } else {
            let rest = tags.skip(1);
            first_real_tag_is_real(rest);
            match first_real_tag(rest) {
                Some(tag) => {
                    let j = rest.index_of(tag);
                    assert(tags[j + 1] == tag);
                },
                None => {
                    assert forall|j: int| 0 <= j < tags.len() implies !is_real_tag(
                        #[trigger] tags[j],
                    ) by {
                        if j > 0 {
                            assert(rest[j - 1] == tags[j]);
                        }
                    }
                },
            }
        }
    }
}

/// A digest under which an image was pulled is stored, whatever tags the image has.
pub proof fn pulled_digest_is_stored(
    images: Seq<ImageSummary>,
    i: int,
    j: int,
    repo: Seq<char>,
    digest: Seq<char>,
)
    requires
        0 <= i < images.len(),
        0 <= j < images[i].repo_digests@.len(),
        images[i].repo_digests@[j]@ == repo + seq!['@'] + digest,
        !repo.contains('@'),
        !digest.contains('@'),
    ensures
        stored_digests(images).contains(digest),
{
    text::text_divides_at_the_first(repo, '@', digest);
    text::text_divides_at_the_first(digest, '@', digest);
    assert(has_digest(images[i], digest));
}

/// A digest that is stored stands in an entry of some image between the first `@` and the next one
/// or the end.
pub proof fn stored_digest_was_pulled(images: Seq<ImageSummary>, digest: Seq<char>)
    requires
        stored_digests(images).contains(digest),
    ensures
        !digest.contains('@'),
        exists|i: int, j: int|
            #![trigger images[i].repo_digests@[j]]
            0 <= i < images.len() && 0 <= j < images[i].repo_digests@.len() && (exists|
                repo: Seq<char>,
                rest: Seq<char>,
            |
                #![trigger repo + seq!['@'] + digest + rest]
                !repo.contains('@') && (rest.len() == 0 || rest[0] == '@')
                    && images[i].repo_digests@[j]@ == repo + seq!['@'] + digest + rest),
{
    let i = choose|i: int| 0 <= i < images.len() && has_digest(#[trigger] images[i], digest);
    let image = images[i];
    let j = choose|j: int|
        0 <= j < image.repo_digests@.len() && text::second_field(
            #[trigger] image.repo_digests@[j]@,
            '@',
        ) == Some(digest);
    let entry = images[i].repo_digests@[j]@;
    entry.index_of_first_ensures('@');
    let at = entry.index_of_first('@')->0;
    let repo = entry.take(at);
    let after = entry.skip(at + 1);
    after.index_of_first_ensures('@');
    let rest = match after.index_of_first('@') {
        Some(end) => after.skip(end),
        None => Seq::empty(),
    };
    assert(!digest.contains('@')) by {
        if digest.contains('@') {
            let k = choose|k: int| 0 <= k < digest.len() && digest[k] == '@';
            assert(after[k] == '@');
        }
    }
    assert(!repo.contains('@')) by {
        if repo.contains('@') {
            let k = choose|k: int| 0 <= k < repo.len() && repo[k] == '@';
            assert(entry[k] == '@');
        }
    }
    assert(entry =~= repo + seq!['@'] + digest + rest);
}

/// Each of some items is seen in its place.
pub proof fn items_are_seen_in_their_places(items: Seq<ContainerInfo>, i: int)
    ensures
        infos(items).len() == items.len(),
        0 <= i < items.len() ==> infos(items)[i] == items[i]@,
{
}

/// The image of a container is in use, by its id without the name of the hash, and no image is in
/// use but that of a container.
pub proof fn image_of_a_container_is_used(
    containers: Vec<ContainerSummary>,
    i: int,
    id: Seq<char>,
)
    requires
        0 <= i < containers@.len(),
    ensures
        containers@[i].image_id matches Some(image_id) ==> used_ids(containers@).contains(
            text::without_leading(image_id@, "sha256:"@),
        ),
        used_ids(containers@).contains(id) ==> exists|k: int|
            0 <= k < containers@.len() && (#[trigger] containers@[k]).image_id is Some
                && text::without_leading(containers@[k].image_id->0@, "sha256:"@) == id,
        ids_in_use(Some(&containers)) == used_ids(containers@),
        ids_in_use(None) == Set::<Seq<char>>::empty(),
{
}

/// An image that no container uses is checked under the first tag that is not `<none>`, with the
/// first digest under which it was pulled; other images are not checked.
pub proof fn free_image_is_checked_under_its_tag(
    used: Set<Seq<char>>,
    image: ImageSummary,
    k: int,
)
    ensures
        used.contains(text::without_leading(image.id@, "sha256:"@)) ==> standalone(used, image)
            is None,
        (forall|j: int|
            0 <= j < image.repo_tags@.len() ==> text::occurs(
                #[trigger] image.repo_tags@[j]@,
                "<none>"@,
            )) ==> standalone(used, image) is None,
        !used.contains(text::without_leading(image.id@, "sha256:"@)) && 0 <= k
            < image.repo_tags@.len() && !text::occurs(image.repo_tags@[k]@, "<none>"@) && (forall|
            j: int,
        |
            0 <= j < k ==> text::occurs(#[trigger] image.repo_tags@[j]@, "<none>"@)) ==> (standalone(
            used,
            image,
        ) matches Some(info) && {
            &&& info.display_name == image.repo_tags@[k]@
            &&& info.image_ref == image.repo_tags@[k]@
            &&& info.state == ItemState::Image
            &&& image.repo_digests@.len() == 0 ==> info.local_digest is None
            &&& image.repo_digests@.len() > 0 ==> info.local_digest == text::second_field(
                image.repo_digests@[0]@,
                '@',
            )
        }),
{
    let tags = texts(image.repo_tags@);
    crate::docker::first_real_tag_is_the_first(tags, k);
    assert forall|j: int| 0 <= j < tags.len() implies #[trigger] tags[j] == image.repo_tags@[j]@ by {}
}

/// Whether nobody gave `image` a tag: each of its tags, if it has any, says `<none>`.
spec fn has_only_empty_tags(image: ImageSummary) -> bool {
    forall|j: int|
        0 <= j < image.repo_tags@.len() ==> text::occurs(
            #[trigger] image.repo_tags@[j]@,
            "<none>"@,
        )
}

/// One more image without a tag is counted as dangling unless a container uses it. One more image
/// with a tag is counted as unused unless a container uses it, or one of its tags is that of
/// a reference in `refs`, which is `latest` where the reference has none, or one of its digests is
/// in `pulled`. What was counted before stays counted.
pub proof fn one_more_image_is_counted(
    used: Set<Seq<char>>,
    refs: Set<Seq<char>>,
    pulled: Set<Seq<char>>,
    images: Seq<ImageSummary>,
    image: ImageSummary,
)
    ensures
        ({
            let free = !used.contains(text::without_leading(image.id@, "sha256:"@));
            let untagged = forall|j: int|
                0 <= j < image.repo_tags@.len() ==> text::occurs(
                    #[trigger] image.repo_tags@[j]@,
                    "<none>"@,
                );
            let wanted = exists|j: int, image_ref: Seq<char>|
                #![trigger image.repo_tags@[j], refs.contains(image_ref)]
                0 <= j < image.repo_tags@.len() && refs.contains(image_ref) && with_default_tag(
                    image_ref,
                ) == image.repo_tags@[j]@;
            let waiting = exists|j: int|
                0 <= j < image.repo_digests@.len() && (text::second_field(
                    #[trigger] image.repo_digests@[j]@,
                    '@',
                ) matches Some(digest) && pulled.contains(digest));
            let dangling = removable_dangling(used, images);
            let unused = removable_unused(used, refs, pulled, images);
            &&& removable_dangling(used, images.push(image)) == if free && untagged {
                dangling.push(image)
            } else {
                dangling
            }
            &&& removable_unused(used, refs, pulled, images.push(image)) == if free && !untagged
                && !wanted && !waiting {
                unused.push(image)
            } else {
                unused
            }
        }),
        removable_dangling(used, Seq::empty()).len() == 0,
        removable_unused(used, refs, pulled, Seq::empty()).len() == 0,
{
    reveal(Seq::filter);
    let more = images.push(image);
    assert(more.drop_last() =~= images);
    assert(more.last() == image);
    assert(has_only_empty_tags(image) <==> is_dangling(image)) by {
        assert forall|j: int| 0 <= j < image.repo_tags@.len() && is_dangling(image) implies
            text::occurs(#[trigger] image.repo_tags@[j]@, "<none>"@) by {
            assert(!is_real_tag(image.repo_tags@[j]@));
        }
    }
    let tags = tags_of_refs(refs);
    if exists|j: int, image_ref: Seq<char>|
        #![trigger image.repo_tags@[j], refs.contains(image_ref)]
        0 <= j < image.repo_tags@.len() && refs.contains(image_ref) && with_default_tag(image_ref)
            == image.repo_tags@[j]@ {
        let (j, image_ref) = choose|j: int, image_ref: Seq<char>|
            #![trigger image.repo_tags@[j], refs.contains(image_ref)]
            0 <= j < image.repo_tags@.len() && refs.contains(image_ref) && with_default_tag(
                image_ref,
            ) == image.repo_tags@[j]@;
        assert(tags.contains(image.repo_tags@[j]@));
        assert(has_tag_in(image, tags));
    }
    if has_tag_in(image, tags) {
        let j = choose|j: int|
            0 <= j < image.repo_tags@.len() && tags.contains(#[trigger] image.repo_tags@[j]@);
        let image_ref = choose|image_ref: Seq<char>|
            refs.contains(image_ref) && image.repo_tags@[j]@ == with_default_tag(image_ref);
        assert(refs.contains(image_ref) && with_default_tag(image_ref) == image.repo_tags@[j]@);
    }
}

/// One more image adds its size, which counts for nothing where it is not known.
pub proof fn one_more_image_adds_its_size(images: Seq<ImageSummary>, image: ImageSummary)
    ensures
        total_size(Seq::empty()) == 0,
        image.size >= 0 ==> total_size(images.push(image)) == total_size(images) + image.size,
        image.size < 0 ==> total_size(images.push(image)) == total_size(images),
{
    assert(images.push(image).drop_last() =~= images);
}

/// The images that could be removed are counted with their sizes, each kind by itself, as long as
/// the sizes can be counted.
pub proof fn each_kind_is_counted_by_itself(
    info: PruneableInfo,
    used: Set<Seq<char>>,
    refs: Set<Seq<char>>,
    pulled: Set<Seq<char>>,
    images: Seq<ImageSummary>,
)
    ensures
        ({
            let dangling = removable_dangling(used, images);
            let unused = removable_unused(used, refs, pulled, images);
            &&& counts_removable(info, used, refs, pulled, images) ==> {
                &&& info.dangling_count == dangling.len()
                &&& info.dangling_bytes == total_size(dangling)
                &&& info.unused_count == unused.len()
                &&& info.unused_bytes == total_size(unused)
            }
            &&& total_size(dangling) <= 0xffff_ffff_ffff_ffff && total_size(unused)
                <= 0xffff_ffff_ffff_ffff ==> sizes_fit(used, refs, pulled, images)
        }),
{
}

} // verus!
