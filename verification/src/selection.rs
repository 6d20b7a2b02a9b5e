//! Which items are checked.

use vstd::prelude::*;

use crate::images::infos;
use crate::string_set::StringSet;
use crate::types::{ContainerInfo, ContainerInfoView, ItemState};

verus! {

/// The image references of `items`.
pub open spec fn refs_of(items: Seq<ContainerInfoView>) -> Set<Seq<char>> {
    items.map_values(|item: ContainerInfoView| item.image_ref).to_set()
}

/// `items` with those of `images` whose image reference no earlier item has.
pub open spec fn merged(items: Seq<ContainerInfoView>, images: Seq<ContainerInfoView>) -> Seq<
    ContainerInfoView,
>
    decreases images.len(),
{
    if images.len() == 0 {
        items
    } else if refs_of(items).contains(images[0].image_ref) {
        merged(items, images.skip(1))
    } else {
        merged(items.push(images[0]), images.skip(1))
    }
}

/// The image references of `items`.
fn collect_refs(items: &Vec<ContainerInfo>) -> (refs: StringSet)
    ensures
        refs@ == refs_of(infos(items@)),
{
    let mut refs = StringSet::new();
    let mut i: usize = 0;
    assert(refs@ =~= refs_of(infos(items@).take(0)));
    while i < items.len()
        invariant
            i <= items.len(),
            refs@ == refs_of(infos(items@).take(i as int)),
        decreases items.len() - i,
    {
        refs.insert(items[i].image_ref.clone());
        proof {
            assert(infos(items@).take(i + 1) =~= infos(items@).take(i as int).push(
                items@[i as int]@,
            ));
            refs_of_push(infos(items@).take(i as int), items@[i as int]@);
        }
        i += 1;
    }
    assert(infos(items@).take(i as int) =~= infos(items@));
    refs
}

/// One more item adds its image reference.
proof fn refs_of_push(items: Seq<ContainerInfoView>, item: ContainerInfoView)
    ensures
        refs_of(items.push(item)) == refs_of(items).insert(item.image_ref),
{
    let refs = items.map_values(|item: ContainerInfoView| item.image_ref);
    let more = items.push(item).map_values(|item: ContainerInfoView| item.image_ref);
    assert(more =~= refs.push(item.image_ref));
    assert forall|image_ref: Seq<char>|
        more.contains(image_ref) <==> refs.contains(image_ref) || image_ref == item.image_ref by {
        if refs.contains(image_ref) {
            let i = refs.index_of(image_ref);
            assert(more[i] == image_ref);
        }
        if image_ref == item.image_ref {
            assert(more[refs.len() as int] == image_ref);
        }
    }
    assert(refs_of(items.push(item)) =~= refs_of(items).insert(item.image_ref));
}

/// Adds to the containers the images that no container uses, each image reference once.
pub fn merge_standalone(items: Vec<ContainerInfo>, images: Vec<ContainerInfo>) -> (all: Vec<
    ContainerInfo,
>)
    ensures
        infos(all@) == merged(infos(items@), infos(images@)),
{
    let mut seen = collect_refs(&items);
    let mut all = items;
    let mut i: usize = 0;
    assert(infos(images@).skip(0) =~= infos(images@));
    while i < images.len()
        invariant
            i <= images.len(),
            seen@ == refs_of(infos(all@)),
            merged(infos(items@), infos(images@)) == merged(
                infos(all@),
                infos(images@).skip(i as int),
            ),
        decreases images.len() - i,
    {
        let ghost before = infos(all@);
        let ghost rest = infos(images@).skip(i as int);
        assert(rest[0] == images@[i as int]@);
        assert(rest.skip(1) =~= infos(images@).skip(i + 1));
        if seen.insert(images[i].image_ref.clone()) {
            all.push(images[i].clone());
            assert(infos(all@) =~= before.push(images@[i as int]@));
            proof {
                refs_of_push(before, images@[i as int]@);
            }
        } else {
            assert(seen@ =~= refs_of(before));
        }
        i += 1;
    }
    all
}

/// Those of `items` that are containers.
pub open spec fn containers_of(items: Seq<ContainerInfoView>) -> Seq<ContainerInfoView> {
    items.filter(|item: ContainerInfoView| item.state != ItemState::Image)
}

/// The image references of those of `items` that are containers.
pub fn container_refs(items: &Vec<ContainerInfo>) -> (refs: StringSet)
    ensures
        refs@ == refs_of(containers_of(infos(items@))),
{
    let mut refs = StringSet::new();
    let mut i: usize = 0;
    proof {
        reveal(Seq::filter);
        assert(infos(items@).take(0) =~= Seq::empty());
        assert(refs@ =~= refs_of(containers_of(infos(items@).take(0))));
    }
    while i < items.len()
        invariant
            i <= items.len(),
            refs@ == refs_of(containers_of(infos(items@).take(i as int))),
        decreases items.len() - i,
    {
        proof {
            reveal(Seq::filter);
            let longer = infos(items@).take(i + 1);
            assert(longer.drop_last() =~= infos(items@).take(i as int));
            assert(longer.last() == items@[i as int]@);
            refs_of_push(containers_of(infos(items@).take(i as int)), items@[i as int]@);
        }
        if items[i].state != ItemState::Image {
            refs.insert(items[i].image_ref.clone());
        }
        i += 1;
    }
    assert(infos(items@).take(i as int) =~= infos(items@));
    refs
}

/// How many of `items` are in the state `state`.
pub open spec fn count_in_state(items: Seq<ContainerInfoView>, state: ItemState) -> nat {
    items.filter(|item: ContainerInfoView| item.state == state).len()
}

/// How many of `items` are in the state `state`.
pub fn count_state(items: &Vec<ContainerInfo>, state: ItemState) -> (count: usize)
    ensures
        count == count_in_state(infos(items@), state),
{
    let mut count: usize = 0;
    let mut i: usize = 0;
    proof {
        reveal(Seq::filter);
        assert(infos(items@).take(0) =~= Seq::empty());
    }
    while i < items.len()
        invariant
            i <= items.len(),
            count <= i,
            count == count_in_state(infos(items@).take(i as int), state),
        decreases items.len() - i,
    {
        proof {
            reveal(Seq::filter);
            let longer = infos(items@).take(i + 1);
            assert(longer.drop_last() =~= infos(items@).take(i as int));
            assert(longer.last() == items@[i as int]@);
        }
        if items[i].state == state {
            count += 1;
        }
        i += 1;
    }
    assert(infos(items@).take(i as int) =~= infos(items@));
    count
}

/// Every item is counted in exactly one state.
pub proof fn states_add_up(items: Seq<ContainerInfoView>)
    ensures
        count_in_state(items, ItemState::Running) + count_in_state(items, ItemState::Stopped)
            + count_in_state(items, ItemState::Image) == items.len(),
    decreases items.len(),
{
    reveal(Seq::filter);
    if items.len() > 0 {
        states_add_up(items.drop_last());
    }
}

/// Merging keeps every container and its place, checks every image, and checks none of the added
/// images twice.
pub proof fn merging_adds_each_image_once(
    items: Seq<ContainerInfoView>,
    images: Seq<ContainerInfoView>,
)
    ensures
        items.is_prefix_of(merged(items, images)),
        refs_of(merged(items, images)) == refs_of(items).union(refs_of(images)),
        forall|i: int, j: int|
            #![trigger merged(items, images)[i], merged(items, images)[j]]
            0 <= i < j < merged(items, images).len() && items.len() <= j ==> merged(
                items,
                images,
            )[i].image_ref != merged(items, images)[j].image_ref,
    decreases images.len(),
{
    let all = merged(items, images);
    if images.len() == 0 {
        assert(items =~= items.subrange(0, items.len() as int));
        assert(refs_of(images) =~= Set::empty());
        assert(refs_of(items) =~= refs_of(items).union(refs_of(images)));
    } else {
        let first = images[0];
        let rest = images.skip(1);
        assert(refs_of(images) =~= refs_of(rest).insert(first.image_ref)) by {
            refs_of_push(rest, first);
            assert(refs_of(images) =~= refs_of(rest.push(first))) by {
                let f = |item: ContainerInfoView| item.image_ref;
                assert forall|image_ref: Seq<char>|
                    images.map_values(f).contains(image_ref) <==> rest.push(first).map_values(
                        f,
                    ).contains(image_ref) by {
                    let a = images.map_values(f);
                    let b = rest.push(first).map_values(f);
                    if a.contains(image_ref) {
                        let i = a.index_of(image_ref);
                        if i == 0 {
                            assert(b[rest.len() as int] == image_ref);
                        } else {
                            assert(b[i - 1] == image_ref);
                        }
                    }
                    if b.contains(image_ref) {
                        let i = b.index_of(image_ref);
                        if i == rest.len() {
                            assert(a[0] == image_ref);
                        } else {
                            assert(a[i + 1] == image_ref);
                        }
                    }
                }
            }
        }
        if refs_of(items).contains(first.image_ref) {
            merging_adds_each_image_once(items, rest);
            assert(refs_of(all) =~= refs_of(items).union(refs_of(images)));
        } else {
            let more = items.push(first);
            merging_adds_each_image_once(more, rest);
            refs_of_push(items, first);
            assert(items =~= more.subrange(0, items.len() as int));
            assert(items =~= all.subrange(0, items.len() as int)) by {
                assert forall|k: int| 0 <= k < items.len() implies items[k] == all[k] by {
                    assert(more[k] == all.subrange(0, more.len() as int)[k]);
                }
            }
            assert(refs_of(all) =~= refs_of(items).union(refs_of(images)));
            assert forall|i: int, j: int|
                #![trigger all[i], all[j]]
                0 <= i < j < all.len() && items.len() <= j implies all[i].image_ref
                != all[j].image_ref by {
                if j == items.len() {
                    assert(all[j] == all.subrange(0, more.len() as int)[j]);
                    assert(all[i] == all.subrange(0, more.len() as int)[i]);
                    let refs = items.map_values(|item: ContainerInfoView| item.image_ref);
                    assert(refs[i] == items[i].image_ref);
                    assert(refs.contains(items[i].image_ref));
                }
            }
        }
    }
}

/// An image reference is one of those of `items` if and only if one of them has it.
pub proof fn references_are_those_of_the_items(
    items: Seq<ContainerInfoView>,
    image_ref: Seq<char>,
)
    ensures
        refs_of(items).contains(image_ref) <==> exists|k: int|
            0 <= k < items.len() && (#[trigger] items[k]).image_ref == image_ref,
        refs_of(containers_of(items)).contains(image_ref) <==> exists|k: int|
            0 <= k < items.len() && (#[trigger] items[k]).image_ref == image_ref
                && items[k].state != ItemState::Image,
{
    let refs = items.map_values(|item: ContainerInfoView| item.image_ref);
    if refs_of(items).contains(image_ref) {
        let k = refs.index_of(image_ref);
        assert(items[k].image_ref == image_ref);
    }
    if exists|k: int| 0 <= k < items.len() && (#[trigger] items[k]).image_ref == image_ref {
        let k = choose|k: int|
            0 <= k < items.len() && (#[trigger] items[k]).image_ref == image_ref;
        assert(refs[k] == image_ref);
    }
    let pred = |item: ContainerInfoView| item.state != ItemState::Image;
    let some = containers_of(items);
    let some_refs = some.map_values(|item: ContainerInfoView| item.image_ref);
    if refs_of(some).contains(image_ref) {
        let k = some_refs.index_of(image_ref);
        items.lemma_filter_pred(pred, k);
        assert(some.contains(some[k]));
        items.lemma_filter_contains_rev(pred, some[k]);
        let j = items.index_of(some[k]);
        assert(items[j].image_ref == image_ref && items[j].state != ItemState::Image);
    }
    if exists|k: int|
        0 <= k < items.len() && (#[trigger] items[k]).image_ref == image_ref && items[k].state
            != ItemState::Image {
        let k = choose|k: int|
            0 <= k < items.len() && (#[trigger] items[k]).image_ref == image_ref && items[k].state
                != ItemState::Image;
        items.lemma_filter_contains(pred, k);
        let j = some.index_of(items[k]);
        assert(some_refs[j] == image_ref);
    }
}

/// One more image is added, as it is and at the end, if and only if no item before it has its image
/// reference. With no images, the items are the containers.
pub proof fn one_more_image_is_added_as_it_is(
    items: Seq<ContainerInfoView>,
    images: Seq<ContainerInfoView>,
    image: ContainerInfoView,
)
    ensures
        merged(items, Seq::empty()) == items,
        ({
            let all = merged(items, images);
            let there = exists|k: int|
                0 <= k < all.len() && (#[trigger] all[k]).image_ref == image.image_ref;
            &&& there ==> merged(items, images.push(image)) == all
            &&& !there ==> merged(items, images.push(image)) == all.push(image)
        }),
    decreases images.len(),
{
    let more = images.push(image);
    if images.len() == 0 {
        assert(more.skip(1) =~= Seq::empty());
        assert(more[0] == image);
        references_are_those_of_the_items(items, image.image_ref);
        assert(merged(items, more.skip(1)) == items);
        assert(merged(items.push(image), more.skip(1)) == items.push(image));
    } else {
        let first = images[0];
        assert(more[0] == first);
        assert(more.skip(1) =~= images.skip(1).push(image));
        if refs_of(items).contains(first.image_ref) {
            one_more_image_is_added_as_it_is(items, images.skip(1), image);
        } else {
            one_more_image_is_added_as_it_is(items.push(first), images.skip(1), image);
        }
    }
}

/// Every item that merging adds is one of the images, in all that it says: the first one with its
/// image reference.
pub proof fn added_item_is_the_first_such_image(
    items: Seq<ContainerInfoView>,
    images: Seq<ContainerInfoView>,
    k: int,
)
    requires
        items.len() <= k < merged(items, images).len(),
    ensures
        exists|i: int|
            0 <= i < images.len() && merged(items, images)[k] == #[trigger] images[i] && (forall|
                j: int,
            |
                0 <= j < i ==> (#[trigger] images[j]).image_ref != images[i].image_ref),
    decreases images.len(),
{
    merging_adds_each_image_once(items, images);
    if images.len() == 0 {
        one_more_image_is_added_as_it_is(
            items,
            images,
            ContainerInfoView {
                display_name: Seq::empty(),
                image_ref: Seq::empty(),
                local_digest: None,
                state: ItemState::Image,
            },
        );
        assert(images =~= Seq::empty());
    } else {
        let front = images.drop_last();
        let image = images.last();
        let all = merged(items, front);
        assert(images =~= front.push(image));
        one_more_image_is_added_as_it_is(items, front, image);
        merging_adds_each_image_once(items, front);
        if k < all.len() {
            added_item_is_the_first_such_image(items, front, k);
            let i = choose|i: int|
                0 <= i < front.len() && all[k] == #[trigger] front[i] && (forall|j: int|
                    0 <= j < i ==> (#[trigger] front[j]).image_ref != front[i].image_ref);
            assert(images[i] == front[i]);
            assert forall|j: int| 0 <= j < i implies (#[trigger] images[j]).image_ref
                != images[i].image_ref by {
                assert(front[j] == images[j]);
            }
        } else {
            let last = images.len() - 1;
            assert(merged(items, images)[k] == images[last]);
            assert forall|j: int| 0 <= j < last implies (#[trigger] images[j]).image_ref
                != images[last].image_ref by {
                assert(front[j] == images[j]);
                references_are_those_of_the_items(front, images[j].image_ref);
                assert(refs_of(all).contains(images[j].image_ref));
                references_are_those_of_the_items(all, images[j].image_ref);
            }
        }
    }
}

/// One more item adds one to the count of its own state, and to no other.
pub proof fn one_more_item_is_counted_in_its_state(
    items: Seq<ContainerInfoView>,
    item: ContainerInfoView,
    state: ItemState,
)
    ensures
        count_in_state(Seq::empty(), state) == 0,
        count_in_state(items.push(item), state) == count_in_state(items, state) + if item.state
            == state {
            1nat
        } else {
            0nat
        },
{
    reveal(Seq::filter);
    assert(items.push(item).drop_last() =~= items);
}

} // verus!
