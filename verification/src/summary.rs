//! The results of all checks together: their order, and what they add up to.

use vstd::prelude::*;

use crate::checker::findings;
use crate::docker::ImageSummary;
use crate::images;
use crate::string_set::StringSet;
use crate::text;
use crate::types::{CheckResult, CheckResultView};

verus! {

/// Whether `results` are in the order of their names.
pub open spec fn in_order(results: Seq<CheckResult>) -> bool {
    forall|i: int, j: int|
        #![trigger results[i], results[j]]
        0 <= i < j < results.len() ==> text::text_le(results[i]@.name(), results[j]@.name())
}

/// Those of `results` with the name `name`, in the order in which they stand.
pub open spec fn with_name(results: Seq<CheckResult>, name: Seq<char>) -> Seq<CheckResult> {
    results.filter(|result: CheckResult| result@.name() == name)
}

/// A single result is kept or left out.
proof fn with_name_of_one(result: CheckResult, name: Seq<char>)
    ensures
        with_name(seq![result], name) == if result@.name() == name {
            seq![result]
        } else {
            Seq::empty()
        },
{
    reveal(Seq::filter);
    let one = seq![result];
    assert(one.drop_last() =~= Seq::empty());
    assert(with_name(one.drop_last(), name) =~= Seq::empty());
    assert(one =~= Seq::<CheckResult>::empty().push(result));
}

/// Where no result has the name `name`, all are left out.
proof fn with_name_of_others(results: Seq<CheckResult>, name: Seq<char>)
    requires
        forall|i: int| 0 <= i < results.len() ==> (#[trigger] results[i])@.name() != name,
    ensures
        with_name(results, name) =~= Seq::<CheckResult>::empty(),
    decreases results.len(),
{
    reveal(Seq::filter);
    if results.len() > 0 {
        assert forall|i: int| 0 <= i < results.drop_last().len() implies (
        #[trigger] results.drop_last()[i])@.name() != name by {
            assert(results.drop_last()[i] == results[i]);
        }
        with_name_of_others(results.drop_last(), name);
        assert(results.last() == results[results.len() - 1]);
    }
}

/// Putting a result before all that have its name leaves it the first with its name.
proof fn with_name_after_insert(
    results: Seq<CheckResult>,
    at: int,
    result: CheckResult,
    name: Seq<char>,
)
    requires
        0 <= at <= results.len(),
        forall|i: int| 0 <= i < at ==> (#[trigger] results[i])@.name() != result@.name(),
    ensures
        with_name(results.insert(at, result), name) == with_name(seq![result], name) + with_name(
            results,
            name,
        ),
{
    let pred = |result: CheckResult| result@.name() == name;
    let front = results.take(at);
    let back = results.skip(at);
    assert(results.insert(at, result) =~= front + seq![result] + back);
    assert(results =~= front + back);
    Seq::filter_distributes_over_add(front + seq![result], back, pred);
    Seq::filter_distributes_over_add(front, seq![result], pred);
    Seq::filter_distributes_over_add(front, back, pred);
    with_name_of_one(result, name);
    if result@.name() == name {
        with_name_of_others(front, name);
        assert(front.filter(pred) + seq![result] + back.filter(pred) =~= seq![result] + (
        front.filter(pred) + back.filter(pred)));
    } else {
        assert(front.filter(pred) + Seq::empty() + back.filter(pred) =~= Seq::empty() + (
        front.filter(pred) + back.filter(pred)));
    }
}

/// Where a result belongs among results that are in order: before the first that comes no earlier.
fn place_for(results: &Vec<CheckResult>, result: &CheckResult) -> (at: usize)
    requires
        in_order(results@),
    ensures
        at <= results.len(),
        forall|i: int|
            0 <= i < at ==> !text::text_le(result@.name(), (#[trigger] results@[i])@.name()),
        forall|i: int|
            at <= i < results.len() ==> text::text_le(
                result@.name(),
                (#[trigger] results@[i])@.name(),
            ),
{
    let mut at: usize = 0;
    while at < results.len()
        invariant
            at <= results.len(),
            in_order(results@),
            forall|i: int|
                0 <= i < at ==> !text::text_le(result@.name(), (#[trigger] results@[i])@.name()),
        decreases results.len() - at,
    {
        if text::text_at_most(result.sort_key(), results[at].sort_key()) {
            assert forall|i: int| at <= i < results.len() implies text::text_le(
                result@.name(),
                (#[trigger] results@[i])@.name(),
            ) by {
                if i > at {
                    assert(results@[at as int]@.name() == results@[at as int]@.name());
                    text::text_le_transitive(
                        result@.name(),
                        results@[at as int]@.name(),
                        results@[i]@.name(),
                    );
                }
            }
            return at;
        }
        at += 1;
    }
    at
}

/// Puts the results in the order of their names; results with the same name keep their order.
pub fn sort_results(results: Vec<CheckResult>) -> (sorted: Vec<CheckResult>)
    ensures
        in_order(sorted@),
        sorted@.len() == results@.len(),
        forall|name: Seq<char>| #[trigger] with_name(sorted@, name) == with_name(results@, name),
{
    let ghost all = results@;
    let mut rest = results;
    let mut sorted: Vec<CheckResult> = Vec::new();
    assert forall|name: Seq<char>| #[trigger]
        with_name(all, name) == with_name(rest@, name) + with_name(sorted@, name) by {
        with_name_of_others(sorted@, name);
        assert(with_name(rest@, name) + with_name(sorted@, name) =~= with_name(rest@, name));
    }
    while rest.len() > 0
        invariant
            in_order(sorted@),
            rest@.len() + sorted@.len() == all.len(),
            forall|name: Seq<char>| #[trigger]
                with_name(all, name) == with_name(rest@, name) + with_name(sorted@, name),
        decreases rest.len(),
    {
        let ghost rest_before = rest@;
        let ghost before = sorted@;
        let result = match rest.pop() {
            Some(result) => result,
            None => {
                return sorted;
            },
        };
        let at = place_for(&sorted, &result);
        sorted.insert(at, result);
        proof {
            assert forall|i: int| 0 <= i < at implies (#[trigger] before[i])@.name()
                != result@.name() by {
                text::text_le_reflexive(result@.name());
            }
            assert forall|name: Seq<char>| #[trigger]
                with_name(all, name) == with_name(rest@, name) + with_name(sorted@, name) by {
                with_name_after_insert(before, at as int, result, name);
                let pred = |result: CheckResult| result@.name() == name;
                assert(rest_before =~= rest@ + seq![result]);
                Seq::filter_distributes_over_add(rest@, seq![result], pred);
                assert(with_name(rest@, name) + with_name(seq![result], name) + with_name(
                    before,
                    name,
                ) =~= with_name(rest@, name) + (with_name(seq![result], name) + with_name(
                    before,
                    name,
                )));
            }
            assert forall|i: int, j: int|
                #![trigger sorted@[i], sorted@[j]]
                0 <= i < j < sorted@.len() implies text::text_le(
                sorted@[i]@.name(),
                sorted@[j]@.name(),
            ) by {
                if i < at {
                    assert(sorted@[i] == before[i]);
                    if j == at {
                        text::text_le_total(before[i]@.name(), result@.name());
                    } else if j < at {
                        assert(sorted@[j] == before[j]);
                    } else {
                        assert(sorted@[j] == before[j - 1]);
                    }
                } else if i == at {
                    assert(sorted@[j] == before[j - 1]);
                } else {
                    assert(sorted@[i] == before[i - 1]);
                    assert(sorted@[j] == before[j - 1]);
                }
            }
        }
    }
    proof {
        assert forall|name: Seq<char>| #[trigger]
            with_name(sorted@, name) == with_name(all, name) by {
            with_name_of_others(rest@, name);
            assert(with_name(all, name) == with_name(rest@, name) + with_name(sorted@, name));
            assert(Seq::<CheckResult>::empty() + with_name(sorted@, name) =~= with_name(
                sorted@,
                name,
            ));
        }
    }
    sorted
}

/// The results with the name of the first one start with it.
proof fn with_name_of_first(results: Seq<CheckResult>, name: Seq<char>)
    requires
        results.len() > 0,
    ensures
        with_name(results, name) == with_name(seq![results[0]], name) + with_name(
            results.skip(1),
            name,
        ),
{
    let pred = |result: CheckResult| result@.name() == name;
    assert(results =~= seq![results[0]] + results.skip(1));
    Seq::filter_distributes_over_add(seq![results[0]], results.skip(1), pred);
}

/// A result with the name `name` among `results` comes no earlier than the first of them.
proof fn first_is_first(results: Seq<CheckResult>, name: Seq<char>)
    requires
        in_order(results),
        with_name(results, name).len() > 0,
    ensures
        results.len() > 0,
        text::text_le(results[0]@.name(), name),
{
    reveal(Seq::filter);
    let pred = |result: CheckResult| result@.name() == name;
    results.lemma_filter_pred(pred, 0);
    let result = results.filter(pred)[0];
    assert(results.filter(pred).contains(result));
    results.lemma_filter_contains_rev(pred, result);
    let i = results.index_of(result);
    assert(results[i] == result);
    text::text_le_reflexive(name);
    if i > 0 {
        assert(text::text_le(results[0]@.name(), results[i]@.name()));
    }
}

/// There is only one way to put results in order by name that leaves the order of results with
/// the same name as it was.
pub proof fn order_is_determined(sorted: Seq<CheckResult>, other: Seq<CheckResult>)
    requires
        in_order(sorted),
        in_order(other),
        forall|name: Seq<char>| #[trigger] with_name(sorted, name) == with_name(other, name),
    ensures
        sorted == other,
    decreases sorted.len(),
{
    if sorted.len() == 0 {
        if other.len() > 0 {
            let name = other[0]@.name();
            with_name_of_first(other, name);
            with_name_of_one(other[0], name);
            with_name_of_others(sorted, name);
            assert(with_name(sorted, name) == with_name(other, name));
        }
        assert(sorted =~= other);
    } else {
        let name = sorted[0]@.name();
        with_name_of_first(sorted, name);
        with_name_of_one(sorted[0], name);
        assert(with_name(sorted, name) == with_name(other, name));
        first_is_first(other, name);
        let other_name = other[0]@.name();
        with_name_of_first(other, other_name);
        with_name_of_one(other[0], other_name);
        assert(with_name(sorted, other_name) == with_name(other, other_name));
        first_is_first(sorted, other_name);
        text::text_le_antisymmetric(name, other_name);
        assert(with_name(sorted, name)[0] == sorted[0]);
        assert(with_name(other, name)[0] == other[0]);
        let rest = sorted.skip(1);
        let other_rest = other.skip(1);
        assert forall|any: Seq<char>| #[trigger]
            with_name(rest, any) == with_name(other_rest, any) by {
            with_name_of_first(sorted, any);
            with_name_of_first(other, any);
            assert(with_name(sorted, any) == with_name(other, any));
            let n = with_name(seq![sorted[0]], any).len() as int;
            assert(with_name(rest, any) =~= with_name(sorted, any).skip(n));
            assert(with_name(other_rest, any) =~= with_name(other, any).skip(n));
        }
        assert(in_order(rest)) by {
            assert forall|i: int, j: int|
                #![trigger rest[i], rest[j]]
                0 <= i < j < rest.len() implies text::text_le(
                rest[i]@.name(),
                rest[j]@.name(),
            ) by {
                assert(rest[i] == sorted[i + 1] && rest[j] == sorted[j + 1]);
            }
        }
        assert(in_order(other_rest)) by {
            assert forall|i: int, j: int|
                #![trigger other_rest[i], other_rest[j]]
                0 <= i < j < other_rest.len() implies text::text_le(
                other_rest[i]@.name(),
                other_rest[j]@.name(),
            ) by {
                assert(other_rest[i] == other[i + 1] && other_rest[j] == other[j + 1]);
            }
        }
        order_is_determined(rest, other_rest);
        assert(sorted =~= seq![sorted[0]] + rest);
        assert(other =~= seq![other[0]] + other_rest);
    }
}

/// Sorting keeps every result and adds none.
pub proof fn sorting_keeps_every_result(
    sorted: Seq<CheckResult>,
    results: Seq<CheckResult>,
    result: CheckResult,
)
    requires
        forall|name: Seq<char>| #[trigger] with_name(sorted, name) == with_name(results, name),
    ensures
        sorted.contains(result) <==> results.contains(result),
{
    let name = result@.name();
    let pred = |result: CheckResult| result@.name() == name;
    assert(with_name(sorted, name) == with_name(results, name));
    if sorted.contains(result) {
        sorted.lemma_filter_contains(pred, sorted.index_of(result));
        results.lemma_filter_contains_rev(pred, result);
    }
    if results.contains(result) {
        results.lemma_filter_contains(pred, results.index_of(result));
        sorted.lemma_filter_contains_rev(pred, result);
    }
}

/// How many results of each kind there are.
#[derive(Debug, Clone, Copy, PartialEq, Eq, Structural)]
pub struct Summary {
    pub up_to_date: usize,
    pub updates: usize,
    /// The updates that are already pulled and need only a restart.
    pub restart_only: usize,
    pub local_only: usize,
    pub errors: usize,
}

/// Whether `finding` is an update that needs only a restart.
pub open spec fn needs_restart(finding: CheckResultView) -> bool {
    finding matches CheckResultView::UpdateAvailable { already_pulled, .. } && already_pulled
}

/// Whether `summary` says how many findings of each kind there are.
pub open spec fn sums_up(summary: Summary, findings: Seq<CheckResultView>) -> bool {
    &&& summary.up_to_date == findings.filter(|finding: CheckResultView| finding is UpToDate).len()
    &&& summary.updates == findings.filter(
        |finding: CheckResultView| finding is UpdateAvailable,
    ).len()
    &&& summary.restart_only == findings.filter(
        |finding: CheckResultView| needs_restart(finding),
    ).len()
    &&& summary.local_only == findings.filter(
        |finding: CheckResultView| finding is LocalOnly,
    ).len()
    &&& summary.errors == findings.filter(|finding: CheckResultView| finding is Error).len()
}

impl Summary {
    /// The number of items that were checked.
    pub open spec fn checked(self) -> int {
        self.up_to_date + self.updates + self.local_only + self.errors
    }

    /// The exit code of the program: two where an update is available, and zero otherwise.
    pub fn exit_code(&self) -> (code: i32)
        ensures
            code == if self.updates > 0 {
                2i32
            } else {
                0i32
            },
    {
        if self.updates > 0 {
            2
        } else {
            0
        }
    }
}

/// Counts the results of each kind.
pub fn tally(results: &Vec<CheckResult>) -> (summary: Summary)
    ensures
        sums_up(summary, findings(results@)),
        summary.checked() == results@.len(),
        summary.restart_only <= summary.updates,
{
    let mut summary = Summary {
        up_to_date: 0,
        updates: 0,
        restart_only: 0,
        local_only: 0,
        errors: 0,
    };
    let mut i: usize = 0;
    proof {
        reveal(Seq::filter);
        assert(findings(results@).take(0) =~= Seq::empty());
    }
    while i < results.len()
        invariant
            i <= results.len(),
            sums_up(summary, findings(results@).take(i as int)),
            summary.checked() == i,
            summary.restart_only <= summary.updates,
        decreases results.len() - i,
    {
        proof {
            reveal(Seq::filter);
            let longer = findings(results@).take(i + 1);
            assert(longer.drop_last() =~= findings(results@).take(i as int));
            assert(longer.last() == results@[i as int]@);
        }
        match &results[i] {
            CheckResult::UpToDate { .. } => {
                summary.up_to_date += 1;
            },
            CheckResult::UpdateAvailable { already_pulled, .. } => {
                summary.updates += 1;
                if *already_pulled {
                    summary.restart_only += 1;
                }
            },
            CheckResult::LocalOnly { .. } => {
                summary.local_only += 1;
            },
            CheckResult::Error { .. } => {
                summary.errors += 1;
            },
        }
        i += 1;
    }
    assert(findings(results@).take(i as int) =~= findings(results@));
    summary
}

/// The digests of the updates that need only a restart.
pub open spec fn restart_digests(findings: Seq<CheckResultView>) -> Set<Seq<char>> {
    Set::new(
        |digest: Seq<char>|
            exists|i: int|
                0 <= i < findings.len() && needs_restart(#[trigger] findings[i])
                    && findings[i]->remote == digest,
    )
}

/// The digests of the updates that need only a restart.
pub fn pulled_digests(results: &Vec<CheckResult>) -> (digests: StringSet)
    ensures
        digests@ == restart_digests(findings(results@)),
{
    let mut digests = StringSet::new();
    let mut i: usize = 0;
    let ghost all = findings(results@);
    while i < results.len()
        invariant
            i <= results.len(),
            all == findings(results@),
            forall|digest: Seq<char>| #[trigger]
                digests@.contains(digest) <==> exists|k: int|
                    0 <= k < i && needs_restart(#[trigger] all[k]) && all[k]->remote == digest,
        decreases results.len() - i,
    {
        let ghost before = digests@;
        assert(all[i as int] == results@[i as int]@);
        if let CheckResult::UpdateAvailable { remote, already_pulled, .. } = &results[i] {
            if *already_pulled {
                digests.insert(remote.clone());
            }
        }
        i += 1;
    }
    assert(digests@ =~= restart_digests(all));
    digests
}

/// The program reports an update by its exit code if and only if a check found one.
pub proof fn exit_code_tells_of_updates(summary: Summary, findings: Seq<CheckResultView>)
    requires
        sums_up(summary, findings),
    ensures
        summary.updates > 0 <==> exists|i: int|
            0 <= i < findings.len() && (#[trigger] findings[i]) is UpdateAvailable,
{
    let pred = |finding: CheckResultView| finding is UpdateAvailable;
    if summary.updates > 0 {
        findings.lemma_filter_pred(pred, 0);
        let finding = findings.filter(pred)[0];
        assert(findings.filter(pred).contains(finding));
        findings.lemma_filter_contains_rev(pred, finding);
        let i = findings.index_of(finding);
        assert(findings[i] is UpdateAvailable);
    }
    if exists|i: int| 0 <= i < findings.len() && (#[trigger] findings[i]) is UpdateAvailable {
        let i = choose|i: int|
            0 <= i < findings.len() && (#[trigger] findings[i]) is UpdateAvailable;
        findings.lemma_filter_contains(pred, i);
    }
}

/// An image that was pulled as an update, and waits for the container that runs the old one to be
/// restarted, does not count as unused.
pub proof fn pulled_update_is_not_unused(
    results: Seq<CheckResultView>,
    i: int,
    used: Set<Seq<char>>,
    refs: Set<Seq<char>>,
    images: Seq<ImageSummary>,
    image: ImageSummary,
)
    requires
        0 <= i < results.len(),
        needs_restart(results[i]),
        images::has_digest(image, results[i]->remote),
    ensures
        !images::removable_unused(used, refs, restart_digests(results), images).contains(image),
{
    let digest = results[i]->remote;
    let pulled = restart_digests(results);
    assert(pulled.contains(digest));
    let j = choose|j: int|
        0 <= j < image.repo_digests@.len() && text::second_field(
            #[trigger] image.repo_digests@[j]@,
            '@',
        ) == Some(digest);
    assert(images::has_digest_in(image, pulled));
    images::filtered_members(
        images,
        |image: ImageSummary| images::is_removable_unused(used, refs, pulled, image),
        image,
    );
}

/// Of results that are in order, none has a name that comes after the name of a later one.
pub proof fn names_go_up(results: Seq<CheckResult>, i: int, j: int)
    requires
        0 <= i < j < results.len(),
        in_order(results),
    ensures
        text::text_le(results[i]@.name(), results[j]@.name()),
{
}

/// One more result is the last with its name, and makes no difference to the others.
pub proof fn one_more_result_goes_by_its_name(
    results: Seq<CheckResult>,
    result: CheckResult,
    name: Seq<char>,
)
    ensures
        with_name(Seq::empty(), name).len() == 0,
        result@.name() == name ==> with_name(results.push(result), name) == with_name(
            results,
            name,
        ).push(result),
        result@.name() != name ==> with_name(results.push(result), name) == with_name(
            results,
            name,
        ),
{
    reveal(Seq::filter);
    assert(results.push(result).drop_last() =~= results);
}

/// One more finding adds one to the count of its own kind, and an update that needs only a restart
/// adds one to those as well. Without findings every count is zero.
pub proof fn one_more_finding_is_counted_in_its_kind(
    summary: Summary,
    findings: Seq<CheckResultView>,
    more: Summary,
    finding: CheckResultView,
)
    requires
        sums_up(summary, findings),
        sums_up(more, findings.push(finding)),
    ensures
        more.up_to_date == summary.up_to_date + if finding is UpToDate {
            1int
        } else {
            0int
        },
        more.updates == summary.updates + if finding is UpdateAvailable {
            1int
        } else {
            0int
        },
        more.restart_only == summary.restart_only + if finding is UpdateAvailable
            && finding->already_pulled {
            1int
        } else {
            0int
        },
        more.local_only == summary.local_only + if finding is LocalOnly {
            1int
        } else {
            0int
        },
        more.errors == summary.errors + if finding is Error {
            1int
        } else {
            0int
        },
        summary.checked() == summary.up_to_date + summary.updates + summary.local_only
            + summary.errors,
        findings.len() == 0 ==> summary.checked() == 0 && summary.restart_only == 0,
{
    reveal(Seq::filter);
    assert(findings.push(finding).drop_last() =~= findings);
}

/// A digest waits for a restart if and only if some update that is already pulled has it at the
/// registry.
pub proof fn digests_are_those_of_pulled_updates(
    findings: Seq<CheckResultView>,
    digest: Seq<char>,
)
    ensures
        restart_digests(findings).contains(digest) <==> exists|i: int|
            0 <= i < findings.len() && (#[trigger] findings[i]) is UpdateAvailable
                && findings[i]->already_pulled && findings[i]->remote == digest,
{
    if restart_digests(findings).contains(digest) {
        let i = choose|i: int|
            0 <= i < findings.len() && needs_restart(#[trigger] findings[i]) && findings[i]->remote
                == digest;
        assert(findings[i] is UpdateAvailable && findings[i]->already_pulled);
    }
    if exists|i: int|
        0 <= i < findings.len() && (#[trigger] findings[i]) is UpdateAvailable
            && findings[i]->already_pulled && findings[i]->remote == digest {
        let i = choose|i: int|
            0 <= i < findings.len() && (#[trigger] findings[i]) is UpdateAvailable
                && findings[i]->already_pulled && findings[i]->remote == digest;
        assert(needs_restart(findings[i]));
    }
}

} // verus!
