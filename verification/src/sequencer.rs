//! Ordering, pairing and filtering of dated versions.
//!
//! Versions are sorted from the newest to the oldest, each is paired with the
//! one that follows it, and the pairs are then narrowed to the selected
//! versions and, on request, to the newest pair alone.

use crate::precedence::Precedence;
use crate::model::models;
use crate::record::{DatedVersionModel, DatedVersionRecord, VersionPair, VersionPairModel};
use crate::version::{
    lemma_version_order_reverses, lemma_version_order_same, lemma_version_order_transitive,
    numerically_greater, version_order, Version, VersionModel,
};
use vstd::prelude::*;

verus! {

/// Whether no version of `s` is lower than one that follows it.
pub open spec fn sorted_descending(s: Seq<DatedVersionModel>) -> bool {
    forall|i: int, j: int|
        0 <= i < j < s.len() ==> version_order(
            #[trigger] s[i].record.version,
            #[trigger] s[j].record.version,
        ) != Precedence::Lower
}

/// The first index from `i` on whose version is not higher than `v`, or the
/// length of `s` where every version from `i` on is higher.
pub open spec fn insertion_point_from(s: Seq<DatedVersionModel>, v: VersionModel, i: int) -> int
    decreases s.len() - i,
{
    if i >= s.len() || version_order(s[i].record.version, v) != Precedence::Higher {
        i
    } else {
        insertion_point_from(s, v, i + 1)
    }
}

/// Where a record of version `v` enters the descending sequence `s`: behind
/// every higher version and before every other.
pub open spec fn insertion_point(s: Seq<DatedVersionModel>, v: VersionModel) -> int {
    insertion_point_from(s, v, 0)
}

/// The records of `s` from the highest version to the lowest. Of two records
/// of one version, the one that comes later in `s` comes first.
pub open spec fn sorted_by_version(s: Seq<DatedVersionModel>) -> Seq<DatedVersionModel>
    decreases s.len(),
{
    if s.len() == 0 {
        s
    } else {
        let before = sorted_by_version(s.drop_last());
        before.insert(insertion_point(before, s.last().record.version), s.last())
    }
}

/// The insertion point lies behind the higher versions and at a version that
/// is not higher.
pub proof fn lemma_insertion_point(s: Seq<DatedVersionModel>, v: VersionModel, i: int)
    requires
        0 <= i <= s.len(),
    ensures
        i <= insertion_point_from(s, v, i) <= s.len(),
        forall|j: int|
            i <= j < insertion_point_from(s, v, i) ==> version_order(
                #[trigger] s[j].record.version,
                v,
            ) == Precedence::Higher,
        insertion_point_from(s, v, i) < s.len() ==> version_order(
            s[insertion_point_from(s, v, i)].record.version,
            v,
        ) != Precedence::Higher,
    decreases s.len() - i,
{
    if i < s.len() && version_order(s[i].record.version, v) == Precedence::Higher {
        lemma_insertion_point(s, v, i + 1);
    }
}

/// Entering a record at its insertion point keeps a descending sequence
/// descending.
proof fn lemma_insert_keeps_sorted(s: Seq<DatedVersionModel>, x: DatedVersionModel)
    requires
        sorted_descending(s),
    ensures
        sorted_descending(s.insert(insertion_point(s, x.record.version), x)),
{
    let v = x.record.version;
    let p = insertion_point(s, v);
    lemma_insertion_point(s, v, 0);
    let t = s.insert(p, x);
    assert forall|i: int, j: int| 0 <= i < j < t.len() implies version_order(
        #[trigger] t[i].record.version,
        #[trigger] t[j].record.version,
    ) != Precedence::Lower by {
        if j < p {
        } else if j == p {
            assert(t[i] == s[i]);
        } else if i == p {
            // every record behind the insertion point is at most `s[p]`, which is at most `x`
            let k = j - 1;
            assert(t[j] == s[k]);
            lemma_version_order_reverses(s[p].record.version, s[k].record.version);
            lemma_version_order_reverses(s[k].record.version, v);
            if k > p {
                lemma_version_order_transitive(s[k].record.version, s[p].record.version, v);
            }
        } else if i < p {
            assert(t[i] == s[i]);
            assert(t[j] == s[j - 1]);
        } else {
            assert(t[i] == s[i - 1]);
            assert(t[j] == s[j - 1]);
        }
    }
}

/// Entering a record adds it once to what the sequence holds.
proof fn lemma_insert_adds_one(s: Seq<DatedVersionModel>, p: int, x: DatedVersionModel)
    requires
        0 <= p <= s.len(),
    ensures
        s.insert(p, x).len() == s.len() + 1,
        s.insert(p, x).to_multiset() == s.to_multiset().insert(x),
{
    let after = s.insert(p, x);
    assert(after.remove(p) =~= s);
    vstd::seq_lib::to_multiset_remove(after, p);
    after.to_multiset_ensures();
}

/// Sorting gives a descending sequence.
pub proof fn lemma_sorted_by_version_descends(s: Seq<DatedVersionModel>)
    ensures
        sorted_descending(sorted_by_version(s)),
    decreases s.len(),
{
    if s.len() > 0 {
        lemma_sorted_by_version_descends(s.drop_last());
        lemma_insert_keeps_sorted(sorted_by_version(s.drop_last()), s.last());
    }
}

/// Sorting keeps the records, each as often as before.
pub proof fn lemma_sorted_by_version_permutes(s: Seq<DatedVersionModel>)
    ensures
        sorted_by_version(s).len() == s.len(),
        sorted_by_version(s).to_multiset() == s.to_multiset(),
    decreases s.len(),
{
    if s.len() > 0 {
        let before = sorted_by_version(s.drop_last());
        let p = insertion_point(before, s.last().record.version);
        lemma_sorted_by_version_permutes(s.drop_last());
        lemma_insertion_point(before, s.last().record.version, 0);
        lemma_insert_adds_one(before, p, s.last());
        assert(s =~= s.drop_last().push(s.last()));
        vstd::seq_lib::to_multiset_build(s.drop_last(), s.last());
    }
}

/// Sorting puts a numerically greater version before every version that it
/// is greater than.
pub proof fn lemma_numerically_greater_comes_first(records: Seq<DatedVersionModel>, i: int, j: int)
    requires
        0 <= i < records.len(),
        0 <= j < records.len(),
        numerically_greater(
            sorted_by_version(records)[i].record.version,
            sorted_by_version(records)[j].record.version,
        ),
    ensures
        i < j,
{
    lemma_sorted_by_version_descends(records);
    lemma_sorted_by_version_permutes(records);
}

/// Sorts the records from the highest version to the lowest.
pub fn sort_versions(records: Vec<DatedVersionRecord>) -> (sorted: Vec<DatedVersionRecord>)
    ensures
        models(sorted@) == sorted_by_version(models(records@)),
        sorted_descending(models(sorted@)),
        models(sorted@).to_multiset() == models(records@).to_multiset(),
        forall|i: int, j: int|
            0 <= i < sorted.len() && 0 <= j < sorted.len() && numerically_greater(
                #[trigger] sorted@[i]@.record.version,
                #[trigger] sorted@[j]@.record.version,
            ) ==> i < j,
{
    let mut sorted: Vec<DatedVersionRecord> = Vec::new();
    for record in it: records
        invariant
            it.seq() == records@,
            models(sorted@) == sorted_by_version(models(records@).take(it.index() as int)),
    {
        let ghost before = models(sorted@);
        let mut p: usize = 0;
        while p < sorted.len() && matches!(
            sorted[p].record.version.compare(&record.record.version),
            Precedence::Higher
        )
            invariant
                p <= sorted.len(),
                before == models(sorted@),
                insertion_point_from(before, record@.record.version, p as int) == insertion_point(
                    before,
                    record@.record.version,
                ),
            decreases sorted.len() - p,
        {
            p += 1;
        }
        sorted.insert(p, record);
        assert(models(records@).take(it.index() + 1).drop_last() =~= models(records@).take(
            it.index() as int,
        ));
    }
    proof {
        assert(models(records@).take(records.len() as int) =~= models(records@));
        lemma_sorted_by_version_descends(models(records@));
        lemma_sorted_by_version_permutes(models(records@));
        assert forall|i: int, j: int|
            0 <= i < sorted.len() && 0 <= j < sorted.len() && numerically_greater(
                #[trigger] sorted@[i]@.record.version,
                #[trigger] sorted@[j]@.record.version,
            ) implies i < j by {
            lemma_numerically_greater_comes_first(models(records@), i, j);
        }
    }
    sorted
}

/// Each record of `s` but the last, paired with the record that follows it.
pub open spec fn paired(s: Seq<DatedVersionModel>) -> Seq<VersionPairModel> {
    Seq::new(
        if s.len() > 0 {
            (s.len() - 1) as nat
        } else {
            0
        },
        |i: int| VersionPairModel { current: s[i], previous: s[i + 1] },
    )
}

/// In the pairs of a descending sequence the current version is higher than
/// the previous one, or the same where the sequence holds a version twice.
pub proof fn lemma_pairs_descend(s: Seq<DatedVersionModel>, i: int)
    requires
        sorted_descending(s),
        0 <= i < paired(s).len(),
    ensures
        version_order(paired(s)[i].current.record.version, paired(s)[i].previous.record.version)
            != Precedence::Lower,
        paired(s)[i].current.record.version != paired(s)[i].previous.record.version
            ==> version_order(
            paired(s)[i].current.record.version,
            paired(s)[i].previous.record.version,
        ) == Precedence::Higher,
{
    lemma_version_order_same(s[i].record.version, s[i + 1].record.version);
}

/// Pairs each version with the one that follows it. The last version, which
/// nothing follows, is in no pair as the current one.
pub fn pair_versions(versions: Vec<DatedVersionRecord>) -> (pairs: Vec<VersionPair>)
    ensures
        pairs.len() == if versions.len() > 0 {
            versions.len() - 1
        } else {
            0
        },
        models(pairs@) == paired(models(versions@)),
        forall|i: int|
            0 <= i < pairs.len() ==> (#[trigger] pairs@[i]).current == versions@[i]
                && pairs@[i].previous == versions@[i + 1],
{
    let mut pairs: Vec<VersionPair> = Vec::new();
    let mut i: usize = 1;
    while i < versions.len()
        invariant
            1 <= i,
            pairs.len() == i - 1,
            i <= versions.len() || i == 1,
            forall|k: int|
                0 <= k < pairs.len() ==> (#[trigger] pairs@[k]).current == versions@[k]
                    && pairs@[k].previous == versions@[k + 1],
        decreases versions.len() - i,
    {
        let pair = VersionPair { current: versions[i - 1].clone(), previous: versions[i].clone() };
        pairs.push(pair);
        i += 1;
    }
    pairs
}

/// Whether the version `v` is one of `selected`.
pub open spec fn is_selected(selected: Seq<VersionModel>, v: VersionModel) -> bool {
    exists|k: int| 0 <= k < selected.len() && selected[k] == v
}

/// The pairs of `pairs` whose current version is one of `selected`, in the
/// order in which `pairs` holds them.
pub open spec fn selected_pairs(
    pairs: Seq<VersionPairModel>,
    selected: Seq<VersionModel>,
) -> Seq<VersionPairModel>
    decreases pairs.len(),
{
    if pairs.len() == 0 {
        pairs
    } else {
        let before = selected_pairs(pairs.drop_last(), selected);
        if is_selected(selected, pairs.last().current.record.version) {
            before.push(pairs.last())
        } else {
            before
        }
    }
}

/// The pairs that a selection keeps: all of them where nothing is selected.
pub open spec fn selection(
    pairs: Seq<VersionPairModel>,
    selected: Option<Seq<VersionModel>>,
) -> Seq<VersionPairModel> {
    match selected {
        Some(versions) => selected_pairs(pairs, versions),
        None => pairs,
    }
}

/// The view of an optional list of versions.
pub open spec fn selection_model(selected: Option<Vec<Version>>) -> Option<Seq<VersionModel>> {
    match selected {
        Some(versions) => Some(models(versions@)),
        None => None,
    }
}

/// A selection keeps pairs of the input in their order: the result is the
/// input at the returned indices, which grow strictly. Every kept pair is a
/// pair of the input as it was, predecessor included; its current version is
/// selected, and every pair with a selected current version is kept.
pub proof fn lemma_selection_is_ordered_part(
    pairs: Seq<VersionPairModel>,
    selected: Seq<VersionModel>,
) -> (indices: Seq<int>)
    ensures
        indices.len() == selected_pairs(pairs, selected).len(),
        forall|k: int|
            0 <= k < indices.len() ==> 0 <= #[trigger] indices[k] < pairs.len() && selected_pairs(
                pairs,
                selected,
            )[k] == pairs[indices[k]],
        forall|k: int, l: int| 0 <= k < l < indices.len() ==> indices[k] < indices[l],
        forall|k: int|
            0 <= k < indices.len() ==> is_selected(
                selected,
                (#[trigger] selected_pairs(pairs, selected)[k]).current.record.version,
            ),
        forall|i: int|
            0 <= i < pairs.len() && is_selected(
                selected,
                (#[trigger] pairs[i]).current.record.version,
            ) ==> indices.contains(i),
    decreases pairs.len(),
{
    if pairs.len() == 0 {
        Seq::<int>::empty()
    } else {
        let before = lemma_selection_is_ordered_part(pairs.drop_last(), selected);
        let last = pairs.len() - 1;
        if is_selected(selected, pairs.last().current.record.version) {
            let indices = before.push(last);
            assert forall|i: int|
                0 <= i < pairs.len() && is_selected(
                    selected,
                    (#[trigger] pairs[i]).current.record.version,
                ) implies indices.contains(i) by {
                if i < last {
                    assert(pairs.drop_last()[i] == pairs[i]);
                    let k = choose|k: int| 0 <= k < before.len() && before[k] == i;
                    assert(indices[k] == i);
                } else {
                    assert(indices[indices.len() - 1] == i);
                }
            }
            indices
        } else {
            assert forall|i: int|
                0 <= i < pairs.len() && is_selected(
                    selected,
                    (#[trigger] pairs[i]).current.record.version,
                ) implies before.contains(i) by {
                assert(pairs.drop_last()[i] == pairs[i]);
            }
            before
        }
    }
}

/// Whether `version` is one of `selected`.
fn selects(selected: &Vec<Version>, version: &Version) -> (r: bool)
    ensures
        r == is_selected(models(selected@), version@),
{
    let mut k: usize = 0;
    while k < selected.len()
        invariant
            k <= selected.len(),
            forall|j: int| 0 <= j < k ==> models(selected@)[j] != version@,
        decreases selected.len() - k,
    {
        if selected[k].same_as(version) {
            assert(models(selected@)[k as int] == version@);
            return true;
        }
        k += 1;
    }
    false
}

/// Keeps the pairs whose current version is selected, in their order and
/// with their predecessors as they are. Where nothing is selected every pair
/// stays.
pub fn select_versions(
    pairs: Vec<VersionPair>,
    selected: &Option<Vec<Version>>,
) -> (kept: Vec<VersionPair>)
    ensures
        models(kept@) == selection(models(pairs@), selection_model(*selected)),
{
    match selected {
        None => pairs,
        Some(versions) => {
            let mut kept: Vec<VersionPair> = Vec::new();
            for pair in it: pairs
                invariant
                    it.seq() == pairs@,
                    models(kept@) == selected_pairs(
                        models(pairs@).take(it.index() as int),
                        models(versions@),
                    ),
            {
                assert(models(pairs@).take(it.index() + 1).drop_last() =~= models(pairs@).take(
                    it.index() as int,
                ));
                if selects(versions, &pair.current.record.version) {
                    kept.push(pair);
                }
            }
            assert(models(pairs@).take(pairs.len() as int) =~= models(pairs@));
            kept
        },
    }
}

/// The pairs that stay when only the newest version is wanted: the first
/// pair, if there is one.
pub open spec fn newest_only(
    pairs: Seq<VersionPairModel>,
    only_last: bool,
) -> Seq<VersionPairModel> {
    if only_last && pairs.len() > 1 {
        pairs.take(1)
    } else {
        pairs
    }
}

/// Keeps the first pair only, where `only_last` asks for it.
pub fn keep_only_last_version(
    version_pairs: Vec<VersionPair>,
    only_last: bool,
) -> (kept: Vec<VersionPair>)
    ensures
        models(kept@) == newest_only(models(version_pairs@), only_last),
        only_last ==> kept.len() == if version_pairs.len() > 0 {
            1int
        } else {
            0int
        },
        !only_last ==> kept@ == version_pairs@,
        kept.len() > 0 ==> kept@[0] == version_pairs@[0],
{
    let mut kept = version_pairs;
    if only_last {
        kept.truncate(1);
    }
    kept
}

/// Of two or more versions in descending order, the newest pair alone is the
/// pair of the newest version with the one that follows it; of fewer than two
/// versions no pair is left.
pub proof fn lemma_newest_only_of_paired(s: Seq<DatedVersionModel>)
    ensures
        s.len() >= 2 ==> newest_only(paired(s), true) == seq![
            VersionPairModel { current: s[0], previous: s[1] },
        ],
        s.len() < 2 ==> newest_only(paired(s), true).len() == 0,
{
}

/// The pairs that the sequencer makes of `records`: sorted from the newest
/// version to the oldest, paired, narrowed to the selected versions and then
/// to the newest pair where only that is wanted.
pub open spec fn sequenced(
    records: Seq<DatedVersionModel>,
    selected: Option<Seq<VersionModel>>,
    only_last: bool,
) -> Seq<VersionPairModel> {
    newest_only(selection(paired(sorted_by_version(records)), selected), only_last)
}

/// Orders the versions from the newest to the oldest, pairs each with the
/// nearest older one, keeps the pairs of the selected versions where a
/// selection is given, and keeps the newest of them alone where only the last
/// version is wanted.
pub fn sequence_versions(
    records: Vec<DatedVersionRecord>,
    selected: &Option<Vec<Version>>,
    only_last: bool,
) -> (pairs: Vec<VersionPair>)
    ensures
        models(pairs@) == sequenced(models(records@), selection_model(*selected), only_last),
{
    let sorted = sort_versions(records);
    let paired = pair_versions(sorted);
    let kept = select_versions(paired, selected);
    keep_only_last_version(kept, only_last)
}

} // verus!
