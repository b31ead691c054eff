//! Greedy clustering of overlapping detection boxes.

use crate::geometry::{iou, lemma_product_monotone, overlaps, BoxView, DetectionBox};
use vstd::prelude::*;
use vstd::seq_lib::to_multiset_len;

verus! {

/// Index of the first box in `merged`, at or after `start`, that `candidate`
/// overlaps beyond the threshold; `merged.len()` when there is none.
pub open spec fn first_match_from(merged: Seq<BoxView>, candidate: BoxView, start: int) -> int
    decreases merged.len() - start,
{
    if start < 0 || start >= merged.len() {
        merged.len() as int
    } else if overlaps(candidate, merged[start]) {
        start
    } else {
        first_match_from(merged, candidate, start + 1)
    }
}

/// Index of the first box in `merged` that absorbs `candidate`.
pub open spec fn first_match(merged: Seq<BoxView>, candidate: BoxView) -> int {
    first_match_from(merged, candidate, 0)
}

/// The clusters after `candidate` has been offered to them in order: the
/// first one it overlaps absorbs it, and otherwise it opens a new cluster.
pub open spec fn merge_step(merged: Seq<BoxView>, candidate: BoxView) -> Seq<BoxView> {
    let k = first_match(merged, candidate);
    if k < merged.len() {
        merged.update(k, merged[k].absorb(candidate))
    } else {
        merged.push(candidate)
    }
}

/// The clusters that result from offering the boxes one by one, in order.
pub open spec fn merge_spec(boxes: Seq<BoxView>) -> Seq<BoxView>
    decreases boxes.len(),
{
    if boxes.len() == 0 {
        Seq::empty()
    } else {
        merge_step(merge_spec(boxes.drop_last()), boxes.last())
    }
}

/// `first_match_from` returns the least matching index at or after `start`.
pub proof fn lemma_first_match_from(merged: Seq<BoxView>, candidate: BoxView, start: int)
    requires
        0 <= start <= merged.len(),
    ensures
        start <= first_match_from(merged, candidate, start) <= merged.len(),
        forall|j: int|
            start <= j < first_match_from(merged, candidate, start) ==> !overlaps(
                candidate,
                #[trigger] merged[j],
            ),
        first_match_from(merged, candidate, start) < merged.len() ==> overlaps(
            candidate,
            merged[first_match_from(merged, candidate, start)],
        ),
    decreases merged.len() - start,
{
    if start < merged.len() && !overlaps(candidate, merged[start]) {
        lemma_first_match_from(merged, candidate, start + 1);
    }
}

/// An index is the first match exactly when nothing before it matches and
/// it matches itself or is the length.
pub proof fn lemma_first_match_is(merged: Seq<BoxView>, candidate: BoxView, k: int)
    requires
        0 <= k <= merged.len(),
        forall|j: int| 0 <= j < k ==> !overlaps(candidate, #[trigger] merged[j]),
        k < merged.len() ==> overlaps(candidate, merged[k]),
    ensures
        first_match(merged, candidate) == k,
{
    lemma_first_match_from(merged, candidate, 0);
}

fn absorb(cluster: &mut DetectionBox, candidate: &DetectionBox)
    ensures
        final(cluster)@ == old(cluster)@.absorb(candidate@),
{
    if candidate.x1 < cluster.x1 {
        cluster.x1 = candidate.x1;
    }
    if candidate.y1 < cluster.y1 {
        cluster.y1 = candidate.y1;
    }
    if candidate.x2 > cluster.x2 {
        cluster.x2 = candidate.x2;
    }
    if candidate.y2 > cluster.y2 {
        cluster.y2 = candidate.y2;
    }
    if candidate.confidence > cluster.confidence {
        cluster.confidence = candidate.confidence;
    }
}

/// Merges overlapping boxes: each box, in input order, is absorbed by the
/// first cluster whose overlap ratio with it exceeds one half, or else
/// becomes a cluster of its own.
pub fn merge_boxes(boxes: Vec<DetectionBox>) -> (merged: Vec<DetectionBox>)
    ensures
        merged.deep_view() == merge_spec(boxes.deep_view()),
        merged.len() <= boxes.len(),
{
    let ghost input = boxes.deep_view();
    let mut merged: Vec<DetectionBox> = Vec::new();
    for candidate in it: boxes
        invariant
            it.seq().len() == input.len(),
            forall|j: int| 0 <= j < input.len() ==> (#[trigger] it.seq()[j])@ == input[j],
            merged.deep_view() == merge_spec(input.take(it.index() as int)),
    {
        let ghost before = merged.deep_view();
        let mut k: usize = 0;
        let mut absorbed = false;
        while k < merged.len()
            invariant_except_break
                !absorbed,
                k <= merged.len(),
                merged.deep_view() == before,
                first_match(before, candidate@) == first_match_from(before, candidate@, k as int),
            ensures
                absorbed ==> merged.deep_view() == merge_step(before, candidate@),
                !absorbed ==> merged.deep_view() == before && first_match(before, candidate@)
                    == before.len(),
            decreases merged.len() - k,
        {
            if iou(&candidate, &merged[k]).exceeds_half() {
                absorb(&mut merged[k], &candidate);
                absorbed = true;
                assert(merged.deep_view() =~= merge_step(before, candidate@));
                break;
            }
            k += 1;
        }
        if !absorbed {
            merged.push(candidate);
            assert(merged.deep_view() =~= merge_step(before, candidate@));
        }
        proof {
            let n = it.index() as int;
            assert(input.take(n + 1).drop_last() =~= input.take(n));
            assert(input.take(n + 1).last() == input[n]);
        }
    }
    proof {
        assert(input.take(input.len() as int) =~= input);
        lemma_merge_len(input);
    }
    merged
}

/// One step keeps every earlier cluster in its place, changes at most the
/// one that absorbs the candidate, and adds at most one cluster.
pub proof fn lemma_merge_step_shape(merged: Seq<BoxView>, candidate: BoxView)
    ensures
        0 <= first_match(merged, candidate) <= merged.len(),
        first_match(merged, candidate) < merged.len() ==> merge_step(merged, candidate).len()
            == merged.len(),
        first_match(merged, candidate) == merged.len() ==> merge_step(merged, candidate).len()
            == merged.len() + 1,
        forall|j: int|
            0 <= j < merged.len() && j != first_match(merged, candidate) ==> (#[trigger] merge_step(
                merged,
                candidate,
            )[j]) == merged[j],
        merge_step(merged, candidate)[first_match(merged, candidate)] == if first_match(
            merged,
            candidate,
        ) < merged.len() {
            merged[first_match(merged, candidate)].absorb(candidate)
        } else {
            candidate
        },
{
    lemma_first_match_from(merged, candidate, 0);
}

/// Merging never yields more boxes than it was given, and yields at least
/// one when it was given any.
pub proof fn lemma_merge_len(boxes: Seq<BoxView>)
    ensures
        merge_spec(boxes).len() <= boxes.len(),
        boxes.len() > 0 ==> merge_spec(boxes).len() > 0,
    decreases boxes.len(),
{
    if boxes.len() > 0 {
        lemma_merge_len(boxes.drop_last());
        lemma_merge_step_shape(merge_spec(boxes.drop_last()), boxes.last());
    }
}

/// No box overlaps, beyond the threshold, a box that stands before it.
pub open spec fn pairwise_separated(boxes: Seq<BoxView>) -> bool {
    forall|i: int, j: int|
        0 <= i < j < boxes.len() ==> !overlaps(#[trigger] boxes[j], #[trigger] boxes[i])
}

/// Merging leaves a list of pairwise separated boxes as it is.
pub proof fn lemma_merge_of_separated(boxes: Seq<BoxView>)
    requires
        pairwise_separated(boxes),
    ensures
        merge_spec(boxes) == boxes,
    decreases boxes.len(),
{
    if boxes.len() > 0 {
        let front = boxes.drop_last();
        assert(pairwise_separated(front)) by {
            assert forall|i: int, j: int| 0 <= i < j < front.len() implies !overlaps(
                #[trigger] front[j],
                #[trigger] front[i],
            ) by {
                assert(front[j] == boxes[j] && front[i] == boxes[i]);
            }
        }
        lemma_merge_of_separated(front);
        assert forall|i: int| 0 <= i < front.len() implies !overlaps(
            boxes.last(),
            #[trigger] front[i],
        ) by {
            assert(front[i] == boxes[i]);
            assert(boxes.last() == boxes[boxes.len() - 1]);
        }
        lemma_first_match_is(front, boxes.last(), front.len() as int);
        assert(front.push(boxes.last()) =~= boxes);
    } else {
        assert(merge_spec(boxes) =~= boxes);
    }
}

/// Merging a list in which some box overlaps an earlier one yields fewer
/// boxes than the list holds.
pub proof fn lemma_merge_of_unseparated(boxes: Seq<BoxView>)
    requires
        !pairwise_separated(boxes),
    ensures
        merge_spec(boxes).len() < boxes.len(),
    decreases boxes.len(),
{
    let front = boxes.drop_last();
    let (i, j) = choose|i: int, j: int|
        0 <= i < j < boxes.len() && overlaps(#[trigger] boxes[j], #[trigger] boxes[i]);
    assert(0 <= i < j < boxes.len() && overlaps(boxes[j], boxes[i]));
    lemma_merge_step_shape(merge_spec(front), boxes.last());
    if pairwise_separated(front) {
        lemma_merge_of_separated(front);
        if j < front.len() {
            assert(front[j] == boxes[j] && front[i] == boxes[i]);
            assert(false);
        }
        assert(front[i] == boxes[i]);
        lemma_first_match_from(front, boxes.last(), 0);
    } else {
        lemma_merge_of_unseparated(front);
    }
}

/// Merging is idempotent wherever the clusters of the first pass are
/// pairwise separated: a second pass then returns them as they are, the
/// same boxes in the same order.
pub proof fn lemma_merge_idempotent(boxes: Seq<BoxView>)
    requires
        pairwise_separated(merge_spec(boxes)),
    ensures
        merge_spec(merge_spec(boxes)) == merge_spec(boxes),
        merge_spec(merge_spec(boxes)).to_multiset() == merge_spec(boxes).to_multiset(),
        merge_spec(merge_spec(boxes)).to_set() == merge_spec(boxes).to_set(),
{
    lemma_merge_of_separated(merge_spec(boxes));
}

/// Where two clusters of the first pass have grown to overlap beyond the
/// threshold, a second pass unites clusters: it yields fewer boxes, and so
/// not the same boxes, in whatever order they are taken.
pub proof fn lemma_merge_twice_shrinks(boxes: Seq<BoxView>)
    requires
        !pairwise_separated(merge_spec(boxes)),
    ensures
        merge_spec(merge_spec(boxes)).len() < merge_spec(boxes).len(),
        merge_spec(merge_spec(boxes)).to_multiset() != merge_spec(boxes).to_multiset(),
{
    lemma_merge_of_unseparated(merge_spec(boxes));
    to_multiset_len(merge_spec(merge_spec(boxes)));
    to_multiset_len(merge_spec(boxes));
}

/// A box that encloses another has at least its area.
pub proof fn lemma_enclosing_area(outer: BoxView, inner: BoxView)
    requires
        outer.encloses(inner),
    ensures
        outer.area() >= inner.area(),
{
    lemma_product_monotone(inner.width(), inner.height(), outer.width(), outer.height());
}

/// Index of the cluster that takes the box at `index`: the first cluster,
/// among those formed by the boxes before it, that it overlaps, or else the
/// new cluster that it opens.
pub open spec fn cluster_of(boxes: Seq<BoxView>, index: int) -> int {
    first_match(merge_spec(boxes.take(index)), boxes[index])
}

/// Once the box at `index` has been processed, its cluster encloses it and
/// is at least as confident, however many further boxes are processed.
pub proof fn lemma_cluster_covers_prefix(boxes: Seq<BoxView>, index: int, upto: int)
    requires
        0 <= index < upto <= boxes.len(),
    ensures
        0 <= cluster_of(boxes, index) < merge_spec(boxes.take(upto)).len(),
        merge_spec(boxes.take(upto))[cluster_of(boxes, index)].encloses(boxes[index]),
        merge_spec(boxes.take(upto))[cluster_of(boxes, index)].confidence
            >= boxes[index].confidence,
    decreases upto - index,
{
    let front = boxes.take(upto - 1);
    assert(boxes.take(upto).drop_last() =~= front);
    assert(boxes.take(upto).last() == boxes[upto - 1]);
    lemma_merge_step_shape(merge_spec(front), boxes[upto - 1]);
    if upto - 1 > index {
        lemma_cluster_covers_prefix(boxes, index, upto - 1);
    }
}

/// Every input box lies inside the merged box of its cluster, which
/// therefore has at least its area and at least its confidence.
pub proof fn lemma_merged_box_covers_absorbed(boxes: Seq<BoxView>, index: int)
    requires
        0 <= index < boxes.len(),
    ensures
        0 <= cluster_of(boxes, index) < merge_spec(boxes).len(),
        merge_spec(boxes)[cluster_of(boxes, index)].encloses(boxes[index]),
        merge_spec(boxes)[cluster_of(boxes, index)].area() >= boxes[index].area(),
        merge_spec(boxes)[cluster_of(boxes, index)].confidence >= boxes[index].confidence,
{
    assert(boxes.take(boxes.len() as int) =~= boxes);
    lemma_cluster_covers_prefix(boxes, index, boxes.len() as int);
    lemma_enclosing_area(merge_spec(boxes)[cluster_of(boxes, index)], boxes[index]);
}

} // verus!
