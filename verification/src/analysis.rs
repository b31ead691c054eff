//! From the raw answer of the vision classifier to a detection result:
//! normalisation, merging, average confidence and severity.

use crate::geometry::{BoxView, DetectionBox};
use crate::merge::{merge_boxes, merge_spec};
use vstd::prelude::*;

verus! {

/// Upper end of the severity scale.
pub const MAX_SEVERITY: u8 = 5;

/// Number of reports that raise the severity by one.
pub const REPORTS_PER_BOOST: u32 = 3;

/// Report count of an issue that has just been submitted.
pub const INITIAL_REPORTS: u32 = 1;

/// Severity of an issue with `count` merged boxes and `reports` reports: one
/// point per box, one point per three reports, at most five in all.
pub open spec fn severity_spec(count: nat, reports: nat) -> nat {
    let raw = count + reports / (REPORTS_PER_BOOST as nat);
    if raw > MAX_SEVERITY {
        MAX_SEVERITY as nat
    } else {
        raw
    }
}

/// Severity never leaves the scale from zero to five.
pub proof fn lemma_severity_bounded(count: nat, reports: nat)
    ensures
        0 <= severity_spec(count, reports) <= MAX_SEVERITY,
{
}

/// More boxes or more reports never lower the severity.
pub proof fn lemma_severity_monotone(count: nat, reports: nat, more_count: nat, more_reports: nat)
    requires
        count <= more_count,
        reports <= more_reports,
    ensures
        severity_spec(count, reports) <= severity_spec(more_count, more_reports),
{
}

/// Severity of an issue from its merged boxes and its report count.
pub fn severity(merged: &Vec<DetectionBox>, report_count: u32) -> (level: u8)
    ensures
        level == severity_spec(merged.len() as nat, report_count as nat),
        level <= MAX_SEVERITY,
{
    let boost = report_count / REPORTS_PER_BOOST;
    let count = merged.len();
    if count >= 5 || boost >= 5 {
        MAX_SEVERITY
    } else {
        let raw = count as u8 + boost as u8;
        if raw > MAX_SEVERITY {
            MAX_SEVERITY
        } else {
            raw
        }
    }
}

/// Sum of the confidences of the boxes.
pub open spec fn confidence_sum(boxes: Seq<BoxView>) -> nat
    decreases boxes.len(),
{
    if boxes.len() == 0 {
        0
    } else {
        confidence_sum(boxes.drop_last()) + boxes.last().confidence
    }
}

/// Arithmetic mean of the confidences, rounded down to a whole millionth;
/// zero when there are no boxes.
pub open spec fn average_confidence_spec(boxes: Seq<BoxView>) -> nat {
    if boxes.len() == 0 {
        0
    } else {
        confidence_sum(boxes) / boxes.len()
    }
}

/// The sum of confidences that are each at most `bound` is at most
/// `bound` times their number, so their mean is at most `bound`.
pub proof fn lemma_confidence_sum_bounded(boxes: Seq<BoxView>, bound: nat)
    requires
        forall|i: int| 0 <= i < boxes.len() ==> (#[trigger] boxes[i]).confidence <= bound,
    ensures
        confidence_sum(boxes) <= boxes.len() * bound,
        average_confidence_spec(boxes) <= bound,
    decreases boxes.len(),
{
    if boxes.len() > 0 {
        let front = boxes.drop_last();
        assert forall|i: int| 0 <= i < front.len() implies (#[trigger] front[i]).confidence
            <= bound by {
            assert(front[i] == boxes[i]);
        }
        lemma_confidence_sum_bounded(front, bound);
        assert(boxes.last() == boxes[boxes.len() - 1]);
        let n = boxes.len();
        let total = confidence_sum(boxes);
        assert(front.len() * bound + bound == n * bound) by (nonlinear_arith)
            requires
                front.len() + 1 == n,
        ;
        assert(total / n <= bound) by (nonlinear_arith)
            requires
                total <= n * bound,
                n > 0,
        ;
    }
}

/// Mean confidence of the boxes in millionths, zero for an empty list.
pub fn average_confidence(boxes: &Vec<DetectionBox>) -> (average: u32)
    ensures
        average == average_confidence_spec(boxes.deep_view()),
{
    let ghost all = boxes.deep_view();
    let count = boxes.len();
    if count == 0 {
        return 0;
    }
    let mut total: u128 = 0;
    let mut i: usize = 0;
    while i < count
        invariant
            i <= count,
            count == boxes.len(),
            all == boxes.deep_view(),
            total == confidence_sum(all.take(i as int)),
            total <= i * u32::MAX,
        decreases count - i,
    {
        proof {
            assert(all.take(i + 1).drop_last() =~= all.take(i as int));
            assert(all.take(i + 1).last() == boxes[i as int]@);
            assert((i + 1) * u32::MAX == i * u32::MAX + u32::MAX) by (nonlinear_arith);
            assert(i * u32::MAX <= usize::MAX * u32::MAX) by (nonlinear_arith)
                requires
                    i <= usize::MAX,
            ;
            assert(usize::MAX * u32::MAX <= 0xffff_ffff_ffff_ffff * 0xffff_ffff) by (nonlinear_arith)
                requires
                    usize::MAX <= 0xffff_ffff_ffff_ffff,
                    u32::MAX == 0xffff_ffff,
            ;
        }
        total = total + boxes[i].confidence as u128;
        i += 1;
    }
    proof {
        assert(all.take(count as int) =~= all);
        assert(total / (count as u128) <= u32::MAX) by (nonlinear_arith)
            requires
                total <= count * u32::MAX,
                count > 0,
        ;
    }
    (total / count as u128) as u32
}

/// One detection as the classifier reported it; a field is `None` where the
/// answer did not hold it or held something of another kind.
#[derive(Clone, Debug, PartialEq, Eq)]
pub struct RawDetection {
    pub x1: Option<i32>,
    pub y1: Option<i32>,
    pub x2: Option<i32>,
    pub y2: Option<i32>,
    pub confidence: Option<u32>,
    pub name: Option<String>,
}

/// The detections of one analysed frame, `None` where the answer lists none.
#[derive(Clone, Debug, PartialEq, Eq)]
pub struct ImageDetections {
    pub results: Option<Vec<RawDetection>>,
}

/// What came back from the vision classifier.
#[derive(Clone, Debug, PartialEq, Eq)]
pub enum ClassifierOutcome {
    /// No answer: credentials are missing, or the classifier or the image
    /// could not be reached.
    Unavailable,
    /// An answer, with its list of frames if it held one.
    Answer { images: Option<Vec<ImageDetections>> },
}

/// Label of a detection that the classifier left unnamed.
pub const DEFAULT_LABEL: &'static str = "unknown";

pub open spec fn coordinate_or_zero(value: Option<i32>) -> int {
    match value {
        Some(v) => v as int,
        None => 0,
    }
}

/// The detection box that a raw detection stands for: a missing number
/// counts as zero, a missing name as `DEFAULT_LABEL`.
pub open spec fn normalize_spec(raw: RawDetection) -> BoxView {
    BoxView {
        x1: coordinate_or_zero(raw.x1),
        y1: coordinate_or_zero(raw.y1),
        x2: coordinate_or_zero(raw.x2),
        y2: coordinate_or_zero(raw.y2),
        confidence: match raw.confidence {
            Some(c) => c as nat,
            None => 0,
        },
        label: match raw.name {
            Some(name) => name@,
            None => DEFAULT_LABEL@,
        },
    }
}

/// The boxes of one frame, in the order of the answer.
pub open spec fn frame_boxes(frame: ImageDetections) -> Seq<BoxView> {
    match frame.results {
        Some(results) => results@.map_values(|raw: RawDetection| normalize_spec(raw)),
        None => Seq::empty(),
    }
}

/// The boxes of all frames, frame after frame.
pub open spec fn frames_boxes(frames: Seq<ImageDetections>) -> Seq<BoxView>
    decreases frames.len(),
{
    if frames.len() == 0 {
        Seq::empty()
    } else {
        frames_boxes(frames.drop_last()) + frame_boxes(frames.last())
    }
}

/// The raw boxes that an outcome holds; none when the classifier was
/// unavailable or its answer lists no frames.
pub open spec fn raw_boxes_spec(outcome: ClassifierOutcome) -> Seq<BoxView> {
    match outcome {
        ClassifierOutcome::Unavailable => Seq::empty(),
        ClassifierOutcome::Answer { images: None } => Seq::empty(),
        ClassifierOutcome::Answer { images: Some(frames) } => frames_boxes(frames@),
    }
}

fn value_or_zero(value: &Option<i32>) -> (v: i32)
    ensures
        v == coordinate_or_zero(*value),
{
    match value {
        Some(v) => *v,
        None => 0,
    }
}

/// Turns a raw detection into a detection box.
pub fn normalize(raw: &RawDetection) -> (b: DetectionBox)
    ensures
        b@ == normalize_spec(*raw),
{
    DetectionBox {
        x1: value_or_zero(&raw.x1),
        y1: value_or_zero(&raw.y1),
        x2: value_or_zero(&raw.x2),
        y2: value_or_zero(&raw.y2),
        confidence: match raw.confidence {
            Some(c) => c,
            None => 0,
        },
        label: match &raw.name {
            Some(name) => name.clone(),
            None => DEFAULT_LABEL.to_owned(),
        },
    }
}

/// Gathers the raw boxes of an outcome, frame after frame.
pub fn raw_boxes(outcome: &ClassifierOutcome) -> (boxes: Vec<DetectionBox>)
    ensures
        boxes.deep_view() == raw_boxes_spec(*outcome),
{
    let mut boxes: Vec<DetectionBox> = Vec::new();
    if let ClassifierOutcome::Answer { images: Some(frames) } = outcome {
        let mut f: usize = 0;
        while f < frames.len()
            invariant
                f <= frames.len(),
                boxes.deep_view() == frames_boxes(frames@.take(f as int)),
            decreases frames.len() - f,
        {
            let ghost done = boxes.deep_view();
            proof {
                assert(frames@.take(f + 1).drop_last() =~= frames@.take(f as int));
                assert(frames@.take(f + 1).last() == frames@[f as int]);
            }
            if let Some(results) = &frames[f].results {
                let mut r: usize = 0;
                while r < results.len()
                    invariant
                        r <= results.len(),
                        boxes.deep_view() == done + frame_boxes(frames@[f as int]).take(r as int),
                        frames@[f as int].results == Some(*results),
                    decreases results.len() - r,
                {
                    let ghost so_far = boxes.deep_view();
                    let b = normalize(&results[r]);
                    boxes.push(b);
                    proof {
                        let frame = frame_boxes(frames@[f as int]);
                        assert(frame.take(r + 1) =~= frame.take(r as int).push(frame[r as int]));
                        assert(boxes.deep_view() =~= so_far.push(b@));
                        assert(done + frame.take(r + 1) =~= (done + frame.take(r as int)).push(
                            frame[r as int],
                        ));
                    }
                    r += 1;
                }
                proof {
                    let frame = frame_boxes(frames@[f as int]);
                    assert(frame.take(results.len() as int) =~= frame);
                }
            } else {
                assert(boxes.deep_view() =~= done + frame_boxes(frames@[f as int]));
            }
            f += 1;
        }
        proof {
            assert(frames@.take(frames.len() as int) =~= frames@);
        }
    }
    boxes
}

/// The finding for one image: merged boxes, their mean confidence in
/// millionths, and the severity.
#[derive(Clone, Debug, PartialEq, Eq)]
pub struct DetectionResult {
    pub boxes: Vec<DetectionBox>,
    pub avg_confidence: u32,
    pub severity: u8,
}

impl DetectionResult {
    /// The result is the one that the raw boxes `raw` give.
    pub open spec fn derived_from(self, raw: Seq<BoxView>) -> bool {
        &&& self.boxes.deep_view() == merge_spec(raw)
        &&& self.avg_confidence == average_confidence_spec(merge_spec(raw))
        &&& self.severity == severity_spec(merge_spec(raw).len(), INITIAL_REPORTS as nat)
    }
}

/// Aggregates the boxes of one image: merges them, averages the confidence
/// of the merged boxes and scores the severity of a fresh issue.
pub fn aggregate(raw: Vec<DetectionBox>) -> (result: DetectionResult)
    ensures
        result.derived_from(raw.deep_view()),
        result.boxes.len() <= raw.len(),
        result.severity <= MAX_SEVERITY,
        raw.len() == 0 ==> result.boxes.len() == 0 && result.avg_confidence == 0 && result.severity
            == 0,
{
    let boxes = merge_boxes(raw);
    let avg_confidence = average_confidence(&boxes);
    let severity = severity(&boxes, INITIAL_REPORTS);
    DetectionResult { boxes, avg_confidence, severity }
}

/// Analyses the classifier's outcome for one image. An unavailable
/// classifier counts as an answer without detections.
pub fn analyze(outcome: &ClassifierOutcome) -> (result: DetectionResult)
    ensures
        result.derived_from(raw_boxes_spec(*outcome)),
        result.severity <= MAX_SEVERITY,
        *outcome is Unavailable ==> result.boxes.len() == 0 && result.avg_confidence == 0
            && result.severity == 0,
{
    aggregate(raw_boxes(outcome))
}

} // verus!
