use shara_core::analysis::{
    aggregate, analyze, average_confidence, normalize, raw_boxes, severity, ClassifierOutcome,
    ImageDetections, RawDetection, INITIAL_REPORTS, MAX_SEVERITY, REPORTS_PER_BOOST,
};
use shara_core::geometry::{
    iou, iou_millionths, DetectionBox, Ratio, CONFIDENCE_ONE, EPSILON_INVERSE, FULL_OVERLAP_AREA,
    IOU_ONE,
};
use shara_core::merge::merge_boxes;

fn boxed(x1: i32, y1: i32, x2: i32, y2: i32, confidence: u32, label: &str) -> DetectionBox {
    DetectionBox { x1, y1, x2, y2, confidence, label: label.to_string() }
}

fn plain(x1: i32, y1: i32, x2: i32, y2: i32) -> DetectionBox {
    boxed(x1, y1, x2, y2, 500_000, "thing")
}

fn raw(x1: i32, y1: i32, x2: i32, y2: i32, confidence: u32, name: &str) -> RawDetection {
    RawDetection {
        x1: Some(x1),
        y1: Some(y1),
        x2: Some(x2),
        y2: Some(y2),
        confidence: Some(confidence),
        name: Some(name.to_string()),
    }
}

fn rectangle(b: &DetectionBox) -> (i32, i32, i32, i32) {
    (b.x1, b.y1, b.x2, b.y2)
}

fn area(b: &DetectionBox) -> i64 {
    let w = (b.x2 as i64 - b.x1 as i64).max(0);
    let h = (b.y2 as i64 - b.y1 as i64).max(0);
    w * h
}

#[test]
fn constants_have_their_documented_values() {
    assert_eq!(EPSILON_INVERSE, 100_000);
    assert_eq!(CONFIDENCE_ONE, 1_000_000);
    assert_eq!(MAX_SEVERITY, 5);
    assert_eq!(REPORTS_PER_BOOST, 3);
    assert_eq!(INITIAL_REPORTS, 1);
    assert_eq!(IOU_ONE, 1_000_000);
    assert_eq!(FULL_OVERLAP_AREA, 20);
}

#[test]
fn iou_of_a_box_with_itself_is_one() {
    assert_eq!(iou_millionths(&plain(0, 0, 10, 10), &plain(0, 0, 10, 10)), 1_000_000);
    assert_eq!(iou_millionths(&plain(-3, 7, 2, 11), &plain(-3, 7, 2, 11)), 1_000_000);
    assert_eq!(iou_millionths(&plain(0, 0, 20, 1), &plain(0, 0, 20, 1)), 1_000_000);
    let whole = plain(i32::MIN, i32::MIN, i32::MAX, i32::MAX);
    assert_eq!(iou_millionths(&whole, &whole), 1_000_000);
}

#[test]
fn iou_of_a_small_box_with_itself_falls_short_of_one() {
    assert_eq!(iou_millionths(&plain(0, 0, 1, 1), &plain(0, 0, 1, 1)), 999_990);
    assert_eq!(iou_millionths(&plain(0, 0, 19, 1), &plain(0, 0, 19, 1)), 999_999);
}

#[test]
fn iou_in_millionths_is_rounded_to_the_nearest() {
    let a = plain(0, 0, 10, 10);
    assert_eq!(iou_millionths(&a, &plain(50, 50, 60, 60)), 0);
    assert_eq!(iou_millionths(&a, &plain(5, 0, 15, 10)), 333_333);
    assert_eq!(iou_millionths(&a, &plain(0, 0, 10, 14)), 714_286);
    assert_eq!(iou_millionths(&a, &plain(0, 0, 20, 10)), 500_000);
    assert_eq!(iou_millionths(&plain(5, 5, 5, 5), &plain(5, 5, 5, 5)), 0);
}

#[test]
fn iou_of_a_box_with_itself_is_one_guard_term_short_of_one() {
    let a = plain(0, 0, 1, 1);
    let r = iou(&a, &a);
    assert_eq!(r, Ratio { num: 100_000, den: 100_001 });
    assert!(r.exceeds_half());

    let b = plain(3, 4, 13, 24);
    let r = iou(&b, &b);
    assert_eq!(r, Ratio { num: 20_000_000, den: 20_000_001 });
    assert!(r.exceeds_half());
}

#[test]
fn iou_of_disjoint_boxes_is_zero() {
    let a = plain(0, 0, 10, 10);
    let b = plain(50, 50, 60, 60);
    let r = iou(&a, &b);
    assert_eq!(r, Ratio { num: 0, den: 20_000_001 });
    assert!(!r.exceeds_half());
}

#[test]
fn iou_of_boxes_that_only_touch_is_zero() {
    let a = plain(0, 0, 10, 10);
    let b = plain(10, 0, 20, 10);
    assert_eq!(iou(&a, &b).num, 0);
    let c = plain(0, 10, 10, 20);
    assert_eq!(iou(&a, &c).num, 0);
}

#[test]
fn iou_of_partly_overlapping_boxes_is_exact() {
    let a = plain(0, 0, 10, 10);
    let b = plain(5, 0, 15, 10);
    let r = iou(&a, &b);
    assert_eq!(r, Ratio { num: 5_000_000, den: 15_000_001 });
    assert!(!r.exceeds_half());

    let c = plain(0, 0, 10, 14);
    let r = iou(&a, &c);
    assert_eq!(r, Ratio { num: 10_000_000, den: 14_000_001 });
    assert!(r.exceeds_half());
}

#[test]
fn iou_does_not_depend_on_the_order_of_the_boxes() {
    let a = plain(0, 0, 10, 10);
    let b = plain(3, 2, 12, 30);
    assert_eq!(iou(&a, &b), iou(&b, &a));
}

#[test]
fn iou_of_exactly_one_half_does_not_exceed_the_threshold() {
    let a = plain(0, 0, 10, 10);
    let b = plain(0, 0, 20, 10);
    let r = iou(&a, &b);
    assert_eq!(r, Ratio { num: 10_000_000, den: 20_000_001 });
    assert!(!r.exceeds_half());
}

#[test]
fn iou_of_a_degenerate_box_is_zero_and_defined() {
    let point = plain(5, 5, 5, 5);
    assert_eq!(iou(&point, &point), Ratio { num: 0, den: 1 });
    let line = plain(0, 0, 10, 0);
    let a = plain(0, 0, 10, 10);
    assert_eq!(iou(&line, &a), Ratio { num: 0, den: 10_000_001 });
}

#[test]
fn iou_takes_an_inverted_box_as_empty() {
    let inverted = plain(10, 10, 0, 0);
    let a = plain(0, 0, 10, 10);
    assert_eq!(iou(&inverted, &a), Ratio { num: 0, den: 10_000_001 });
    assert_eq!(iou(&inverted, &inverted), Ratio { num: 0, den: 1 });
}

#[test]
fn iou_of_the_largest_box_does_not_overflow() {
    let whole = plain(i32::MIN, i32::MIN, i32::MAX, i32::MAX);
    let side = u32::MAX as u128;
    let r = iou(&whole, &whole);
    assert_eq!(r.num, 100_000 * side * side);
    assert_eq!(r.den, r.num + 1);
    assert!(r.exceeds_half());
}

#[test]
fn exceeds_half_is_strict() {
    assert!(!Ratio { num: 1, den: 2 }.exceeds_half());
    assert!(Ratio { num: 2, den: 3 }.exceeds_half());
    assert!(!Ratio { num: 1, den: 3 }.exceeds_half());
    assert!(!Ratio { num: 0, den: 1 }.exceeds_half());
    assert!(Ratio { num: u128::MAX, den: u128::MAX }.exceeds_half());
}

#[test]
fn merge_unites_overlapping_boxes_and_keeps_distant_ones() {
    let merged = merge_boxes(vec![
        boxed(0, 0, 10, 10, 900_000, "pothole"),
        boxed(1, 1, 9, 9, 800_000, "pothole"),
        boxed(50, 50, 60, 60, 700_000, "trash"),
    ]);
    assert_eq!(
        merged,
        vec![boxed(0, 0, 10, 10, 900_000, "pothole"), boxed(50, 50, 60, 60, 700_000, "trash")]
    );
}

#[test]
fn merge_of_nothing_is_nothing() {
    assert_eq!(merge_boxes(vec![]), vec![]);
}

#[test]
fn merge_of_one_box_is_that_box() {
    assert_eq!(merge_boxes(vec![boxed(1, 2, 3, 4, 5, "x")]), vec![boxed(1, 2, 3, 4, 5, "x")]);
}

#[test]
fn merge_takes_the_bounding_box_the_larger_confidence_and_the_first_label() {
    let merged = merge_boxes(vec![
        boxed(2, 1, 12, 11, 300_000, "first"),
        boxed(0, 3, 11, 13, 650_000, "second"),
    ]);
    assert_eq!(merged, vec![boxed(0, 1, 12, 13, 650_000, "first")]);
}

#[test]
fn merge_gives_a_candidate_to_the_first_cluster_it_overlaps() {
    let merged = merge_boxes(vec![
        boxed(0, 0, 10, 10, 100_000, "left"),
        boxed(0, 4, 10, 16, 200_000, "right"),
        boxed(0, 2, 10, 13, 300_000, "between"),
    ]);
    assert_eq!(
        merged,
        vec![boxed(0, 0, 10, 13, 300_000, "left"), boxed(0, 4, 10, 16, 200_000, "right")]
    );
}

#[test]
fn merge_depends_on_the_order_of_the_boxes() {
    let forward = merge_boxes(vec![plain(0, 0, 10, 10), plain(0, 4, 10, 16), plain(0, 0, 10, 14)]);
    assert_eq!(forward.len(), 2);
    let backward = merge_boxes(vec![plain(0, 0, 10, 14), plain(0, 4, 10, 16), plain(0, 0, 10, 10)]);
    assert_eq!(backward, vec![plain(0, 0, 10, 16)]);
}

#[test]
fn merging_again_changes_nothing_where_the_clusters_are_separated() {
    let once = merge_boxes(vec![
        boxed(0, 0, 10, 10, 900_000, "pothole"),
        boxed(1, 1, 9, 9, 800_000, "pothole"),
        boxed(50, 50, 60, 60, 700_000, "trash"),
        boxed(49, 50, 60, 61, 750_000, "litter"),
    ]);
    let twice = merge_boxes(once.clone());
    assert_eq!(twice, once);
}

#[test]
fn merging_again_shrinks_clusters_that_grew_into_each_other() {
    let once = merge_boxes(vec![plain(0, 0, 10, 10), plain(0, 4, 10, 16), plain(0, 0, 10, 14)]);
    assert_eq!(once, vec![plain(0, 0, 10, 14), plain(0, 4, 10, 16)]);
    let twice = merge_boxes(once);
    assert_eq!(twice, vec![plain(0, 0, 10, 16)]);
}

#[test]
fn merge_never_yields_more_boxes_and_never_smaller_ones() {
    let input = vec![
        plain(0, 0, 10, 10),
        plain(1, 0, 11, 10),
        plain(100, 100, 120, 130),
        plain(2, 0, 12, 10),
        plain(101, 101, 121, 131),
        plain(500, 500, 501, 501),
    ];
    let merged = merge_boxes(input.clone());
    assert_eq!(
        merged,
        vec![plain(0, 0, 12, 10), plain(100, 100, 121, 131), plain(500, 500, 501, 501)]
    );
    assert!(merged.len() <= input.len());
    let cluster = [0, 0, 1, 0, 1, 2];
    for (b, c) in input.iter().zip(cluster) {
        assert!(area(&merged[c]) >= area(b));
        assert!(merged[c].x1 <= b.x1 && merged[c].y1 <= b.y1);
        assert!(merged[c].x2 >= b.x2 && merged[c].y2 >= b.y2);
    }
}

#[test]
fn merge_keeps_equal_degenerate_boxes_apart() {
    let merged = merge_boxes(vec![plain(5, 5, 5, 5), plain(5, 5, 5, 5)]);
    assert_eq!(merged.len(), 2);
}

#[test]
fn severity_adds_one_point_per_three_reports() {
    let boxes = vec![plain(0, 0, 10, 10), plain(50, 50, 60, 60)];
    assert_eq!(severity(&boxes, 6), 4);
}

#[test]
fn severity_counts_boxes_and_rounds_the_boost_down() {
    let none: Vec<DetectionBox> = vec![];
    assert_eq!(severity(&none, 0), 0);
    assert_eq!(severity(&none, 2), 0);
    assert_eq!(severity(&none, 3), 1);
    assert_eq!(severity(&none, 7), 2);
    let one = vec![plain(0, 0, 1, 1)];
    assert_eq!(severity(&one, 1), 1);
    assert_eq!(severity(&one, 5), 2);
}

#[test]
fn severity_stops_at_five() {
    let many: Vec<DetectionBox> = (0..9).map(|i| plain(i * 100, 0, i * 100 + 10, 10)).collect();
    assert_eq!(severity(&many, 0), 5);
    assert_eq!(severity(&many, u32::MAX), 5);
    let none: Vec<DetectionBox> = vec![];
    assert_eq!(severity(&none, 15), 5);
    assert_eq!(severity(&none, u32::MAX), 5);
    let four: Vec<DetectionBox> = (0..4).map(|i| plain(i * 100, 0, i * 100 + 10, 10)).collect();
    assert_eq!(severity(&four, 3), 5);
    assert_eq!(severity(&four, 14), 5);
}

#[test]
fn severity_never_falls_when_boxes_or_reports_are_added() {
    for count in 0..8 {
        let boxes: Vec<DetectionBox> =
            (0..count).map(|i| plain(i * 100, 0, i * 100 + 10, 10)).collect();
        let more: Vec<DetectionBox> =
            (0..count + 1).map(|i| plain(i * 100, 0, i * 100 + 10, 10)).collect();
        for reports in 0..20 {
            let level = severity(&boxes, reports);
            assert!(level <= 5);
            assert!(severity(&more, reports) >= level);
            assert!(severity(&boxes, reports + 1) >= level);
        }
    }
}

#[test]
fn average_confidence_is_the_mean_rounded_down() {
    assert_eq!(average_confidence(&vec![]), 0);
    assert_eq!(
        average_confidence(&vec![boxed(0, 0, 1, 1, 900_000, "a"), boxed(0, 0, 1, 1, 700_000, "b")]),
        800_000
    );
    assert_eq!(
        average_confidence(&vec![boxed(0, 0, 1, 1, 1, "a"), boxed(0, 0, 1, 1, 2, "b")]),
        1
    );
    assert_eq!(
        average_confidence(&vec![
            boxed(0, 0, 1, 1, u32::MAX, "a"),
            boxed(0, 0, 1, 1, u32::MAX, "b"),
            boxed(0, 0, 1, 1, u32::MAX, "c"),
        ]),
        u32::MAX
    );
}

#[test]
fn normalize_fills_in_what_the_classifier_left_out() {
    let empty = RawDetection { x1: None, y1: None, x2: None, y2: None, confidence: None, name: None };
    assert_eq!(normalize(&empty), boxed(0, 0, 0, 0, 0, "unknown"));
    let partial = RawDetection {
        x1: Some(3),
        y1: None,
        x2: Some(-7),
        y2: Some(9),
        confidence: Some(420_000),
        name: None,
    };
    assert_eq!(normalize(&partial), boxed(3, 0, -7, 9, 420_000, "unknown"));
    assert_eq!(normalize(&raw(1, 2, 3, 4, 5, "crack")), boxed(1, 2, 3, 4, 5, "crack"));
}

#[test]
fn raw_boxes_come_frame_after_frame() {
    let outcome = ClassifierOutcome::Answer {
        images: Some(vec![
            ImageDetections { results: Some(vec![raw(0, 0, 1, 1, 1, "a"), raw(2, 2, 3, 3, 2, "b")]) },
            ImageDetections { results: None },
            ImageDetections { results: Some(vec![]) },
            ImageDetections { results: Some(vec![raw(4, 4, 5, 5, 3, "c")]) },
        ]),
    };
    assert_eq!(
        raw_boxes(&outcome),
        vec![boxed(0, 0, 1, 1, 1, "a"), boxed(2, 2, 3, 3, 2, "b"), boxed(4, 4, 5, 5, 3, "c")]
    );
}

#[test]
fn raw_boxes_of_no_answer_are_none() {
    assert_eq!(raw_boxes(&ClassifierOutcome::Unavailable), vec![]);
    assert_eq!(raw_boxes(&ClassifierOutcome::Answer { images: None }), vec![]);
    assert_eq!(raw_boxes(&ClassifierOutcome::Answer { images: Some(vec![]) }), vec![]);
}

#[test]
fn unavailable_classifier_gives_an_empty_result() {
    let result = analyze(&ClassifierOutcome::Unavailable);
    assert!(result.boxes.is_empty());
    assert_eq!(result.avg_confidence, 0);
    assert_eq!(result.severity, 0);
}

#[test]
fn analyze_merges_averages_and_scores() {
    let outcome = ClassifierOutcome::Answer {
        images: Some(vec![ImageDetections {
            results: Some(vec![
                raw(0, 0, 10, 10, 900_000, "pothole"),
                raw(1, 1, 9, 9, 800_000, "pothole"),
                raw(50, 50, 60, 60, 700_000, "trash"),
            ]),
        }]),
    };
    let result = analyze(&outcome);
    assert_eq!(
        result.boxes,
        vec![boxed(0, 0, 10, 10, 900_000, "pothole"), boxed(50, 50, 60, 60, 700_000, "trash")]
    );
    assert_eq!(result.avg_confidence, 800_000);
    assert_eq!(result.severity, 2);
}

#[test]
fn aggregate_scores_at_most_five() {
    let many: Vec<DetectionBox> =
        (0..7).map(|i| boxed(i * 100, 0, i * 100 + 10, 10, 100_000 * i as u32, "x")).collect();
    let result = aggregate(many.clone());
    assert_eq!(result.boxes, many);
    assert_eq!(result.avg_confidence, 300_000);
    assert_eq!(result.severity, 5);
}

#[test]
fn boxes_can_be_told_apart_by_their_rectangles() {
    let merged = merge_boxes(vec![plain(0, 0, 4, 4), plain(10, 10, 14, 14)]);
    assert_eq!(rectangle(&merged[0]), (0, 0, 4, 4));
    assert_eq!(rectangle(&merged[1]), (10, 10, 14, 14));
}
