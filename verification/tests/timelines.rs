use spine::format::{
    BoneRotateTimeline, BoneScaleTimeline, BoneTimeline as BoneRecord, BoneTranslateTimeline, Curve,
    SlotAttachmentTimeline, SlotColorTimeline, SlotTimeline as SlotRecord,
};
use spine::scalar::Scalar;
use spine::skeleton::error::SkeletonError;
use spine::skeleton::timelines::{
    curve_valid, interpolate, latest, locate, BoneTimeline, CurveTimeline, CurveTimelines,
    Interpolate, Place, SlotTimeline,
};

fn tl(x: f64) -> Scalar {
    Scalar::from_micros((x * 1_000_000.0).round() as i64)
}

fn rotation(time: f64, angle: f64, curve: Option<Curve>) -> BoneRotateTimeline {
    BoneRotateTimeline { time: tl(time), curve, angle: Some(tl(angle)) }
}

fn rotations(frames: &[(f64, f64)]) -> CurveTimelines<Scalar> {
    let records: Vec<BoneRotateTimeline> =
        frames.iter().map(|&(time, angle)| rotation(time, angle, None)).collect();
    CurveTimelines::from_json_vec(&records).unwrap()
}

#[test]
fn linear_curve_gives_both_ends_exactly() {
    let a = tl(-3.25);
    let b = tl(17.000001);
    assert_eq!(interpolate(&Curve::Linear, &a, &b, Scalar::zero()), a);
    assert_eq!(interpolate(&Curve::Linear, &a, &b, Scalar::one()), b);
    let p = [tl(1.0), tl(-2.0)];
    let q = [tl(5.0), tl(8.0)];
    assert_eq!(interpolate(&Curve::Linear, &p, &q, Scalar::zero()), p);
    assert_eq!(interpolate(&Curve::Linear, &p, &q, Scalar::one()), q);
    let c = [0u8, 10, 200, 255];
    let d = [255u8, 0, 100, 255];
    assert_eq!(interpolate(&Curve::Linear, &c, &d, Scalar::zero()), c);
    assert_eq!(interpolate(&Curve::Linear, &c, &d, Scalar::one()), d);
}

#[test]
fn linear_curve_moves_in_proportion() {
    assert_eq!(interpolate(&Curve::Linear, &tl(0.0), &tl(90.0), tl(0.5)), tl(45.0));
    assert_eq!(interpolate(&Curve::Linear, &tl(10.0), &tl(20.0), tl(0.25)), tl(12.5));
    assert_eq!(
        interpolate(&Curve::Linear, &[tl(0.0), tl(4.0)], &[tl(2.0), tl(0.0)], tl(0.5)),
        [tl(1.0), tl(2.0)]
    );
    assert_eq!(
        interpolate(&Curve::Linear, &[0u8, 255, 10, 20], &[100u8, 55, 10, 21], tl(0.5)),
        [50, 155, 10, 20]
    );
}

#[test]
fn time_fraction_is_held_between_zero_and_one() {
    assert_eq!(interpolate(&Curve::Linear, &tl(0.0), &tl(10.0), tl(-1.0)), tl(0.0));
    assert_eq!(interpolate(&Curve::Linear, &tl(0.0), &tl(10.0), tl(2.0)), tl(10.0));
}

#[test]
fn stepped_curve_holds_the_first_value() {
    for t in [0.0, 0.1, 0.5, 0.999999, 1.0] {
        assert_eq!(interpolate(&Curve::Stepped, &tl(3.0), &tl(9.0), tl(t)), tl(3.0));
    }
}

#[test]
fn bezier_on_the_diagonal_is_linear() {
    // control points on the diagonal: the curve is the straight line
    let curve = Curve::Bezier(tl(0.25), tl(0.25), tl(0.75), tl(0.75));
    for i in 0..=20 {
        let t = i as f64 / 20.0;
        let value = interpolate(&curve, &tl(0.0), &tl(1.0), tl(t));
        assert!((value.micros as f64 - t * 1e6).abs() <= 3.0, "at {}: {}", t, value.micros);
    }
}

#[test]
fn bezier_samples_match_the_curve() {
    let points = CurveTimeline::<Scalar>::compute_points(&Curve::Bezier(
        tl(0.25),
        tl(0.0),
        tl(0.75),
        tl(1.0),
    ))
    .unwrap();
    assert_eq!(points.0.len(), 10);
    assert_eq!(points.1.len(), 10);
    // at u = 0.5: x = 3/8 * 0.25 + 3/8 * 0.75 + 1/8 = 0.5, y = 3/8 * 1 + 1/8 = 0.5
    assert_eq!(points.0[4], tl(0.5));
    assert_eq!(points.1[4], tl(0.5));
    // at u = 0.1: x = 3 * 0.81 * 0.1 * 0.25 + 3 * 0.9 * 0.01 * 0.75 + 0.001 = 0.082
    assert_eq!(points.0[0], tl(0.082));
    // y = 3 * 0.9 * 0.01 * 1 + 0.001 = 0.028
    assert_eq!(points.1[0], tl(0.028));
    assert_eq!(points.0[9], tl(1.0));
    assert_eq!(points.1[9], tl(1.0));
    assert!(CurveTimeline::<Scalar>::compute_points(&Curve::Linear).is_none());
    assert!(CurveTimeline::<Scalar>::compute_points(&Curve::Stepped).is_none());
}

#[test]
fn bezier_eases_in_and_out() {
    let curve = Curve::Bezier(tl(0.25), tl(0.0), tl(0.75), tl(1.0));
    let frame = CurveTimeline { time: tl(0.0), curve, value: tl(0.0) };
    assert_eq!(frame.get_percent(tl(0.0)), tl(0.0));
    assert_eq!(frame.get_percent(tl(1.0)), tl(1.0));
    assert_eq!(frame.get_percent(tl(0.5)), tl(0.5));
    let early = frame.get_percent(tl(0.2));
    let late = frame.get_percent(tl(0.8));
    assert!(early.micros < 200_000);
    assert!(late.micros > 800_000);
    // between the samples (0.082, 0.028) and (0.176, 0.104): 0.028 + 0.076 * 0.255319
    assert_eq!(frame.get_percent(tl(0.106)), Scalar::from_micros(28_000 + 19_404));
}

#[test]
fn get_percent_of_the_simple_curves() {
    let linear = CurveTimeline { time: tl(0.0), curve: Curve::Linear, value: 0u8 };
    let stepped = CurveTimeline { time: tl(0.0), curve: Curve::Stepped, value: 0u8 };
    assert_eq!(linear.get_percent(tl(0.3)), tl(0.3));
    assert_eq!(stepped.get_percent(tl(0.3)), tl(0.0));
}

#[test]
fn timeline_before_first_and_after_last() {
    let timeline = rotations(&[(1.0, 10.0), (2.0, 20.0), (4.0, 40.0)]);
    assert_eq!(timeline.interpolate(tl(0.0)), Some(tl(10.0)));
    assert_eq!(timeline.interpolate(tl(0.999999)), Some(tl(10.0)));
    assert_eq!(timeline.interpolate(tl(4.0)), Some(tl(40.0)));
    assert_eq!(timeline.interpolate(tl(5.0)), Some(tl(40.0)));
    assert_eq!(timeline.interpolate(tl(500.0)), Some(tl(40.0)));
}

#[test]
fn timeline_between_keyframes() {
    let timeline = rotations(&[(1.0, 10.0), (2.0, 20.0), (4.0, 40.0)]);
    assert_eq!(timeline.interpolate(tl(1.0)), Some(tl(10.0)));
    assert_eq!(timeline.interpolate(tl(1.5)), Some(tl(15.0)));
    assert_eq!(timeline.interpolate(tl(2.0)), Some(tl(20.0)));
    assert_eq!(timeline.interpolate(tl(3.0)), Some(tl(30.0)));
    assert_eq!(timeline.interpolate(tl(3.5)), Some(tl(35.0)));
}

#[test]
fn timeline_without_keyframes_has_no_value() {
    let timeline = rotations(&[]);
    assert_eq!(timeline.interpolate(tl(1.0)), None);
}

#[test]
fn timeline_with_one_keyframe_is_constant() {
    let timeline = rotations(&[(1.0, 10.0)]);
    for t in [-1.0, 0.0, 1.0, 2.0] {
        assert_eq!(timeline.interpolate(tl(t)), Some(tl(10.0)));
    }
}

#[test]
fn timeline_with_two_keyframes_at_one_time() {
    let timeline = rotations(&[(0.0, 0.0), (1.0, 10.0), (1.0, 50.0), (2.0, 60.0)]);
    assert_eq!(timeline.interpolate(tl(0.5)), Some(tl(5.0)));
    assert_eq!(timeline.interpolate(tl(1.0)), Some(tl(50.0)));
    assert_eq!(timeline.interpolate(tl(1.5)), Some(tl(55.0)));
}

#[test]
fn timeline_tolerates_keyframes_out_of_order() {
    let timeline = rotations(&[(2.0, 20.0), (1.0, 10.0), (3.0, 30.0)]);
    assert_eq!(timeline.interpolate(tl(0.0)), Some(tl(20.0)));
    assert_eq!(timeline.interpolate(tl(3.5)), Some(tl(30.0)));
    // the only neighbours with 2.5 between them are the last two
    assert_eq!(timeline.interpolate(tl(2.5)), Some(tl(25.0)));
}

#[test]
fn stepped_timeline_jumps_at_the_keyframe() {
    let records = vec![
        rotation(0.0, 0.0, Some(Curve::Stepped)),
        rotation(1.0, 90.0, Some(Curve::Stepped)),
    ];
    let timeline = CurveTimelines::<Scalar>::from_json_vec(&records).unwrap();
    assert_eq!(timeline.interpolate(tl(0.5)), Some(tl(0.0)));
    assert_eq!(timeline.interpolate(tl(0.999999)), Some(tl(0.0)));
    assert_eq!(timeline.interpolate(tl(1.0)), Some(tl(90.0)));
}

#[test]
fn locate_finds_the_governing_keyframe() {
    let timeline = rotations(&[(1.0, 10.0), (2.0, 20.0), (4.0, 40.0)]);
    assert_eq!(locate(&timeline.timelines, tl(0.5)), Place::At(0));
    assert_eq!(locate(&timeline.timelines, tl(1.0)), Place::Between(0));
    assert_eq!(locate(&timeline.timelines, tl(2.0)), Place::Between(1));
    assert_eq!(locate(&timeline.timelines, tl(3.9)), Place::Between(1));
    assert_eq!(locate(&timeline.timelines, tl(4.0)), Place::At(2));
    let none = rotations(&[]);
    assert_eq!(locate(&none.timelines, tl(4.0)), Place::Nowhere);
}

#[test]
fn latest_is_the_greatest_time() {
    let timeline = rotations(&[(1.0, 10.0), (4.0, 20.0), (2.0, 40.0)]);
    assert_eq!(latest(&timeline.timelines, Scalar::zero()), tl(4.0));
    assert_eq!(latest(&timeline.timelines, tl(7.0)), tl(7.0));
    assert_eq!(latest(&rotations(&[]).timelines, Scalar::zero()), Scalar::zero());
}

#[test]
fn records_take_their_defaults() {
    let translate = vec![BoneTranslateTimeline { time: tl(0.0), curve: None, x: None, y: Some(tl(2.0)) }];
    let scale = vec![BoneScaleTimeline { time: tl(0.0), curve: None, x: None, y: Some(tl(2.0)) }];
    let rotate = vec![BoneRotateTimeline { time: tl(0.0), curve: None, angle: None }];
    let t = CurveTimelines::<[Scalar; 2]>::from_json_vec(&translate).unwrap();
    let s = CurveTimelines::<[Scalar; 2]>::from_json_vec(&scale).unwrap();
    let r = CurveTimelines::<Scalar>::from_json_vec(&rotate).unwrap();
    assert_eq!(t.timelines[0].value, [tl(0.0), tl(2.0)]);
    assert_eq!(s.timelines[0].value, [tl(1.0), tl(2.0)]);
    assert_eq!(r.timelines[0].value, tl(0.0));
    assert_eq!(t.timelines[0].curve, Curve::Linear);
}

#[test]
fn curve_outside_the_time_range_is_refused() {
    assert!(curve_valid(&Curve::Linear));
    assert!(curve_valid(&Curve::Stepped));
    assert!(curve_valid(&Curve::Bezier(tl(0.0), tl(-3.0), tl(1.0), tl(5.0))));
    assert!(!curve_valid(&Curve::Bezier(tl(-0.000001), tl(0.0), tl(1.0), tl(1.0))));
    assert!(!curve_valid(&Curve::Bezier(tl(0.5), tl(0.0), tl(1.000001), tl(1.0))));
    let records = vec![
        rotation(0.0, 0.0, None),
        rotation(1.0, 0.0, Some(Curve::Bezier(tl(2.0), tl(0.0), tl(0.5), tl(1.0)))),
    ];
    assert!(matches!(
        CurveTimelines::<Scalar>::from_json_vec(&records),
        Err(SkeletonError::InvalidCurveDescriptor)
    ));
}

#[test]
fn colour_keyframes_are_read_from_hexadecimal() {
    let records = vec![
        SlotColorTimeline { time: tl(0.0), color: Some("ff000080".to_string()), curve: None },
        SlotColorTimeline { time: tl(1.0), color: None, curve: None },
    ];
    let colors = CurveTimelines::<[u8; 4]>::from_json_vec(&records).unwrap();
    assert_eq!(colors.timelines[0].value, [255, 0, 0, 128]);
    assert_eq!(colors.timelines[1].value, [255, 255, 255, 255]);
    assert_eq!(colors.interpolate(tl(0.5)), Some([255, 127, 127, 191]));
    let bad = vec![SlotColorTimeline { time: tl(0.0), color: Some("ff00".to_string()), curve: None }];
    assert!(matches!(
        CurveTimelines::<[u8; 4]>::from_json_vec(&bad),
        Err(SkeletonError::InvalidColor(_))
    ));
}

#[test]
fn first_failing_record_decides_the_error() {
    let records = vec![
        SlotColorTimeline {
            time: tl(0.0),
            color: Some("ffffffff".to_string()),
            curve: Some(Curve::Bezier(tl(3.0), tl(0.0), tl(0.0), tl(0.0))),
        },
        SlotColorTimeline { time: tl(1.0), color: Some("xyz".to_string()), curve: None },
    ];
    assert!(matches!(
        CurveTimelines::<[u8; 4]>::from_json_vec(&records),
        Err(SkeletonError::InvalidCurveDescriptor)
    ));
    let records = vec![
        SlotColorTimeline {
            time: tl(0.0),
            color: Some("xyz".to_string()),
            curve: Some(Curve::Bezier(tl(3.0), tl(0.0), tl(0.0), tl(0.0))),
        },
    ];
    assert!(matches!(
        CurveTimelines::<[u8; 4]>::from_json_vec(&records),
        Err(SkeletonError::InvalidColor(_))
    ));
}

#[test]
fn bone_timeline_adds_to_the_setup_pose() {
    let record = BoneRecord {
        translate: vec![
            BoneTranslateTimeline { time: tl(0.0), curve: None, x: Some(tl(0.0)), y: Some(tl(0.0)) },
            BoneTranslateTimeline { time: tl(1.0), curve: None, x: Some(tl(10.0)), y: Some(tl(-4.0)) },
        ],
        rotate: vec![rotation(0.0, 0.0, None), rotation(0.5, 90.0, None)],
        scale: vec![],
    };
    let timeline = BoneTimeline::from_json(&record).unwrap();
    let srt = timeline.srt(tl(0.25));
    assert_eq!(srt.position, [tl(2.5), tl(-1.0)]);
    assert_eq!(srt.rotation, tl(45.0));
    assert_eq!(srt.scale, [tl(1.0), tl(1.0)]);
    let empty = BoneTimeline::from_json(&BoneRecord { translate: vec![], rotate: vec![], scale: vec![] })
        .unwrap();
    let srt = empty.srt(tl(0.25));
    assert_eq!(srt.position, [tl(0.0), tl(0.0)]);
    assert_eq!(srt.rotation, tl(0.0));
    assert_eq!(srt.scale, [tl(1.0), tl(1.0)]);
    assert_eq!((srt.cos, srt.sin), (tl(1.0), tl(0.0)));
}

#[test]
fn slot_timeline_switches_attachments() {
    let record = SlotRecord {
        attachment: vec![
            SlotAttachmentTimeline { time: tl(1.0), name: Some("eyes".to_string()) },
            SlotAttachmentTimeline { time: tl(2.0), name: None },
            SlotAttachmentTimeline { time: tl(3.0), name: Some("eyes-closed".to_string()) },
        ],
        color: vec![],
    };
    let timeline = SlotTimeline::from_json(&record).unwrap();
    assert_eq!(timeline.interpolate_attachment(tl(0.0)), Some(Some("eyes")));
    assert_eq!(timeline.interpolate_attachment(tl(1.5)), Some(Some("eyes")));
    assert_eq!(timeline.interpolate_attachment(tl(2.0)), Some(None));
    assert_eq!(timeline.interpolate_attachment(tl(2.999999)), Some(None));
    assert_eq!(timeline.interpolate_attachment(tl(3.0)), Some(Some("eyes-closed")));
    assert_eq!(timeline.interpolate_attachment(tl(9.0)), Some(Some("eyes-closed")));
    assert_eq!(timeline.interpolated_color(tl(1.0), [1, 2, 3, 4]), [1, 2, 3, 4]);
    let none = SlotTimeline::from_json(&SlotRecord { attachment: vec![], color: vec![] }).unwrap();
    assert_eq!(none.interpolate_attachment(tl(0.0)), None);
}

#[test]
fn interpolate_of_a_value_moves_it() {
    assert_eq!(tl(2.0).interpolate(&tl(4.0), tl(0.5)), tl(3.0));
    assert_eq!([0u8, 0, 0, 0].interpolate(&[255, 255, 255, 255], tl(2.0)), [255, 255, 255, 255]);
    assert_eq!([10u8, 0, 0, 0].interpolate(&[0, 255, 255, 255], tl(-1.0)), [20, 0, 0, 0]);
}
