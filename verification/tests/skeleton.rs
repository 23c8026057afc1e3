use spine::format::{
    Animation, Attachment, AttachmentType, Bone, BoneRotateTimeline, BoneTimeline,
    BoneTranslateTimeline, Curve, Document, Slot, SlotAttachmentTimeline, SlotColorTimeline,
    SlotTimeline,
};
use spine::hex::HexError;
use spine::scalar::Scalar;
use spine::skeleton::error::SkeletonError;
use spine::skeleton::{bone_index, slot_index, Skeleton, SRT};

fn sk(x: f64) -> Scalar {
    Scalar::from_micros((x * 1_000_000.0).round() as i64)
}

fn bone(name: &str, parent: Option<&str>) -> Bone {
    Bone {
        name: name.to_string(),
        parent: parent.map(|p| p.to_string()),
        length: None,
        x: None,
        y: None,
        scale_x: None,
        scale_y: None,
        rotation: None,
        inherit_scale: None,
        inherit_rotation: None,
    }
}

fn slot(name: &str, bone: &str, attachment: Option<&str>) -> Slot {
    Slot {
        name: name.to_string(),
        bone: bone.to_string(),
        color: None,
        attachment: attachment.map(|a| a.to_string()),
    }
}

fn attachment(name: Option<&str>) -> Attachment {
    Attachment {
        name: name.map(|n| n.to_string()),
        type_: None,
        x: None,
        y: None,
        scale_x: None,
        scale_y: None,
        rotation: None,
        width: Some(sk(2.0)),
        height: Some(sk(2.0)),
        fps: None,
        mode: None,
    }
}

fn animation() -> Animation {
    Animation { bones: vec![], slots: vec![], events: vec![], draworder: vec![] }
}

/// A figure in the shape of the usual example: a body of bones, one slot
/// for each part, one skin and two animations.
fn figure() -> Document {
    let parts = [
        ("left shoulder", "left-shoulder"),
        ("left arm", "left-arm"),
        ("left hand", "left-hand"),
        ("left foot", "left-foot"),
        ("left lower leg", "left-lower-leg"),
        ("left upper leg", "left-upper-leg"),
        ("pelvis", "pelvis"),
        ("right foot", "right-foot"),
        ("right lower leg", "right-lower-leg"),
        ("right upper leg", "right-upper-leg"),
        ("torso", "torso"),
        ("neck", "neck"),
        ("head", "head"),
        ("eyes", "eyes"),
        ("right shoulder", "right-shoulder"),
        ("right arm", "right-arm"),
        ("right hand", "right-hand"),
    ];
    let mut bones = vec![bone("root", None)];
    let mut slots = Vec::new();
    let mut skin = Vec::new();
    for (part, image) in parts {
        let carrier = if part == "eyes" { "head" } else { part };
        if part != "eyes" {
            bones.push(bone(part, Some("root")));
        }
        slots.push(slot(part, carrier, Some(image)));
        let mut images = vec![(image.to_string(), attachment(None))];
        if part == "eyes" {
            images.push(("eyes-closed".to_string(), attachment(None)));
        }
        skin.push((part.to_string(), images));
    }
    let mut walk = animation();
    walk.bones.push((
        "left upper leg".to_string(),
        BoneTimeline {
            rotate: vec![
                BoneRotateTimeline { time: sk(0.0), curve: None, angle: Some(sk(-26.55)) },
                BoneRotateTimeline { time: sk(0.1333), curve: None, angle: Some(sk(-8.78)) },
                BoneRotateTimeline { time: sk(0.2666), curve: None, angle: Some(sk(9.51)) },
                BoneRotateTimeline { time: sk(0.4), curve: None, angle: Some(sk(30.74)) },
            ],
            translate: vec![
                BoneTranslateTimeline { time: sk(0.0), curve: None, x: Some(sk(-3.0)), y: Some(sk(-2.25)) },
                BoneTranslateTimeline { time: sk(0.4), curve: None, x: Some(sk(-2.18)), y: Some(sk(-2.25)) },
                BoneTranslateTimeline { time: sk(1.0666), curve: None, x: Some(sk(-3.0)), y: Some(sk(-2.25)) },
            ],
            scale: vec![],
        },
    ));
    let mut jump = animation();
    jump.slots.push((
        "eyes".to_string(),
        SlotTimeline {
            attachment: vec![
                SlotAttachmentTimeline { time: sk(0.0), name: Some("eyes-closed".to_string()) },
                SlotAttachmentTimeline { time: sk(0.8), name: Some("eyes".to_string()) },
            ],
            color: vec![SlotColorTimeline {
                time: sk(1.3),
                color: Some("ffffff80".to_string()),
                curve: Some(Curve::Stepped),
            }],
        },
    ));
    Document {
        bones,
        slots,
        skins: vec![("default".to_string(), skin)],
        animations: vec![("walk".to_string(), walk), ("jump".to_string(), jump)],
    }
}

#[test]
fn animations_names() {
    let doc = Skeleton::from_json(figure()).unwrap();

    let names = doc.get_animations_names();

    assert!(names.get(0).unwrap() == &"walk" || names.get(0).unwrap() == &"jump");
    assert!(names.get(1).unwrap() == &"walk" || names.get(1).unwrap() == &"jump");

    assert!(names.contains(&"walk"));
    assert!(names.contains(&"jump"));
    assert!(!names.contains(&"crawl"));
}

#[test]
fn skins_names() {
    let doc = Skeleton::from_json(figure()).unwrap();
    let skins = doc.get_skins_names();
    assert!(skins.get(0).unwrap() == &"default");

    assert!(skins.contains(&"default"));
    assert!(doc.get_skin("default").is_ok());

    assert!(!skins.contains(&"nonexisting"));
    assert!(doc.get_skin("nonexisting").is_err());
}

#[test]
fn attachement_names() {
    let doc = Skeleton::from_json(figure()).unwrap();

    let mut results = doc.get_attachments_names();
    results.sort();

    assert!(
        results
            == [
                "eyes",
                "eyes-closed",
                "head",
                "left-arm",
                "left-foot",
                "left-hand",
                "left-lower-leg",
                "left-shoulder",
                "left-upper-leg",
                "neck",
                "pelvis",
                "right-arm",
                "right-foot",
                "right-hand",
                "right-lower-leg",
                "right-shoulder",
                "right-upper-leg",
                "torso"
            ]
    );
}

#[test]
fn attachment_names_come_sorted_and_once() {
    let mut doc = figure();
    // a second skin that shows some of the same images, and one under another name
    doc.skins.push((
        "armour".to_string(),
        vec![
            ("head".to_string(), vec![("head".to_string(), attachment(Some("helmet")))]),
            ("torso".to_string(), vec![("torso".to_string(), attachment(None))]),
        ],
    ));
    let skeleton = Skeleton::from_json(doc).unwrap();
    let names = skeleton.get_attachments_names();
    let mut sorted = names.clone();
    sorted.sort();
    sorted.dedup();
    assert_eq!(names, sorted);
    assert_eq!(names.len(), 19);
    assert!(names.contains(&"helmet"));
    assert_eq!(names.iter().filter(|n| **n == "torso").count(), 1);
}

#[test]
fn bones_resolve_their_parents() {
    let skeleton = Skeleton::from_json(figure()).unwrap();
    let bones = skeleton.bones();
    assert_eq!(bones.len(), 17);
    assert_eq!(bones[0].parent_index, None);
    for b in &bones[1..] {
        assert_eq!(b.parent_index, Some(0));
    }
    assert_eq!(skeleton.order(), &(0..17).collect::<Vec<usize>>());
    assert_eq!(bone_index("pelvis", bones).unwrap(), 7);
    assert!(matches!(bone_index("tail", bones), Err(SkeletonError::BoneNotFound(n)) if n == "tail"));
    let slots = skeleton.slots();
    assert_eq!(slot_index("eyes", slots).unwrap(), 13);
    assert_eq!(slots[13].bone_index, bone_index("head", bones).unwrap());
    assert!(matches!(slot_index("tail", slots), Err(SkeletonError::SlotNotFound(n)) if n == "tail"));
}

#[test]
fn bones_take_their_defaults() {
    let mut doc = figure();
    doc.bones[1].x = Some(sk(64.02));
    doc.bones[1].rotation = Some(sk(90.0));
    doc.bones[1].inherit_rotation = Some(false);
    let skeleton = Skeleton::from_json(doc).unwrap();
    let bones = skeleton.bones();
    assert_eq!(bones[0].srt.scale, [sk(1.0), sk(1.0)]);
    assert_eq!(bones[0].srt.rotation, sk(0.0));
    assert_eq!(bones[0].srt.position, [sk(0.0), sk(0.0)]);
    assert_eq!((bones[0].srt.cos, bones[0].srt.sin), (sk(1.0), sk(0.0)));
    assert!(bones[0].inherit_rotation && bones[0].inherit_scale);
    assert_eq!(bones[1].srt.position, [sk(64.02), sk(0.0)]);
    assert_eq!((bones[1].srt.cos, bones[1].srt.sin), (sk(0.0), sk(1.0)));
    assert!(!bones[1].inherit_rotation && bones[1].inherit_scale);
}

#[test]
fn a_parent_must_be_declared_before_its_child() {
    let mut doc = figure();
    doc.bones.push(bone("tail", Some("tip")));
    doc.bones.push(bone("tip", Some("root")));
    assert!(matches!(
        Skeleton::from_json(doc),
        Err(SkeletonError::BoneNotFound(n)) if n == "tip"
    ));
    let mut doc = figure();
    doc.bones.push(bone("tail", Some("tail")));
    assert!(matches!(
        Skeleton::from_json(doc),
        Err(SkeletonError::BoneNotFound(n)) if n == "tail"
    ));
}

#[test]
fn a_slot_needs_its_bone_and_a_colour() {
    let mut doc = figure();
    doc.slots.push(slot("tail", "tail", None));
    assert!(matches!(
        Skeleton::from_json(doc),
        Err(SkeletonError::BoneNotFound(n)) if n == "tail"
    ));
    let mut doc = figure();
    doc.slots[0].color = Some("ff00ff".to_string());
    assert!(matches!(
        Skeleton::from_json(doc),
        Err(SkeletonError::InvalidColor(HexError::InvalidHexLength))
    ));
    let mut doc = figure();
    doc.slots[0].color = Some("ff00ffzz".to_string());
    assert!(matches!(
        Skeleton::from_json(doc),
        Err(SkeletonError::InvalidColor(HexError::InvalidHexCharacter('z', 6)))
    ));
    let mut doc = figure();
    doc.slots[0].color = Some("ff00ff80".to_string());
    let skeleton = Skeleton::from_json(doc).unwrap();
    assert_eq!(skeleton.slots()[0].color, [255, 0, 255, 128]);
    assert_eq!(skeleton.slots()[1].color, [255, 255, 255, 255]);
}

#[test]
fn skins_and_animations_need_their_slots_and_bones() {
    let mut doc = figure();
    doc.skins[0].1.push(("tail".to_string(), vec![]));
    assert!(matches!(
        Skeleton::from_json(doc),
        Err(SkeletonError::SlotNotFound(n)) if n == "tail"
    ));
    let mut doc = figure();
    doc.animations[0].1.bones.push((
        "tail".to_string(),
        BoneTimeline { translate: vec![], rotate: vec![], scale: vec![] },
    ));
    assert!(matches!(
        Skeleton::from_json(doc),
        Err(SkeletonError::BoneNotFound(n)) if n == "tail"
    ));
    let mut doc = figure();
    doc.animations[1].1.slots.push((
        "tail".to_string(),
        SlotTimeline { attachment: vec![], color: vec![] },
    ));
    assert!(matches!(
        Skeleton::from_json(doc),
        Err(SkeletonError::SlotNotFound(n)) if n == "tail"
    ));
}

#[test]
fn curves_and_colours_of_keyframes_are_checked() {
    let mut doc = figure();
    doc.animations[0].1.bones[0].1.rotate[2].curve =
        Some(Curve::Bezier(sk(1.5), sk(0.0), sk(0.5), sk(1.0)));
    assert!(matches!(Skeleton::from_json(doc), Err(SkeletonError::InvalidCurveDescriptor)));
    let mut doc = figure();
    doc.animations[1].1.slots[0].1.color[0].color = Some("fff".to_string());
    assert!(matches!(Skeleton::from_json(doc), Err(SkeletonError::InvalidColor(_))));
}

#[test]
fn bones_fail_before_slots_and_animations_before_skins() {
    let mut doc = figure();
    doc.bones.push(bone("tail", Some("nothing")));
    doc.slots.push(slot("tail", "nowhere", None));
    assert!(matches!(
        Skeleton::from_json(doc),
        Err(SkeletonError::BoneNotFound(n)) if n == "nothing"
    ));
    let mut doc = figure();
    doc.skins[0].1.push(("tail".to_string(), vec![]));
    doc.animations[0].1.bones.push((
        "fin".to_string(),
        BoneTimeline { translate: vec![], rotate: vec![], scale: vec![] },
    ));
    assert!(matches!(
        Skeleton::from_json(doc),
        Err(SkeletonError::BoneNotFound(n)) if n == "fin"
    ));
}

#[test]
fn of_two_entries_with_one_name_the_first_counts() {
    let mut doc = figure();
    let mut again = animation();
    again.bones.push((
        "nothing".to_string(),
        BoneTimeline { translate: vec![], rotate: vec![], scale: vec![] },
    ));
    doc.animations.push(("walk".to_string(), again));
    doc.skins.push(("default".to_string(), vec![("nothing".to_string(), vec![])]));
    let skeleton = Skeleton::from_json(doc).unwrap();
    assert_eq!(skeleton.get_animations_names(), vec!["walk", "jump"]);
    assert_eq!(skeleton.get_skins_names(), vec!["default"]);
    assert_eq!(skeleton.animation_duration("walk").unwrap(), sk(1.0666));
}

#[test]
fn duration_is_the_time_of_the_last_keyframe() {
    let skeleton = Skeleton::from_json(figure()).unwrap();
    assert_eq!(skeleton.animation_duration("walk").unwrap(), sk(1.0666));
    assert_eq!(skeleton.animation_duration("jump").unwrap(), sk(1.3));
    assert!(matches!(
        skeleton.animation_duration("crawl"),
        Err(SkeletonError::AnimationNotFound(n)) if n == "crawl"
    ));
    let mut doc = figure();
    doc.animations.push(("still".to_string(), animation()));
    let skeleton = Skeleton::from_json(doc).unwrap();
    assert_eq!(skeleton.animation_duration("still").unwrap(), Scalar::zero());
    assert_eq!(spine::skeleton::Animation::duration(&figure().animations[0].1), sk(1.0666));
}

#[test]
fn an_empty_document_loads() {
    let skeleton = Skeleton::from_json(Document {
        bones: vec![],
        slots: vec![],
        skins: vec![],
        animations: vec![],
    })
    .unwrap();
    assert!(skeleton.get_skins_names().is_empty());
    assert!(skeleton.get_animations_names().is_empty());
    assert!(skeleton.get_attachments_names().is_empty());
    assert!(matches!(skeleton.get_skin("default"), Err(SkeletonError::SkinNotFound(n)) if n == "default"));
}

#[test]
fn skin_finds_attachments_of_a_slot() {
    let skeleton = Skeleton::from_json(figure()).unwrap();
    let skin = skeleton.get_skin("default").unwrap();
    assert!(skin.find(13, "eyes").is_some());
    assert!(skin.find(13, "eyes-closed").is_some());
    assert!(skin.find(13, "head").is_none());
    assert!(skin.find(12, "head").is_some());
    assert!(skin.find(99, "head").is_none());
}

#[test]
fn attachments_keep_their_corners() {
    let mut doc = figure();
    let image = &mut doc.skins[0].1[0].1[0].1;
    image.x = Some(sk(10.0));
    image.y = Some(sk(-5.0));
    image.width = Some(sk(4.0));
    image.height = Some(sk(2.0));
    image.rotation = Some(sk(90.0));
    image.type_ = Some(AttachmentType::BoundingBox);
    let skeleton = Skeleton::from_json(doc).unwrap();
    let skin = skeleton.get_skin("default").unwrap();
    let positions = skin.attachment_positions();
    assert_eq!(positions.len(), 18);
    assert_eq!(positions[0].0, "left-shoulder");
    // turned by a quarter: (x, y) goes to (-y, x), then moved by (10, -5)
    assert_eq!(
        positions[0].1,
        &[
            [sk(9.0), sk(-7.0)],
            [sk(9.0), sk(-3.0)],
            [sk(11.0), sk(-3.0)],
            [sk(11.0), sk(-7.0)],
        ]
    );
    assert_eq!(
        positions[1].1,
        &[
            [sk(-1.0), sk(1.0)],
            [sk(1.0), sk(1.0)],
            [sk(1.0), sk(-1.0)],
            [sk(-1.0), sk(-1.0)],
        ]
    );
    let found = skin.find(0, "left-shoulder").unwrap();
    assert_eq!(found.type_, AttachmentType::BoundingBox);
    assert_eq!(found.size, [sk(4.0), sk(2.0)]);
    assert_eq!(skin.find(1, "left-arm").unwrap().type_, AttachmentType::Region);
}

#[test]
fn srt_transforms_points() {
    let srt = SRT::new(sk(2.0), sk(3.0), sk(90.0), sk(10.0), sk(20.0));
    assert_eq!(srt.scale, [sk(2.0), sk(3.0)]);
    assert_eq!(srt.rotation, sk(90.0));
    assert_eq!(srt.position, [sk(10.0), sk(20.0)]);
    assert_eq!((srt.cos, srt.sin), (sk(0.0), sk(1.0)));
    // scaled to (2, 3), turned to (-3, 2), moved to (7, 22)
    assert_eq!(srt.transform([sk(1.0), sk(1.0)]), [sk(7.0), sk(22.0)]);
    let plain = SRT::new(sk(1.0), sk(1.0), sk(0.0), sk(0.0), sk(0.0));
    assert_eq!(plain.transform([sk(-4.5), sk(0.25)]), [sk(-4.5), sk(0.25)]);
}

#[test]
fn srt_converts_to_matrices() {
    let srt = SRT::new(sk(2.0), sk(3.0), sk(0.0), sk(10.0), sk(20.0));
    let o = sk(0.0);
    let i = sk(1.0);
    assert_eq!(srt.to_matrix3(), [[sk(2.0), o, o], [o, sk(3.0), o], [sk(10.0), sk(20.0), i]]);
    assert_eq!(
        srt.to_matrix4(),
        [[sk(2.0), o, o, o], [o, sk(3.0), o, o], [o, o, i, o], [sk(10.0), sk(20.0), o, i]]
    );
    let turned = SRT::new(sk(2.0), sk(3.0), sk(90.0), sk(0.0), sk(0.0));
    assert_eq!(turned.to_matrix3(), [[o, i, o], [sk(-1.0), o, o], [o, o, i]]);
}

#[test]
fn errors_describe_themselves() {
    let e = SkeletonError::BoneNotFound("tail".to_string());
    assert_eq!(e.description(), "bone cannot be found in skeleton bones");
    assert_eq!(e.message(), "Cannot find bone 'tail'");
    assert_eq!(SkeletonError::SlotNotFound("a".to_string()).message(), "Cannot find slot 'a'");
    assert_eq!(SkeletonError::SkinNotFound("a".to_string()).message(), "Cannot find skin 'a'");
    assert_eq!(
        SkeletonError::AnimationNotFound("a".to_string()).message(),
        "Cannot find animation 'a'"
    );
    assert_eq!(
        SkeletonError::AttachmentNotFound("a".to_string()).message(),
        "Cannot find attachment 'a'"
    );
    assert_eq!(
        SkeletonError::InvalidColor(HexError::InvalidHexLength).description(),
        "color cannot be parsed"
    );
    assert_eq!(SkeletonError::InvalidCurveDescriptor.message(), "Cannot use curve");
    assert_eq!(SkeletonError::CyclicHierarchy.message(), "Cannot order bones");
}

#[test]
fn defaults_of_the_records() {
    assert_eq!(AttachmentType::default(), AttachmentType::Region);
    assert_eq!(Curve::default(), Curve::Linear);
}
