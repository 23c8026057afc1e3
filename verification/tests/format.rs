use serde_json::Value;
use spine::format::{
    Bone, BoneRotateTimeline, BoneScaleTimeline, BoneTimeline, BoneTranslateTimeline, Slot,
};
use spine::scalar::Scalar;

fn number(value: &Value) -> Scalar {
    Scalar::from_micros((value.as_f64().unwrap() * 1_000_000.0).round() as i64)
}

fn text(value: &Value, key: &str) -> Option<String> {
    value.get(key).and_then(|v| v.as_str()).map(|s| s.to_string())
}

fn scalar_of(value: &Value, key: &str) -> Option<Scalar> {
    value.get(key).map(number)
}

fn slot_of(value: &Value) -> Slot {
    Slot {
        name: text(value, "name").unwrap(),
        bone: text(value, "bone").unwrap(),
        color: text(value, "color"),
        attachment: text(value, "attachment"),
    }
}

fn bone_of(value: &Value) -> Bone {
    Bone {
        name: text(value, "name").unwrap(),
        parent: text(value, "parent"),
        length: scalar_of(value, "length"),
        x: scalar_of(value, "x"),
        y: scalar_of(value, "y"),
        scale_x: scalar_of(value, "scaleX"),
        scale_y: scalar_of(value, "scaleY"),
        rotation: scalar_of(value, "rotation"),
        inherit_scale: value.get("inheritScale").and_then(|v| v.as_bool()),
        inherit_rotation: value.get("inheritRotation").and_then(|v| v.as_bool()),
    }
}

fn translation_of(value: &Value) -> BoneTranslateTimeline {
    BoneTranslateTimeline {
        time: number(&value["time"]),
        curve: None,
        x: scalar_of(value, "x"),
        y: scalar_of(value, "y"),
    }
}

fn rotation_of(value: &Value) -> BoneRotateTimeline {
    BoneRotateTimeline { time: number(&value["time"]), curve: None, angle: scalar_of(value, "angle") }
}

fn scale_of(value: &Value) -> BoneScaleTimeline {
    BoneScaleTimeline {
        time: number(&value["time"]),
        curve: None,
        x: scalar_of(value, "x"),
        y: scalar_of(value, "y"),
    }
}

fn list<T>(value: &Value, key: &str, convert: fn(&Value) -> T) -> Vec<T> {
    match value.get(key).and_then(|v| v.as_array()) {
        Some(items) => items.iter().map(convert).collect(),
        None => Vec::new(),
    }
}

fn timeline_of(value: &Value) -> BoneTimeline {
    BoneTimeline {
        translate: list(value, "translate", translation_of),
        rotate: list(value, "rotate", rotation_of),
        scale: list(value, "scale", scale_of),
    }
}

fn fixed(x: f64) -> Scalar {
    Scalar::from_micros((x * 1_000_000.0).round() as i64)
}

#[test]
fn test_slot() {
    let txt = "{ \"name\": \"left shoulder\", \"bone\": \"left shoulder\", \"attachment\": \"left-shoulder\" }";
    let slot: Slot = slot_of(&serde_json::from_str(&txt).unwrap());
    assert!(
        slot.name == "left shoulder"
            && slot.bone == "left shoulder"
            && slot.attachment == Some("left-shoulder".to_string())
            && slot.color == None
    );
}

#[test]
fn test_bone() {
    let txt = "{ \"name\": \"left foot\", \"parent\": \"left lower leg\", \"length\": 46.5, \"x\": 64.02, \"y\": -8.67, \"rotation\": 102.43 }";
    let bone: Bone = bone_of(&serde_json::from_str(&txt).unwrap());
    assert!(
        bone.name == "left foot"
            && bone.parent.unwrap() == "left lower leg"
            && bone.length == Some(fixed(46.5))
    );
    assert_eq!(bone.x, Some(fixed(64.02)));
    assert_eq!(bone.y, Some(fixed(-8.67)));
    assert_eq!(bone.rotation, Some(fixed(102.43)));
}

#[test]
fn test_translation() {
    let txt = "{ \"time\": 0, \"x\": -3, \"y\": -2.25 }";
    let trans: BoneTranslateTimeline = translation_of(&serde_json::from_str(&txt).unwrap());
    assert!(
        trans.time == fixed(0.0)
            && trans.x == Some(fixed(-3.0))
            && trans.y == Some(fixed(-2.25))
    );
}

#[test]
fn test_rotation() {
    let txt = "{ \"time\": 0.1333, \"angle\": -8.78 }";
    let rot: BoneRotateTimeline = rotation_of(&serde_json::from_str(&txt).unwrap());
    assert!(rot.time == fixed(0.1333) && rot.angle == Some(fixed(-8.78)));
    assert_eq!(rot.time.micros, 133_300);
    assert_eq!(rot.angle.unwrap().micros, -8_780_000);
}

#[test]
fn test_timeline() {
    let txt = "{
            \"rotate\": [
                { \"time\": 0, \"angle\": -26.55 },
                { \"time\": 0.1333, \"angle\": -8.78 },
                { \"time\": 0.2666, \"angle\": 9.51 },
                { \"time\": 0.4, \"angle\": 30.74 }
            ],
            \"translate\": [
                { \"time\": 0, \"x\": -3, \"y\": -2.25 },
                { \"time\": 0.4, \"x\": -2.18, \"y\": -2.25 },
                { \"time\": 1.0666, \"x\": -3, \"y\": -2.25 }
            ]
        }";
    let timeline: BoneTimeline = timeline_of(&serde_json::from_str(&txt).unwrap());

    assert!(timeline.rotate.len() == 4 && timeline.translate.len() == 3);
    assert!(timeline.scale.is_empty());
    let loaded = spine::skeleton::timelines::BoneTimeline::from_json(&timeline).unwrap();
    assert_eq!(loaded.rotate.timelines.len(), 4);
    assert_eq!(loaded.translate.timelines.len(), 3);
    assert_eq!(loaded.srt(fixed(0.2)).position, [fixed(-2.59), fixed(-2.25)]);
}
