//! The records of a Spine document, as an exported file lists them.
//!
//! Maps of the document are lists of named entries in document order. Where a
//! field may be left out of a document it is an `Option`; loading fills in the
//! default.

use vstd::prelude::*;
use crate::scalar::Scalar;

verus! {

/// A whole document.
#[derive(Debug, Clone)]
pub struct Document {
    /// The bones, parents before their children.
    pub bones: Vec<Bone>,
    /// The slots, in draw order from bottom to top.
    pub slots: Vec<Slot>,
    /// Skin name, then slot name, then attachment name.
    pub skins: Vec<(String, Vec<(String, Vec<(String, Attachment)>)>)>,
    /// The animations by name.
    pub animations: Vec<(String, Animation)>,
}

/// A bone of the document.
#[derive(Debug, Clone)]
pub struct Bone {
    pub name: String,
    /// The name of the parent bone; `None` for a root.
    pub parent: Option<String>,
    pub length: Option<Scalar>,
    pub x: Option<Scalar>,
    pub y: Option<Scalar>,
    pub scale_x: Option<Scalar>,
    pub scale_y: Option<Scalar>,
    /// The rotation in degrees.
    pub rotation: Option<Scalar>,
    pub inherit_scale: Option<bool>,
    pub inherit_rotation: Option<bool>,
}

/// A slot of the document.
#[derive(Debug, Clone)]
pub struct Slot {
    pub name: String,
    /// The name of the bone that carries the slot.
    pub bone: String,
    /// The tint as eight hexadecimal digits, red first.
    pub color: Option<String>,
    /// The name of the attachment shown in the setup pose.
    pub attachment: Option<String>,
}

/// An attachment of a skin.
#[derive(Debug, Clone)]
pub struct Attachment {
    /// The name to draw under, where it differs from the entry's key.
    pub name: Option<String>,
    pub type_: Option<AttachmentType>,
    pub x: Option<Scalar>,
    pub y: Option<Scalar>,
    pub scale_x: Option<Scalar>,
    pub scale_y: Option<Scalar>,
    /// The rotation in degrees.
    pub rotation: Option<Scalar>,
    pub width: Option<Scalar>,
    pub height: Option<Scalar>,
    pub fps: Option<Scalar>,
    pub mode: Option<String>,
}

/// What kind of thing an attachment is.
#[derive(Debug, Clone, Copy, PartialEq, Eq, Structural)]
pub enum AttachmentType {
    Region,
    RegionSequence,
    BoundingBox,
}

impl Default for AttachmentType {
    fn default() -> (r: AttachmentType)
        ensures
            r == AttachmentType::Region,
    {
        AttachmentType::Region
    }
}

/// An event that animations can fire.
#[derive(Debug, Clone)]
pub struct Event {
    pub name: String,
    pub int_: i32,
    pub float_: Scalar,
    pub string: Option<String>,
}

/// An animation of the document.
#[derive(Debug, Clone)]
pub struct Animation {
    /// The timelines of each animated bone, by bone name.
    pub bones: Vec<(String, BoneTimeline)>,
    /// The timelines of each animated slot, by slot name.
    pub slots: Vec<(String, SlotTimeline)>,
    pub events: Vec<EventKeyframe>,
    pub draworder: Vec<DrawOrderTimeline>,
}

/// The timelines of one bone.
#[derive(Debug, Clone)]
pub struct BoneTimeline {
    pub translate: Vec<BoneTranslateTimeline>,
    pub rotate: Vec<BoneRotateTimeline>,
    pub scale: Vec<BoneScaleTimeline>,
}

/// A keyframe that moves a bone.
#[derive(Debug, Clone, Copy)]
pub struct BoneTranslateTimeline {
    pub time: Scalar,
    pub curve: Option<Curve>,
    pub x: Option<Scalar>,
    pub y: Option<Scalar>,
}

/// How a value moves from one keyframe to the next.
#[derive(Debug, Clone, Copy, PartialEq, Eq, Structural)]
pub enum Curve {
    /// In proportion to the time that has passed.
    Linear,
    /// Not at all: the value holds, then jumps.
    Stepped,
    /// Along a cubic Bézier curve from (0, 0) to (1, 1) with the control
    /// points (`cx1`, `cy1`) and (`cx2`, `cy2`), given in that order.
    Bezier(Scalar, Scalar, Scalar, Scalar),
}

impl Default for Curve {
    fn default() -> (r: Curve)
        ensures
            r == Curve::Linear,
    {
        Curve::Linear
    }
}

/// A keyframe that turns a bone.
#[derive(Debug, Clone, Copy)]
pub struct BoneRotateTimeline {
    pub time: Scalar,
    pub curve: Option<Curve>,
    /// The angle in degrees.
    pub angle: Option<Scalar>,
}

/// A keyframe that scales a bone.
#[derive(Debug, Clone, Copy)]
pub struct BoneScaleTimeline {
    pub time: Scalar,
    pub curve: Option<Curve>,
    pub x: Option<Scalar>,
    pub y: Option<Scalar>,
}

/// The timelines of one slot.
#[derive(Debug, Clone)]
pub struct SlotTimeline {
    pub attachment: Vec<SlotAttachmentTimeline>,
    pub color: Vec<SlotColorTimeline>,
}

/// A keyframe that switches the attachment of a slot.
#[derive(Debug, Clone)]
pub struct SlotAttachmentTimeline {
    pub time: Scalar,
    /// The attachment to show from here on; `None` shows nothing.
    pub name: Option<String>,
}

/// A keyframe that tints a slot.
#[derive(Debug, Clone)]
pub struct SlotColorTimeline {
    pub time: Scalar,
    /// The tint as eight hexadecimal digits, red first.
    pub color: Option<String>,
    pub curve: Option<Curve>,
}

/// A keyframe that fires an event.
#[derive(Debug, Clone)]
pub struct EventKeyframe {
    pub time: Scalar,
    pub name: String,
    pub int_: i32,
    pub float_: Scalar,
    pub string_: Option<String>,
}

/// A keyframe that changes the draw order.
#[derive(Debug, Clone)]
pub struct DrawOrderTimeline {
    pub time: Scalar,
    pub offsets: Option<Vec<DrawOrderTimelineOffset>>,
}

/// How far one slot moves in the draw order.
#[derive(Debug, Clone)]
pub struct DrawOrderTimelineOffset {
    pub slot: String,
    pub offset: i32,
}

} // verus!
