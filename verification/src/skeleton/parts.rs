//! The parts of a skeleton: bones, slots and attachments.

use vstd::prelude::*;
use crate::format::AttachmentType;
use crate::scalar::Scalar;
use crate::skeleton::error::{ErrorView, SkeletonError};
use crate::skeleton::names::{index_of, lemma_index, spec_index, Named};
use crate::skeleton::srt::SRT;
use crate::skeleton::timelines::{color_or_white, or, spec_color_or_white, spec_or};

verus! {

/// A bone of a skeleton.
#[derive(Debug, Clone)]
pub struct Bone {
    pub name: String,
    /// The index of the parent bone, which comes earlier; `None` for a root.
    pub parent_index: Option<usize>,
    /// The setup pose, relative to the parent.
    pub srt: SRT,
    /// Whether the scale of the bone is handed down to its children.
    pub inherit_scale: bool,
    /// Whether the rotation of the bone is handed down to its children.
    pub inherit_rotation: bool,
}

impl Named for Bone {
    open spec fn spec_name(&self) -> Seq<char> {
        self.name@
    }

    fn name(&self) -> (r: &str) {
        self.name.as_str()
    }
}

/// A slot of a skeleton.
#[derive(Debug, Clone)]
pub struct Slot {
    pub name: String,
    /// The index of the bone that carries the slot.
    pub bone_index: usize,
    /// The tint, red first.
    pub color: [u8; 4],
    /// The name of the attachment shown in the setup pose.
    pub attachment: Option<String>,
}

impl Named for Slot {
    open spec fn spec_name(&self) -> Seq<char> {
        self.name@
    }

    fn name(&self) -> (r: &str) {
        self.name.as_str()
    }
}

/// The index of the bone of that name, or the error that names what was looked for.
pub open spec fn spec_bone_index(name: Seq<char>, bones: Seq<Bone>) -> Result<int, ErrorView> {
    match spec_index(bones, name) {
        Some(i) => Ok(i),
        None => Err(ErrorView::BoneNotFound(name)),
    }
}

/// The index of the slot of that name, or the error that names what was looked for.
pub open spec fn spec_slot_index(name: Seq<char>, slots: Seq<Slot>) -> Result<int, ErrorView> {
    match spec_index(slots, name) {
        Some(i) => Ok(i),
        None => Err(ErrorView::SlotNotFound(name)),
    }
}

/// Finds the first bone of that name.
pub fn bone_index(name: &str, bones: &[Bone]) -> (r: Result<usize, SkeletonError>)
    ensures
        match r {
            Ok(i) => spec_bone_index(name@, bones@) == Ok::<int, ErrorView>(i as int),
            Err(e) => spec_bone_index(name@, bones@) == Err::<int, ErrorView>(e@),
        },
{
    match index_of(bones, name) {
        Some(i) => Ok(i),
        None => Err(SkeletonError::BoneNotFound(name.to_owned())),
    }
}

/// Finds the first slot of that name.
pub fn slot_index(name: &str, slots: &[Slot]) -> (r: Result<usize, SkeletonError>)
    ensures
        match r {
            Ok(i) => spec_slot_index(name@, slots@) == Ok::<int, ErrorView>(i as int),
            Err(e) => spec_slot_index(name@, slots@) == Err::<int, ErrorView>(e@),
        },
{
    match index_of(slots, name) {
        Some(i) => Ok(i),
        None => Err(SkeletonError::SlotNotFound(name.to_owned())),
    }
}

/// The setup transform of a record, with the defaults of a document filled
/// in: a scale of one, no rotation and no translation.
pub open spec fn spec_setup(
    scale_x: Option<Scalar>,
    scale_y: Option<Scalar>,
    rotation: Option<Scalar>,
    x: Option<Scalar>,
    y: Option<Scalar>,
) -> SRT {
    SRT::spec_new(
        spec_or(scale_x, Scalar::spec_one()),
        spec_or(scale_y, Scalar::spec_one()),
        spec_or(rotation, Scalar::spec_zero()),
        spec_or(x, Scalar::spec_zero()),
        spec_or(y, Scalar::spec_zero()),
    )
}

fn setup(
    scale_x: &Option<Scalar>,
    scale_y: &Option<Scalar>,
    rotation: &Option<Scalar>,
    x: &Option<Scalar>,
    y: &Option<Scalar>,
) -> (r: SRT)
    ensures
        r == spec_setup(*scale_x, *scale_y, *rotation, *x, *y),
{
    SRT::new(
        or(scale_x, Scalar::one()),
        or(scale_y, Scalar::one()),
        or(rotation, Scalar::zero()),
        or(x, Scalar::zero()),
        or(y, Scalar::zero()),
    )
}

fn clone_name(name: &Option<String>) -> (r: Option<String>)
    ensures
        r == *name,
{
    match name {
        Some(n) => Some(n.clone()),
        None => None,
    }
}

impl Bone {
    /// The bone that a record becomes, given the bones declared before it.
    /// The parent must be among them.
    pub open spec fn spec_from_json(bone: crate::format::Bone, bones: Seq<Bone>) -> Result<
        Bone,
        ErrorView,
    > {
        let parent = match bone.parent {
            Some(name) => match spec_bone_index(name@, bones) {
                Ok(i) => Ok(Some(i as usize)),
                Err(e) => Err(e),
            },
            None => Ok(None),
        };
        match parent {
            Ok(parent_index) => Ok(
                Bone {
                    name: bone.name,
                    parent_index,
                    srt: spec_setup(bone.scale_x, bone.scale_y, bone.rotation, bone.x, bone.y),
                    inherit_scale: spec_or(bone.inherit_scale, true),
                    inherit_rotation: spec_or(bone.inherit_rotation, true),
                },
            ),
            Err(e) => Err(e),
        }
    }

    /// Converts a bone of a document, given the bones declared before it.
    pub fn from_json(bone: &crate::format::Bone, bones: &[Bone]) -> (r: Result<
        Bone,
        SkeletonError,
    >)
        ensures
            match r {
                Ok(b) => Bone::spec_from_json(*bone, bones@) == Ok::<Bone, ErrorView>(b),
                Err(e) => Bone::spec_from_json(*bone, bones@) == Err::<Bone, ErrorView>(e@),
            },
            r matches Ok(b) ==> (b.parent_index matches Some(p) ==> p < bones@.len()),
    {
        let index = match &bone.parent {
            Some(name) => match bone_index(name.as_str(), bones) {
                Ok(i) => {
                    proof {
                        lemma_index(bones@, name@);
                    }
                    Some(i)
                },
                Err(e) => {
                    return Err(e);
                },
            },
            None => None,
        };
        Ok(
            Bone {
                name: bone.name.clone(),
                parent_index: index,
                srt: setup(&bone.scale_x, &bone.scale_y, &bone.rotation, &bone.x, &bone.y),
                inherit_scale: or(&bone.inherit_scale, true),
                inherit_rotation: or(&bone.inherit_rotation, true),
            },
        )
    }
}

impl Slot {
    /// The slot that a record becomes, given the bones of the skeleton: the
    /// bone must be declared, and the colour, opaque white if there is none,
    /// must be eight hexadecimal digits.
    pub open spec fn spec_from_json(slot: crate::format::Slot, bones: Seq<Bone>) -> Result<
        Slot,
        ErrorView,
    > {
        match spec_bone_index(slot.bone@, bones) {
            Err(e) => Err(e),
            Ok(i) => match spec_color_or_white(slot.color) {
                None => Err(ErrorView::InvalidColor),
                Some(color) => Ok(
                    Slot {
                        name: slot.name,
                        bone_index: i as usize,
                        color,
                        attachment: slot.attachment,
                    },
                ),
            },
        }
    }

    /// Converts a slot of a document, given the bones of the skeleton.
    pub fn from_json(slot: &crate::format::Slot, bones: &[Bone]) -> (r: Result<
        Slot,
        SkeletonError,
    >)
        ensures
            match r {
                Ok(s) => Slot::spec_from_json(*slot, bones@) == Ok::<Slot, ErrorView>(s),
                Err(e) => Slot::spec_from_json(*slot, bones@) == Err::<Slot, ErrorView>(e@),
            },
            r matches Ok(s) ==> s.bone_index < bones@.len(),
    {
        let bone_index = match bone_index(slot.bone.as_str(), bones) {
            Ok(i) => i,
            Err(e) => {
                return Err(e);
            },
        };
        proof {
            lemma_index(bones@, slot.bone@);
        }
        let color = match color_or_white(&slot.color) {
            Ok(c) => c,
            Err(e) => {
                return Err(e);
            },
        };
        Ok(
            Slot {
                name: slot.name.clone(),
                bone_index,
                color,
                attachment: clone_name(&slot.attachment),
            },
        )
    }
}

/// An attachment of a skin: an image with its place on the bone.
#[derive(Debug, Clone)]
pub struct Attachment {
    /// The name to draw under, where it differs from the key of the entry.
    pub name: Option<String>,
    pub type_: AttachmentType,
    /// The setup transform, relative to the bone.
    pub srt: SRT,
    /// The width and the height.
    pub size: [Scalar; 2],
    /// The four corners on the bone: top left, top right, bottom right, bottom left.
    pub positions: [[Scalar; 2]; 4],
}

impl Attachment {
    /// The attachment that a record becomes.
    pub open spec fn spec_from_json(attachment: crate::format::Attachment) -> Attachment {
        let srt = spec_setup(
            attachment.scale_x,
            attachment.scale_y,
            attachment.rotation,
            attachment.x,
            attachment.y,
        );
        let width = spec_or(attachment.width, Scalar::spec_zero());
        let height = spec_or(attachment.height, Scalar::spec_zero());
        let w2 = width.spec_half();
        let h2 = height.spec_half();
        Attachment {
            name: attachment.name,
            type_: spec_or(attachment.type_, AttachmentType::Region),
            srt,
            size: [width, height],
            positions: [
                srt.spec_transform([w2.spec_neg(), h2]),
                srt.spec_transform([w2, h2]),
                srt.spec_transform([w2, h2.spec_neg()]),
                srt.spec_transform([w2.spec_neg(), h2.spec_neg()]),
            ],
        }
    }

    /// Converts an attachment of a document.
    pub fn from_json(attachment: &crate::format::Attachment) -> (r: Attachment)
        ensures
            r == Attachment::spec_from_json(*attachment),
    {
        let srt = setup(
            &attachment.scale_x,
            &attachment.scale_y,
            &attachment.rotation,
            &attachment.x,
            &attachment.y,
        );
        let width = or(&attachment.width, Scalar::zero());
        let height = or(&attachment.height, Scalar::zero());
        let w2 = width.half();
        let h2 = height.half();
        Attachment {
            name: clone_name(&attachment.name),
            type_: or(&attachment.type_, AttachmentType::Region),
            srt,
            size: [width, height],
            positions: [
                srt.transform([w2.neg(), h2]),
                srt.transform([w2, h2]),
                srt.transform([w2, h2.neg()]),
                srt.transform([w2.neg(), h2.neg()]),
            ],
        }
    }
}

} // verus!
