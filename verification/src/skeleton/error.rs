//! What can go wrong while a document is loaded or a pose is asked for.

use vstd::prelude::*;
use vstd::string::StringExecFns;
use crate::hex::HexError;

verus! {

/// An error of loading a document or of computing a pose.
#[derive(Debug, Clone)]
pub enum SkeletonError {
    /// No bone of that name has been declared.
    BoneNotFound(String),
    /// No slot of that name has been declared.
    SlotNotFound(String),
    /// The document has no skin of that name.
    SkinNotFound(String),
    /// The document has no animation of that name.
    AnimationNotFound(String),
    /// Neither the chosen skin nor the default skin has that attachment for the slot.
    AttachmentNotFound(String),
    /// A colour is not eight hexadecimal digits.
    InvalidColor(HexError),
    /// The control points of a Bézier curve leave the range from zero to one in time.
    InvalidCurveDescriptor,
    /// The parents of the bones form a cycle or point outside the bones.
    CyclicHierarchy,
}

/// A [`SkeletonError`] with its name as plain text, and without the detail of
/// why a colour could not be read.
pub enum ErrorView {
    BoneNotFound(Seq<char>),
    SlotNotFound(Seq<char>),
    SkinNotFound(Seq<char>),
    AnimationNotFound(Seq<char>),
    AttachmentNotFound(Seq<char>),
    InvalidColor,
    InvalidCurveDescriptor,
    CyclicHierarchy,
}

impl View for SkeletonError {
    type V = ErrorView;

    open spec fn view(&self) -> ErrorView {
        match *self {
            SkeletonError::BoneNotFound(name) => ErrorView::BoneNotFound(name@),
            SkeletonError::SlotNotFound(name) => ErrorView::SlotNotFound(name@),
            SkeletonError::SkinNotFound(name) => ErrorView::SkinNotFound(name@),
            SkeletonError::AnimationNotFound(name) => ErrorView::AnimationNotFound(name@),
            SkeletonError::AttachmentNotFound(name) => ErrorView::AttachmentNotFound(name@),
            SkeletonError::InvalidColor(_) => ErrorView::InvalidColor,
            SkeletonError::InvalidCurveDescriptor => ErrorView::InvalidCurveDescriptor,
            SkeletonError::CyclicHierarchy => ErrorView::CyclicHierarchy,
        }
    }
}

impl SkeletonError {
    /// What kind of error this is, in a few words.
    pub fn description(&self) -> (r: &'static str)
        ensures
            r@ == match *self {
                SkeletonError::BoneNotFound(_) => "bone cannot be found in skeleton bones"@,
                SkeletonError::SlotNotFound(_) => "slot cannot be found in skeleton slots"@,
                SkeletonError::SkinNotFound(_) => "skin cannot be found in skeleton skins"@,
                SkeletonError::AnimationNotFound(_) =>
                    "animation cannot be found in skeleton animations"@,
                SkeletonError::AttachmentNotFound(_) =>
                    "attachment cannot be found in skeleton skins"@,
                SkeletonError::InvalidColor(_) => "color cannot be parsed"@,
                SkeletonError::InvalidCurveDescriptor => "curve cannot be used"@,
                SkeletonError::CyclicHierarchy => "bones do not form a hierarchy"@,
            },
    {
        match self {
            SkeletonError::BoneNotFound(_) => "bone cannot be found in skeleton bones",
            SkeletonError::SlotNotFound(_) => "slot cannot be found in skeleton slots",
            SkeletonError::SkinNotFound(_) => "skin cannot be found in skeleton skins",
            SkeletonError::AnimationNotFound(_) =>
                "animation cannot be found in skeleton animations",
            SkeletonError::AttachmentNotFound(_) => "attachment cannot be found in skeleton skins",
            SkeletonError::InvalidColor(_) => "color cannot be parsed",
            SkeletonError::InvalidCurveDescriptor => "curve cannot be used",
            SkeletonError::CyclicHierarchy => "bones do not form a hierarchy",
        }
    }

    /// The error as a sentence that names what was looked for.
    pub fn message(&self) -> (r: String)
        ensures
            r@ == match *self {
                SkeletonError::BoneNotFound(name) => "Cannot find bone '"@ + name@ + "'"@,
                SkeletonError::SlotNotFound(name) => "Cannot find slot '"@ + name@ + "'"@,
                SkeletonError::SkinNotFound(name) => "Cannot find skin '"@ + name@ + "'"@,
                SkeletonError::AnimationNotFound(name) => "Cannot find animation '"@ + name@
                    + "'"@,
                SkeletonError::AttachmentNotFound(name) => "Cannot find attachment '"@ + name@
                    + "'"@,
                SkeletonError::InvalidColor(_) => "Cannot convert color to hexadecimal"@,
                SkeletonError::InvalidCurveDescriptor => "Cannot use curve"@,
                SkeletonError::CyclicHierarchy => "Cannot order bones"@,
            },
    {
        match self {
            SkeletonError::BoneNotFound(name) => quoted("Cannot find bone '", name),
            SkeletonError::SlotNotFound(name) => quoted("Cannot find slot '", name),
            SkeletonError::SkinNotFound(name) => quoted("Cannot find skin '", name),
            SkeletonError::AnimationNotFound(name) => quoted("Cannot find animation '", name),
            SkeletonError::AttachmentNotFound(name) => quoted("Cannot find attachment '", name),
            SkeletonError::InvalidColor(_) => String::from_str(
                "Cannot convert color to hexadecimal",
            ),
            SkeletonError::InvalidCurveDescriptor => String::from_str("Cannot use curve"),
            SkeletonError::CyclicHierarchy => String::from_str("Cannot order bones"),
        }
    }
}

/// `prefix`, then `name`, then a closing quote.
fn quoted(prefix: &str, name: &String) -> (r: String)
    ensures
        r@ == prefix@ + name@ + "'"@,
{
    String::from_str(prefix).concat(name.as_str()).concat("'")
}

} // verus!
