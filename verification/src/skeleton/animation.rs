//! Poses: what to draw, and where, at a point in time.

use vstd::prelude::*;
use crate::scalar::Scalar;
use crate::skeleton::error::{ErrorView, SkeletonError};
use crate::skeleton::timelines::{
    spec_text, BoneTimeline, SlotTimeline, SlotTimelineView,
};
use crate::skeleton::clip::{spec_bone_entries, spec_slot_entries, Animation, AnimationView};
use crate::skeleton::names::{index_of, lemma_index, lemma_index_same_names};
use crate::skeleton::parts::{Attachment, Bone, Slot};
use crate::skeleton::skin::{spec_find, Skin, SkinView};
use crate::skeleton::srt::SRT;
use crate::skeleton::{
    spec_animation, spec_animations_view, spec_skin, spec_skins_view, Skeleton, SkeletonView,
};

verus! {

/// The timelines that an animation has for the bone or slot of that index:
/// those of the first entry for it from `from` on.
pub open spec fn spec_entry<V>(entries: Seq<(usize, V)>, index: int, from: int) -> Option<V>
    decreases entries.len() - from,
{
    if from < 0 || from >= entries.len() {
        None
    } else if entries[from].0 == index {
        Some(entries[from].1)
    } else {
        spec_entry(entries, index, from + 1)
    }
}

fn find_bone_timeline(entries: &Vec<(usize, BoneTimeline)>, index: usize) -> (r: Option<
    &BoneTimeline,
>)
    ensures
        match r {
            Some(t) => spec_entry(spec_bone_entries(entries@), index as int, 0) == Some(t@),
            None => spec_entry(spec_bone_entries(entries@), index as int, 0) is None,
        },
{
    let mut k: usize = 0;
    while k < entries.len()
        invariant
            k <= entries@.len(),
            spec_entry(spec_bone_entries(entries@), index as int, k as int) == spec_entry(
                spec_bone_entries(entries@),
                index as int,
                0,
            ),
        decreases entries@.len() - k,
    {
        if entries[k].0 == index {
            return Some(&entries[k].1);
        }
        k += 1;
    }
    None
}

fn find_slot_timeline(entries: &Vec<(usize, SlotTimeline)>, index: usize) -> (r: Option<
    &SlotTimeline,
>)
    ensures
        match r {
            Some(t) => spec_entry(spec_slot_entries(entries@), index as int, 0) == Some(t@),
            None => spec_entry(spec_slot_entries(entries@), index as int, 0) is None,
        },
{
    let mut k: usize = 0;
    while k < entries.len()
        invariant
            k <= entries@.len(),
            spec_entry(spec_slot_entries(entries@), index as int, k as int) == spec_entry(
                spec_slot_entries(entries@),
                index as int,
                0,
            ),
        decreases entries@.len() - k,
    {
        if entries[k].0 == index {
            return Some(&entries[k].1);
        }
        k += 1;
    }
    None
}

/// Where a bone stands in the world, and what it hands down to its children.
#[derive(Debug, Clone, Copy)]
pub struct Pose {
    /// The transform of the bone in the world.
    pub world: SRT,
    /// The rotation that the children of the bone inherit, in degrees.
    pub handed_rotation: Scalar,
    /// The scale that the children of the bone inherit.
    pub handed_scale: [Scalar; 2],
}

/// What an animation adds to the setup pose of a bone at a time; nothing
/// where there is no animation or the animation has no timeline for the bone.
pub open spec fn spec_delta(animation: Option<AnimationView>, bone: int, time: Scalar) -> SRT {
    match animation {
        Some(a) => match spec_entry(a.bones, bone, 0) {
            Some(timeline) => timeline.spec_srt(time),
            None => SRT::spec_identity(),
        },
        None => SRT::spec_identity(),
    }
}

/// The pose of a bone, given what its timelines add to its setup pose and
/// the pose of its parent.
///
/// The position of the bone adds, its rotation adds and its scale
/// multiplies. The position is then placed by the world transform of the
/// parent. The bone turns and scales by its own rotation and scale on top of
/// what the parent hands down. To its children it hands down what it
/// inherited, together with its own rotation if it lets its rotation be
/// inherited, and with its own scale if it lets its scale be inherited.
pub open spec fn spec_pose_of(bone: Bone, delta: SRT, parent: Option<Pose>) -> Pose {
    let position = [
        bone.srt.position[0].spec_add(delta.position[0]),
        bone.srt.position[1].spec_add(delta.position[1]),
    ];
    let rotation = bone.srt.rotation.spec_add(delta.rotation);
    let scale = [
        bone.srt.scale[0].spec_mul(delta.scale[0]),
        bone.srt.scale[1].spec_mul(delta.scale[1]),
    ];
    let place = match parent {
        Some(p) => p.world.spec_transform(position),
        None => position,
    };
    let inherited_rotation = match parent {
        Some(p) => p.handed_rotation,
        None => Scalar::spec_zero(),
    };
    let inherited_scale = match parent {
        Some(p) => p.handed_scale,
        None => [Scalar::spec_one(), Scalar::spec_one()],
    };
    Pose {
        world: SRT::spec_new(
            scale[0].spec_mul(inherited_scale[0]),
            scale[1].spec_mul(inherited_scale[1]),
            rotation.spec_add(inherited_rotation),
            place[0],
            place[1],
        ),
        handed_rotation: if bone.inherit_rotation {
            inherited_rotation.spec_add(rotation)
        } else {
            inherited_rotation
        },
        handed_scale: if bone.inherit_scale {
            [inherited_scale[0].spec_mul(scale[0]), inherited_scale[1].spec_mul(scale[1])]
        } else {
            inherited_scale
        },
    }
}

/// The pose of bone `i` at a time: that of a root from its own timelines,
/// that of a child from its timelines and the pose of its parent.
pub open spec fn spec_pose(
    bones: Seq<Bone>,
    animation: Option<AnimationView>,
    time: Scalar,
    i: int,
) -> Pose
    decreases i,
{
    let parent = match bones[i].parent_index {
        Some(p) => if 0 <= p < i {
            Some(spec_pose(bones, animation, time, p as int))
        } else {
            None
        },
        None => None,
    };
    spec_pose_of(bones[i], spec_delta(animation, i, time), parent)
}

/// The pose of a bone in the setup pose, given the setup pose of its parent:
/// the transform of the bone placed by the world transform of the parent,
/// turned and scaled on top of what the parent hands down.
pub open spec fn spec_setup_pose_of(bone: Bone, parent: Option<Pose>) -> Pose {
    let place = match parent {
        Some(p) => p.world.spec_transform(bone.srt.position),
        None => bone.srt.position,
    };
    let inherited_rotation = match parent {
        Some(p) => p.handed_rotation,
        None => Scalar::spec_zero(),
    };
    let inherited_scale = match parent {
        Some(p) => p.handed_scale,
        None => [Scalar::spec_one(), Scalar::spec_one()],
    };
    Pose {
        world: SRT::spec_new(
            bone.srt.scale[0].spec_mul(inherited_scale[0]),
            bone.srt.scale[1].spec_mul(inherited_scale[1]),
            bone.srt.rotation.spec_add(inherited_rotation),
            place[0],
            place[1],
        ),
        handed_rotation: if bone.inherit_rotation {
            inherited_rotation.spec_add(bone.srt.rotation)
        } else {
            inherited_rotation
        },
        handed_scale: if bone.inherit_scale {
            [
                inherited_scale[0].spec_mul(bone.srt.scale[0]),
                inherited_scale[1].spec_mul(bone.srt.scale[1]),
            ]
        } else {
            inherited_scale
        },
    }
}

/// The setup pose of bone `i`: the chain of the setup transforms from its root down.
pub open spec fn spec_setup_pose(bones: Seq<Bone>, i: int) -> Pose
    decreases i,
{
    let parent = match bones[i].parent_index {
        Some(p) => if 0 <= p < i {
            Some(spec_setup_pose(bones, p as int))
        } else {
            None
        },
        None => None,
    };
    spec_setup_pose_of(bones[i], parent)
}

/// One times a scalar, rounded down to a millionth, is the scalar.
proof fn lemma_mul_one(x: Scalar)
    ensures
        x.spec_mul(Scalar::spec_one()) == x,
        x.spec_add(Scalar::spec_zero()) == x,
{
    assert(x@ * 1_000_000 / 1_000_000 == x@) by (nonlinear_arith);
}

/// Without an animation every bone stands in its setup pose, at every time.
pub proof fn lemma_no_animation_pose(bones: Seq<Bone>, time: Scalar, i: int)
    requires
        0 <= i < bones.len(),
    ensures
        spec_pose(bones, None, time, i) == spec_setup_pose(bones, i),
    decreases i,
{
    let bone = bones[i];
    if let Some(p) = bone.parent_index {
        if 0 <= p < i {
            lemma_no_animation_pose(bones, time, p as int);
        }
    }
    lemma_mul_one(bone.srt.position[0]);
    lemma_mul_one(bone.srt.position[1]);
    lemma_mul_one(bone.srt.rotation);
    lemma_mul_one(bone.srt.scale[0]);
    lemma_mul_one(bone.srt.scale[1]);
    let position = [
        bone.srt.position[0].spec_add(Scalar::spec_zero()),
        bone.srt.position[1].spec_add(Scalar::spec_zero()),
    ];
    assert(position =~= bone.srt.position);
}

/// The sprite of slot `s` in the setup pose: the attachment that the slot
/// names, with the tint of the slot, on the setup pose of the bone of the slot.
pub open spec fn spec_setup_sprite(
    skeleton: SkeletonView,
    skin: SkinView,
    default_skin: SkinView,
    s: int,
) -> Result<Option<SpriteView>, ErrorView> {
    let slot = skeleton.slots[s];
    match spec_text(slot.attachment) {
        None => Ok(None),
        Some(name) => match spec_resolve(skin, default_skin, s, name) {
            None => Err(ErrorView::AttachmentNotFound(name)),
            Some(attachment) => Ok(
                Some(
                    SpriteView {
                        attachment: match attachment.name {
                            Some(n) => n@,
                            None => name,
                        },
                        color: slot.color,
                        srt: spec_attach(
                            spec_setup_pose(skeleton.bones, slot.bone_index as int).world,
                            attachment,
                        ),
                    },
                ),
            ),
        },
    }
}

/// The sprites of the first `n` slots in the setup pose.
pub open spec fn spec_setup_sprites(
    skeleton: SkeletonView,
    skin: SkinView,
    default_skin: SkinView,
    n: int,
) -> Result<Seq<SpriteView>, ErrorView>
    decreases n,
{
    if n <= 0 {
        Ok(Seq::empty())
    } else {
        match spec_setup_sprites(skeleton, skin, default_skin, n - 1) {
            Err(e) => Err(e),
            Ok(done) => match spec_setup_sprite(skeleton, skin, default_skin, n - 1) {
                Err(e) => Err(e),
                Ok(None) => Ok(done),
                Ok(Some(sprite)) => Ok(done.push(sprite)),
            },
        }
    }
}

/// Without an animation a skeleton draws its setup pose at every time:
/// every bone stands in the chain of the setup transforms, and every slot
/// shows the attachment and the tint that it declares.
pub proof fn lemma_no_animation(
    skeleton: SkeletonView,
    skin: SkinView,
    default_skin: SkinView,
    time: Scalar,
)
    requires
        skeleton.wf(),
    ensures
        spec_evaluate(skeleton, skin, default_skin, None, time) == spec_setup_sprites(
            skeleton,
            skin,
            default_skin,
            skeleton.slots.len() as int,
        ),
{
    lemma_no_animation_sprites(skeleton, skin, default_skin, time, skeleton.slots.len() as int);
}

proof fn lemma_no_animation_sprites(
    skeleton: SkeletonView,
    skin: SkinView,
    default_skin: SkinView,
    time: Scalar,
    n: int,
)
    requires
        skeleton.wf(),
        n <= skeleton.slots.len(),
    ensures
        spec_sprites(skeleton, skin, default_skin, None, time, n) == spec_setup_sprites(
            skeleton,
            skin,
            default_skin,
            n,
        ),
    decreases n,
{
    if n > 0 {
        lemma_no_animation_sprites(skeleton, skin, default_skin, time, n - 1);
        let slot = skeleton.slots[n - 1];
        assert(slot.bone_index < skeleton.bones.len());
        lemma_no_animation_pose(skeleton.bones, time, slot.bone_index as int);
    }
}

/// A slot whose attachment the chosen skin lacks takes it from the default
/// skin; where both skins lack it, the slot fails with the name of the
/// attachment.
pub proof fn lemma_fallback(
    skeleton: SkeletonView,
    skin: SkinView,
    default_skin: SkinView,
    animation: Option<AnimationView>,
    time: Scalar,
    s: int,
    name: Seq<char>,
)
    requires
        spec_find(skin, s, name, 0) is None,
        spec_shown_name(
            skeleton.slots[s],
            match animation {
                Some(a) => spec_entry(a.slots, s, 0),
                None => None,
            },
            time,
        ) == Some(name),
    ensures
        spec_resolve(skin, default_skin, s, name) == spec_find(default_skin, s, name, 0),
        spec_find(default_skin, s, name, 0) is Some ==> spec_slot_sprite(
            skeleton,
            skin,
            default_skin,
            animation,
            time,
            s,
        ) is Ok,
        spec_find(default_skin, s, name, 0) is None ==> spec_slot_sprite(
            skeleton,
            skin,
            default_skin,
            animation,
            time,
            s,
        ) == Err::<Option<SpriteView>, ErrorView>(ErrorView::AttachmentNotFound(name)),
{
}

/// A time and the same time one duration later draw the same.
pub proof fn lemma_wrap_around(
    skeleton: SkeletonView,
    skin: SkinView,
    default_skin: SkinView,
    animation: AnimationView,
    time: Scalar,
    later: Scalar,
)
    requires
        animation.duration@ > 0,
        later@ == time@ + animation.duration@,
    ensures
        spec_evaluate(skeleton, skin, default_skin, Some(animation), later) == spec_evaluate(
            skeleton,
            skin,
            default_skin,
            Some(animation),
            time,
        ),
{
    let d = animation.duration@;
    vstd::arithmetic::div_mod::lemma_mod_add_multiples_vanish(time@, d);
}

/// A sprite to draw: the image of an attachment, its tint and its place.
#[derive(Debug, Clone, Copy)]
pub struct Sprite<'a> {
    /// The name under which the attachment is drawn.
    pub attachment: &'a str,
    /// The tint, red first.
    pub color: [u8; 4],
    /// The transform that places the unit square of the sprite in the world.
    pub srt: SRT,
}

/// A [`Sprite`] with its name as text.
pub struct SpriteView {
    pub attachment: Seq<char>,
    pub color: [u8; 4],
    pub srt: SRT,
}

impl<'a> View for Sprite<'a> {
    type V = SpriteView;

    open spec fn view(&self) -> SpriteView {
        SpriteView { attachment: self.attachment@, color: self.color, srt: self.srt }
    }
}

/// The sprites of a list with their names as text.
pub open spec fn spec_sprite_views(sprites: Seq<Sprite>) -> Seq<SpriteView> {
    sprites.map_values(|sprite: Sprite| sprite@)
}

/// The transform of an attachment in the world: its setup transform on the
/// bone, scaled by half its width and half its height, placed by the world
/// transform of the bone.
pub open spec fn spec_attach(world: SRT, attachment: Attachment) -> SRT {
    let place = world.spec_transform(attachment.srt.position);
    SRT::spec_new(
        world.scale[0].spec_mul(attachment.srt.scale[0]).spec_mul(attachment.size[0].spec_half()),
        world.scale[1].spec_mul(attachment.srt.scale[1]).spec_mul(attachment.size[1].spec_half()),
        world.rotation.spec_add(attachment.srt.rotation),
        place[0],
        place[1],
    )
}

fn attach(world: &SRT, attachment: &Attachment) -> (r: SRT)
    ensures
        r == spec_attach(*world, *attachment),
{
    let place = world.transform(attachment.srt.position);
    SRT::new(
        world.scale[0].mul(attachment.srt.scale[0]).mul(attachment.size[0].half()),
        world.scale[1].mul(attachment.srt.scale[1]).mul(attachment.size[1].half()),
        world.rotation.add(attachment.srt.rotation),
        place[0],
        place[1],
    )
}

/// The name of the attachment that a slot shows at a time: what the
/// attachment timeline of the slot shows if the animation has one with a
/// keyframe, else the attachment of the setup pose. `None` shows nothing.
pub open spec fn spec_shown_name(
    slot: Slot,
    timeline: Option<SlotTimelineView>,
    time: Scalar,
) -> Option<Seq<char>> {
    match timeline {
        Some(t) => match t.spec_attachment_at(time) {
            Some(shown) => shown,
            None => spec_text(slot.attachment),
        },
        None => spec_text(slot.attachment),
    }
}

/// The tint of a slot at a time: what the colour timeline of the slot gives
/// if the animation has one with a keyframe, else the tint of the slot.
pub open spec fn spec_tint(slot: Slot, timeline: Option<SlotTimelineView>, time: Scalar) -> [u8; 4] {
    match timeline {
        Some(t) => t.spec_color_at(time, slot.color),
        None => slot.color,
    }
}

/// The attachment of that name for a slot: that of the chosen skin, or else
/// that of the default skin.
pub open spec fn spec_resolve(
    skin: SkinView,
    default_skin: SkinView,
    slot: int,
    name: Seq<char>,
) -> Option<Attachment> {
    match spec_find(skin, slot, name, 0) {
        Some(attachment) => Some(attachment),
        None => spec_find(default_skin, slot, name, 0),
    }
}

/// The sprite of slot `s` at a time: nothing where the slot shows no
/// attachment, an error where neither skin has the attachment that it shows.
pub open spec fn spec_slot_sprite(
    skeleton: SkeletonView,
    skin: SkinView,
    default_skin: SkinView,
    animation: Option<AnimationView>,
    time: Scalar,
    s: int,
) -> Result<Option<SpriteView>, ErrorView> {
    let slot = skeleton.slots[s];
    let timeline = match animation {
        Some(a) => spec_entry(a.slots, s, 0),
        None => None,
    };
    match spec_shown_name(slot, timeline, time) {
        None => Ok(None),
        Some(name) => match spec_resolve(skin, default_skin, s, name) {
            None => Err(ErrorView::AttachmentNotFound(name)),
            Some(attachment) => Ok(
                Some(
                    SpriteView {
                        attachment: match attachment.name {
                            Some(n) => n@,
                            None => name,
                        },
                        color: spec_tint(slot, timeline, time),
                        srt: spec_attach(
                            spec_pose(
                                skeleton.bones,
                                animation,
                                time,
                                slot.bone_index as int,
                            ).world,
                            attachment,
                        ),
                    },
                ),
            ),
        },
    }
}

/// The sprites of the first `n` slots at a time, in the order of the slots,
/// or the error of the first slot that fails.
pub open spec fn spec_sprites(
    skeleton: SkeletonView,
    skin: SkinView,
    default_skin: SkinView,
    animation: Option<AnimationView>,
    time: Scalar,
    n: int,
) -> Result<Seq<SpriteView>, ErrorView>
    decreases n,
{
    if n <= 0 {
        Ok(Seq::empty())
    } else {
        match spec_sprites(skeleton, skin, default_skin, animation, time, n - 1) {
            Err(e) => Err(e),
            Ok(done) => match spec_slot_sprite(
                skeleton,
                skin,
                default_skin,
                animation,
                time,
                n - 1,
            ) {
                Err(e) => Err(e),
                Ok(None) => Ok(done),
                Ok(Some(sprite)) => Ok(done.push(sprite)),
            },
        }
    }
}

/// An error among the first `k` slots is the error of every longer run of slots.
pub proof fn lemma_sprites_error(
    skeleton: SkeletonView,
    skin: SkinView,
    default_skin: SkinView,
    animation: Option<AnimationView>,
    time: Scalar,
    k: int,
    n: int,
)
    requires
        0 <= k <= n,
        spec_sprites(skeleton, skin, default_skin, animation, time, k) is Err,
    ensures
        spec_sprites(skeleton, skin, default_skin, animation, time, n) == spec_sprites(
            skeleton,
            skin,
            default_skin,
            animation,
            time,
            k,
        ),
    decreases n - k,
{
    if k < n {
        lemma_sprites_error(skeleton, skin, default_skin, animation, time, k, n - 1);
    }
}

/// The time within an animation: the time asked for, wrapped into the
/// duration of the animation. Without an animation, or with one that lasts
/// no time, the time asked for.
pub open spec fn spec_elapsed(animation: Option<AnimationView>, time: Scalar) -> Scalar {
    match animation {
        Some(a) => time.spec_wrap(a.duration),
        None => time,
    }
}

/// A name as text.
pub open spec fn spec_str(name: Option<&str>) -> Option<Seq<char>> {
    match name {
        Some(n) => Some(n@),
        None => None,
    }
}

/// What is chosen for a pose: the skin of that name, the skin named
/// `default`, and the animation of that name if one is asked for. The skin
/// is looked for first, then the default skin, then the animation.
pub open spec fn spec_choose(
    skeleton: SkeletonView,
    skin: Seq<char>,
    animation: Option<Seq<char>>,
) -> Result<(SkinView, SkinView, Option<AnimationView>), ErrorView> {
    match spec_skin(skeleton, skin) {
        Err(e) => Err(e),
        Ok(chosen) => match spec_skin(skeleton, "default"@) {
            Err(e) => Err(e),
            Ok(default_skin) => match animation {
                None => Ok((chosen, default_skin, None)),
                Some(name) => match spec_animation(skeleton, name) {
                    Err(e) => Err(e),
                    Ok(a) => Ok((chosen, default_skin, Some(a))),
                },
            },
        },
    }
}

/// What a skeleton draws under a skin and an animation at a time.
pub open spec fn spec_evaluate(
    skeleton: SkeletonView,
    skin: SkinView,
    default_skin: SkinView,
    animation: Option<AnimationView>,
    time: Scalar,
) -> Result<Seq<SpriteView>, ErrorView> {
    spec_sprites(
        skeleton,
        skin,
        default_skin,
        animation,
        spec_elapsed(animation, time),
        skeleton.slots.len() as int,
    )
}

/// What a skeleton draws under the skin and the animation of those names at
/// a time: the names are looked up first, then the sprites are computed.
pub open spec fn spec_draw(
    skeleton: SkeletonView,
    skin: Seq<char>,
    animation: Option<Seq<char>>,
    time: Scalar,
) -> Result<Seq<SpriteView>, ErrorView> {
    match spec_choose(skeleton, skin, animation) {
        Err(e) => Err(e),
        Ok(chosen) => spec_evaluate(skeleton, chosen.0, chosen.1, chosen.2, time),
    }
}

/// A skin of a skeleton, with or without an animation, ready to be posed.
pub struct SkinAnimation<'a> {
    skeleton: &'a Skeleton,
    skin: usize,
    default_skin: usize,
    animation: Option<usize>,
    duration: Scalar,
}

impl<'a> SkinAnimation<'a> {
    #[verifier::type_invariant]
    spec fn inv(&self) -> bool {
        &&& self.skeleton@.wf()
        &&& self.skin < self.skeleton@.skins.len()
        &&& self.default_skin < self.skeleton@.skins.len()
        &&& match self.animation {
            Some(a) => a < self.skeleton@.animations.len() && self.duration
                == self.skeleton@.animations[a as int].1.duration,
            None => self.duration == Scalar::spec_zero(),
        }
    }

    /// The skeleton that is posed.
    pub closed spec fn spec_skeleton(&self) -> SkeletonView {
        self.skeleton@
    }

    /// The chosen skin.
    pub closed spec fn spec_skin(&self) -> SkinView {
        self.skeleton@.skins[self.skin as int].1
    }

    /// The default skin.
    pub closed spec fn spec_default_skin(&self) -> SkinView {
        self.skeleton@.skins[self.default_skin as int].1
    }

    /// The chosen animation, if there is one.
    pub closed spec fn spec_animation(&self) -> Option<AnimationView> {
        match self.animation {
            Some(a) => Some(self.skeleton@.animations[a as int].1),
            None => None,
        }
    }

    /// The duration of the chosen animation; zero without an animation.
    pub open spec fn spec_duration(&self) -> Scalar {
        match self.spec_animation() {
            Some(a) => a.duration,
            None => Scalar::spec_zero(),
        }
    }

    /// Chooses a skin and, if one is named, an animation of a skeleton.
    pub fn new(skeleton: &'a Skeleton, skin: &str, animation: Option<&str>) -> (r: Result<
        SkinAnimation<'a>,
        SkeletonError,
    >)
        ensures
            match r {
                Ok(chosen) => chosen.spec_skeleton() == skeleton@ && spec_choose(
                    skeleton@,
                    skin@,
                    spec_str(animation),
                ) == Ok::<(SkinView, SkinView, Option<AnimationView>), ErrorView>(
                    (chosen.spec_skin(), chosen.spec_default_skin(), chosen.spec_animation()),
                ),
                Err(e) => spec_choose(skeleton@, skin@, spec_str(animation)) == Err::<
                    (SkinView, SkinView, Option<AnimationView>),
                    ErrorView,
                >(e@),
            },
    {
        let bones = skeleton.bones();
        let skins = skeleton.skins();
        let animations = skeleton.animations();
        proof {
            lemma_index_same_names(skins@, spec_skins_view(skins@), skin@);
            lemma_index(skins@, skin@);
            lemma_index_same_names(skins@, spec_skins_view(skins@), "default"@);
            lemma_index(skins@, "default"@);
        }
        let chosen = match index_of(skins.as_slice(), skin) {
            Some(i) => i,
            None => {
                return Err(SkeletonError::SkinNotFound(skin.to_owned()));
            },
        };
        let default_skin = match index_of(skins.as_slice(), "default") {
            Some(i) => i,
            None => {
                return Err(SkeletonError::SkinNotFound("default".to_owned()));
            },
        };
        let (index, duration) = match animation {
            Some(name) => {
                proof {
                    lemma_index_same_names(animations@, spec_animations_view(animations@), name@);
                    lemma_index(animations@, name@);
                }
                match index_of(animations.as_slice(), name) {
                    Some(i) => (Some(i), animations[i].1.duration),
                    None => {
                        return Err(SkeletonError::AnimationNotFound(name.to_owned()));
                    },
                }
            },
            None => (None, Scalar::zero()),
        };
        Ok(SkinAnimation { skeleton, skin: chosen, default_skin, animation: index, duration })
    }

    /// Gets the duration of the animation: the time of its last keyframe.
    pub fn get_duration(&self) -> (r: Scalar)
        ensures
            r == self.spec_duration(),
    {
        proof {
            use_type_invariant(self);
        }
        self.duration
    }

    /// Gets the pose of every bone at a time within the animation.
    pub fn get_bones_srts(&self, time: Scalar) -> (r: Vec<Pose>)
        ensures
            r@.len() == self.spec_skeleton().bones.len(),
            forall|i: int|
                0 <= i < r@.len() ==> (#[trigger] r@[i]) == spec_pose(
                    self.spec_skeleton().bones,
                    self.spec_animation(),
                    time,
                    i,
                ),
    {
        proof {
            use_type_invariant(self);
        }
        let skeleton: &'a Skeleton = self.skeleton;
        let bones = skeleton.bones();
        let order = skeleton.order();
        let animations = skeleton.animations();
        let animation: Option<&Animation> = match self.animation {
            Some(a) => Some(&animations[a].1),
            None => None,
        };
        let ghost view = self.spec_animation();
        assert(match animation {
            Some(a) => view == Some(a@),
            None => view is None,
        });
        let mut poses: Vec<Pose> = Vec::with_capacity(bones.len());
        let mut k: usize = 0;
        while k < order.len()
            invariant
                k <= order@.len(),
                order@ == crate::skeleton::hierarchy::spec_declared(bones@.len()),
                bones@.len() <= usize::MAX,
                crate::skeleton::hierarchy::spec_parents_first(
                    crate::skeleton::spec_parents(bones@),
                ),
                poses@.len() == k,
                match animation {
                    Some(a) => view == Some(a@),
                    None => view is None,
                },
                forall|i: int|
                    0 <= i < k ==> (#[trigger] poses@[i]) == spec_pose(bones@, view, time, i),
            decreases order@.len() - k,
        {
            let b = order[k];
            assert(b == k);
            let bone = &bones[b];
            let delta = match animation {
                Some(a) => match find_bone_timeline(&a.bones, b) {
                    Some(timeline) => timeline.srt(time),
                    None => identity(),
                },
                None => identity(),
            };
            assert(crate::skeleton::spec_parents(bones@)[b as int] == bone.parent_index);
            let parent: Option<Pose> = match bone.parent_index {
                Some(p) => Some(poses[p]),
                None => None,
            };
            let pose = pose_of(bone, &delta, parent);
            poses.push(pose);
            k += 1;
        }
        poses
    }

    /// Computes the sprites to draw at a time, one for each slot that shows
    /// an attachment, in the order of the slots: bottom first. With an
    /// animation the time is wrapped into the duration of the animation.
    pub fn interpolate(&self, time: Scalar) -> (r: Result<Vec<Sprite<'a>>, SkeletonError>)
        ensures
            match r {
                Ok(sprites) => spec_evaluate(
                    self.spec_skeleton(),
                    self.spec_skin(),
                    self.spec_default_skin(),
                    self.spec_animation(),
                    time,
                ) == Ok::<Seq<SpriteView>, ErrorView>(spec_sprite_views(sprites@)),
                Err(e) => spec_evaluate(
                    self.spec_skeleton(),
                    self.spec_skin(),
                    self.spec_default_skin(),
                    self.spec_animation(),
                    time,
                ) == Err::<Seq<SpriteView>, ErrorView>(e@),
            },
    {
        proof {
            use_type_invariant(self);
        }
        let skeleton: &'a Skeleton = self.skeleton;
        let bones = skeleton.bones();
        let slots = skeleton.slots();
        let skins = skeleton.skins();
        let animations = skeleton.animations();
        let skin: &'a Skin = &skins[self.skin].1;
        let default_skin: &'a Skin = &skins[self.default_skin].1;
        let animation: Option<&'a Animation> = match self.animation {
            Some(a) => Some(&animations[a].1),
            None => None,
        };
        let elapsed = match animation {
            Some(a) => time.wrap(a.duration),
            None => time,
        };
        let ghost view = self.spec_animation();
        let ghost whole = self.spec_skeleton();
        assert(match animation {
            Some(a) => view == Some(a@),
            None => view is None,
        });
        assert(elapsed == spec_elapsed(view, time));
        let poses = self.get_bones_srts(elapsed);
        let mut sprites: Vec<Sprite<'a>> = Vec::new();
        let mut s: usize = 0;
        assert(spec_sprite_views(sprites@) =~= Seq::empty());
        while s < slots.len()
            invariant
                s <= slots@.len(),
                whole.wf(),
                whole == self.spec_skeleton(),
                view == self.spec_animation(),
                skin@ == self.spec_skin(),
                default_skin@ == self.spec_default_skin(),
                elapsed == spec_elapsed(view, time),
                whole.slots == slots@,
                whole.bones == bones@,
                poses@.len() == bones@.len(),
                forall|i: int|
                    0 <= i < poses@.len() ==> (#[trigger] poses@[i]) == spec_pose(
                        bones@,
                        view,
                        elapsed,
                        i,
                    ),
                match animation {
                    Some(a) => view == Some(a@),
                    None => view is None,
                },
                spec_sprites(whole, skin@, default_skin@, view, elapsed, s as int) == Ok::<
                    Seq<SpriteView>,
                    ErrorView,
                >(spec_sprite_views(sprites@)),
            decreases slots@.len() - s,
        {
            let slot: &'a Slot = &slots[s];
            let timeline: Option<&'a SlotTimeline> = match animation {
                Some(a) => find_slot_timeline(&a.slots, s),
                None => None,
            };
            let ghost timeline_view: Option<SlotTimelineView> = match view {
                Some(a) => spec_entry(a.slots, s as int, 0),
                None => None,
            };
            assert(match timeline {
                Some(t) => timeline_view == Some(t@),
                None => timeline_view is None,
            });
            let setup_name: Option<&'a str> = match &slot.attachment {
                Some(n) => Some(n.as_str()),
                None => None,
            };
            let shown: Option<&'a str> = match timeline {
                Some(t) => match t.interpolate_attachment(elapsed) {
                    Some(name) => name,
                    None => setup_name,
                },
                None => setup_name,
            };
            assert(spec_str(shown) == spec_shown_name(*slot, timeline_view, elapsed));
            match shown {
                None => {},
                Some(name) => {
                    let found = match skin.find(s, name) {
                        Some(a) => Some(a),
                        None => default_skin.find(s, name),
                    };
                    let attachment: &'a Attachment = match found {
                        Some(a) => a,
                        None => {
                            proof {
                                assert(spec_resolve(skin@, default_skin@, s as int, name@) is None);
                                assert(spec_slot_sprite(
                                    whole,
                                    skin@,
                                    default_skin@,
                                    view,
                                    elapsed,
                                    s as int,
                                ) == Err::<Option<SpriteView>, ErrorView>(
                                    ErrorView::AttachmentNotFound(name@),
                                ));
                                assert(spec_sprites(
                                    whole,
                                    skin@,
                                    default_skin@,
                                    view,
                                    elapsed,
                                    s + 1,
                                ) == Err::<Seq<SpriteView>, ErrorView>(
                                    ErrorView::AttachmentNotFound(name@),
                                ));
                                lemma_sprites_error(
                                    whole,
                                    skin@,
                                    default_skin@,
                                    view,
                                    elapsed,
                                    s + 1,
                                    slots@.len() as int,
                                );
                            }
                            return Err(SkeletonError::AttachmentNotFound(name.to_owned()));
                        },
                    };
                    let color = match timeline {
                        Some(t) => t.interpolated_color(elapsed, slot.color),
                        None => slot.color,
                    };
                    let display: &'a str = match &attachment.name {
                        Some(n) => n.as_str(),
                        None => name,
                    };
                    let srt = attach(&poses[slot.bone_index].world, attachment);
                    let ghost before = sprites@;
                    let sprite = Sprite { attachment: display, color, srt };
                    sprites.push(sprite);
                    assert(spec_sprite_views(sprites@) =~= spec_sprite_views(before).push(sprite@));
                },
            }
            s += 1;
        }
        Ok(sprites)
    }
}

fn identity() -> (r: SRT)
    ensures
        r == SRT::spec_identity(),
{
    SRT::new(Scalar::one(), Scalar::one(), Scalar::zero(), Scalar::zero(), Scalar::zero())
}

fn pose_of(bone: &Bone, delta: &SRT, parent: Option<Pose>) -> (r: Pose)
    ensures
        r == spec_pose_of(*bone, *delta, parent),
{
    let position = [
        bone.srt.position[0].add(delta.position[0]),
        bone.srt.position[1].add(delta.position[1]),
    ];
    let rotation = bone.srt.rotation.add(delta.rotation);
    let scale = [bone.srt.scale[0].mul(delta.scale[0]), bone.srt.scale[1].mul(delta.scale[1])];
    let place = match parent {
        Some(p) => p.world.transform(position),
        None => position,
    };
    let inherited_rotation = match parent {
        Some(p) => p.handed_rotation,
        None => Scalar::zero(),
    };
    let inherited_scale = match parent {
        Some(p) => p.handed_scale,
        None => [Scalar::one(), Scalar::one()],
    };
    Pose {
        world: SRT::new(
            scale[0].mul(inherited_scale[0]),
            scale[1].mul(inherited_scale[1]),
            rotation.add(inherited_rotation),
            place[0],
            place[1],
        ),
        handed_rotation: if bone.inherit_rotation {
            inherited_rotation.add(rotation)
        } else {
            inherited_rotation
        },
        handed_scale: if bone.inherit_scale {
            [inherited_scale[0].mul(scale[0]), inherited_scale[1].mul(scale[1])]
        } else {
            inherited_scale
        },
    }
}

impl Skeleton {
    /// Gets a [`SkinAnimation`], which computes the sprites of a skin at a
    /// time, with or without an animation.
    pub fn get_animated_skin<'a>(&'a self, skin: &str, animation: Option<&str>) -> (r: Result<
        SkinAnimation<'a>,
        SkeletonError,
    >)
        ensures
            match r {
                Ok(chosen) => chosen.spec_skeleton() == self@ && spec_choose(
                    self@,
                    skin@,
                    spec_str(animation),
                ) == Ok::<(SkinView, SkinView, Option<AnimationView>), ErrorView>(
                    (chosen.spec_skin(), chosen.spec_default_skin(), chosen.spec_animation()),
                ),
                Err(e) => spec_choose(self@, skin@, spec_str(animation)) == Err::<
                    (SkinView, SkinView, Option<AnimationView>),
                    ErrorView,
                >(e@),
            },
    {
        SkinAnimation::new(self, skin, animation)
    }

    /// Computes the sprites to draw under a skin at a time, with or without
    /// an animation, bottom first.
    pub fn evaluate<'a>(&'a self, skin: &str, animation: Option<&str>, elapsed: Scalar) -> (r:
        Result<Vec<Sprite<'a>>, SkeletonError>)
        ensures
            match r {
                Ok(sprites) => spec_draw(self@, skin@, spec_str(animation), elapsed) == Ok::<
                    Seq<SpriteView>,
                    ErrorView,
                >(spec_sprite_views(sprites@)),
                Err(e) => spec_draw(self@, skin@, spec_str(animation), elapsed) == Err::<
                    Seq<SpriteView>,
                    ErrorView,
                >(e@),
            },
    {
        let chosen = match SkinAnimation::new(self, skin, animation) {
            Ok(chosen) => chosen,
            Err(e) => {
                return Err(e);
            },
        };
        chosen.interpolate(elapsed)
    }
}

} // verus!
