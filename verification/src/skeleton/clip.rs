//! Animations: the timelines of bones and slots, and how long they last.

use vstd::prelude::*;
use crate::collect::{lemma_collect_error, lemma_collect_step, spec_collect};
use crate::scalar::Scalar;
use crate::skeleton::error::{ErrorView, SkeletonError};
use crate::skeleton::names::lemma_index;
use crate::skeleton::parts::{
    bone_index, slot_index, spec_bone_index, spec_slot_index, Bone, Slot,
};
use crate::skeleton::timelines::{
    latest, lemma_latest, spec_latest, BoneTimeline, BoneTimelineView, SlotTimeline,
    SlotTimelineView, Timeline,
};

verus! {

/// An animation with every name resolved.
#[derive(Debug, Clone)]
pub struct Animation {
    /// For each animated bone, its index and its timelines.
    pub bones: Vec<(usize, BoneTimeline)>,
    /// For each animated slot, its index and its timelines.
    pub slots: Vec<(usize, SlotTimeline)>,
    /// The time of the last keyframe.
    pub duration: Scalar,
}

/// The timelines of an [`Animation`] as sequences.
pub struct AnimationView {
    pub bones: Seq<(usize, BoneTimelineView)>,
    pub slots: Seq<(usize, SlotTimelineView)>,
    pub duration: Scalar,
}

/// The bone timelines of an animation as sequences.
pub open spec fn spec_bone_entries(entries: Seq<(usize, BoneTimeline)>) -> Seq<
    (usize, BoneTimelineView),
> {
    entries.map_values(|entry: (usize, BoneTimeline)| (entry.0, entry.1@))
}

/// The slot timelines of an animation as sequences.
pub open spec fn spec_slot_entries(entries: Seq<(usize, SlotTimeline)>) -> Seq<
    (usize, SlotTimelineView),
> {
    entries.map_values(|entry: (usize, SlotTimeline)| (entry.0, entry.1@))
}

impl View for Animation {
    type V = AnimationView;

    open spec fn view(&self) -> AnimationView {
        AnimationView {
            bones: spec_bone_entries(self.bones@),
            slots: spec_slot_entries(self.slots@),
            duration: self.duration,
        }
    }
}

/// What the timelines of one bone become: the bone must be declared.
pub open spec fn spec_bone_entry_step(bones: Seq<Bone>) -> spec_fn(
    Seq<(usize, BoneTimelineView)>,
    (String, crate::format::BoneTimeline),
) -> Result<(usize, BoneTimelineView), ErrorView> {
    |done: Seq<(usize, BoneTimelineView)>, entry: (String, crate::format::BoneTimeline)|
        match spec_bone_index(entry.0@, bones) {
            Err(e) => Err(e),
            Ok(i) => match BoneTimeline::spec_from_json(entry.1) {
                Err(e) => Err(e),
                Ok(timeline) => Ok((i as usize, timeline)),
            },
        }
}

/// What the timelines of one slot become: the slot must be declared.
pub open spec fn spec_slot_entry_step(slots: Seq<Slot>) -> spec_fn(
    Seq<(usize, SlotTimelineView)>,
    (String, crate::format::SlotTimeline),
) -> Result<(usize, SlotTimelineView), ErrorView> {
    |done: Seq<(usize, SlotTimelineView)>, entry: (String, crate::format::SlotTimeline)|
        match spec_slot_index(entry.0@, slots) {
            Err(e) => Err(e),
            Ok(i) => match SlotTimeline::spec_from_json(entry.1) {
                Err(e) => Err(e),
                Ok(timeline) => Ok((i as usize, timeline)),
            },
        }
}

/// The latest of `floor` and the keyframe times of one bone.
pub open spec fn spec_bone_latest(timeline: crate::format::BoneTimeline, floor: Scalar) -> Scalar {
    spec_latest(
        timeline.scale@,
        spec_latest(
            timeline.rotate@,
            spec_latest(timeline.translate@, floor, timeline.translate@.len() as int),
            timeline.rotate@.len() as int,
        ),
        timeline.scale@.len() as int,
    )
}

/// The latest of `floor` and the keyframe times of one slot.
pub open spec fn spec_slot_latest(timeline: crate::format::SlotTimeline, floor: Scalar) -> Scalar {
    spec_latest(
        timeline.color@,
        spec_latest(timeline.attachment@, floor, timeline.attachment@.len() as int),
        timeline.color@.len() as int,
    )
}

/// The latest of `floor` and the keyframe times of the first `n` bones.
pub open spec fn spec_bones_latest(
    entries: Seq<(String, crate::format::BoneTimeline)>,
    floor: Scalar,
    n: int,
) -> Scalar
    decreases n,
{
    if n <= 0 {
        floor
    } else {
        spec_bone_latest(entries[n - 1].1, spec_bones_latest(entries, floor, n - 1))
    }
}

/// The latest of `floor` and the keyframe times of the first `n` slots.
pub open spec fn spec_slots_latest(
    entries: Seq<(String, crate::format::SlotTimeline)>,
    floor: Scalar,
    n: int,
) -> Scalar
    decreases n,
{
    if n <= 0 {
        floor
    } else {
        spec_slot_latest(entries[n - 1].1, spec_slots_latest(entries, floor, n - 1))
    }
}

/// A keyframe of the bone is at the time `t`.
pub open spec fn spec_bone_time(timeline: crate::format::BoneTimeline, t: Scalar) -> bool {
    ||| exists|j: int| 0 <= j < timeline.translate@.len() && (#[trigger] timeline.translate@[j]).time == t
    ||| exists|j: int| 0 <= j < timeline.rotate@.len() && (#[trigger] timeline.rotate@[j]).time == t
    ||| exists|j: int| 0 <= j < timeline.scale@.len() && (#[trigger] timeline.scale@[j]).time == t
}

/// A keyframe of the slot is at the time `t`.
pub open spec fn spec_slot_time(timeline: crate::format::SlotTimeline, t: Scalar) -> bool {
    ||| exists|j: int|
        0 <= j < timeline.attachment@.len() && (#[trigger] timeline.attachment@[j]).time == t
    ||| exists|j: int| 0 <= j < timeline.color@.len() && (#[trigger] timeline.color@[j]).time == t
}

/// A keyframe of a bone or slot timeline of the animation is at the time `t`.
pub open spec fn spec_keyframe_time(animation: crate::format::Animation, t: Scalar) -> bool {
    ||| exists|b: int|
        0 <= b < animation.bones@.len() && spec_bone_time((#[trigger] animation.bones@[b]).1, t)
    ||| exists|s: int|
        0 <= s < animation.slots@.len() && spec_slot_time((#[trigger] animation.slots@[s]).1, t)
}

/// The duration of an animation: the latest keyframe time of its bone and
/// slot timelines, and zero where it has no keyframe.
pub open spec fn spec_duration(animation: crate::format::Animation) -> Scalar {
    spec_slots_latest(
        animation.slots@,
        spec_bones_latest(animation.bones@, Scalar::spec_zero(), animation.bones@.len() as int),
        animation.slots@.len() as int,
    )
}

proof fn lemma_bone_latest(timeline: crate::format::BoneTimeline, floor: Scalar)
    ensures
        spec_bone_latest(timeline, floor)@ >= floor@,
        forall|t: Scalar| spec_bone_time(timeline, t) ==> t@ <= spec_bone_latest(timeline, floor)@,
        spec_bone_latest(timeline, floor) == floor || spec_bone_time(
            timeline,
            spec_bone_latest(timeline, floor),
        ),
{
    let a = spec_latest(timeline.translate@, floor, timeline.translate@.len() as int);
    let b = spec_latest(timeline.rotate@, a, timeline.rotate@.len() as int);
    let c = spec_latest(timeline.scale@, b, timeline.scale@.len() as int);
    lemma_latest(timeline.translate@, floor, timeline.translate@.len() as int);
    lemma_latest(timeline.rotate@, a, timeline.rotate@.len() as int);
    lemma_latest(timeline.scale@, b, timeline.scale@.len() as int);
    assert forall|t: Scalar| spec_bone_time(timeline, t) implies t@ <= c@ by {
        if exists|j: int|
            0 <= j < timeline.translate@.len() && (#[trigger] timeline.translate@[j]).time == t {
            let j = choose|j: int|
                0 <= j < timeline.translate@.len() && (#[trigger] timeline.translate@[j]).time
                    == t;
            assert(timeline.translate@[j].spec_time()@ <= a@);
        } else if exists|j: int|
            0 <= j < timeline.rotate@.len() && (#[trigger] timeline.rotate@[j]).time == t {
            let j = choose|j: int|
                0 <= j < timeline.rotate@.len() && (#[trigger] timeline.rotate@[j]).time == t;
            assert(timeline.rotate@[j].spec_time()@ <= b@);
        } else {
            let j = choose|j: int|
                0 <= j < timeline.scale@.len() && (#[trigger] timeline.scale@[j]).time == t;
            assert(timeline.scale@[j].spec_time()@ <= c@);
        }
    }
    if c != floor {
        if c != b {
            let j = choose|j: int|
                0 <= j < timeline.scale@.len() && timeline.scale@[j].spec_time() == c;
            assert(timeline.scale@[j].time == c);
        } else if b != a {
            let j = choose|j: int|
                0 <= j < timeline.rotate@.len() && timeline.rotate@[j].spec_time() == b;
            assert(timeline.rotate@[j].time == c);
        } else {
            let j = choose|j: int|
                0 <= j < timeline.translate@.len() && timeline.translate@[j].spec_time() == a;
            assert(timeline.translate@[j].time == c);
        }
    }
}

proof fn lemma_slot_latest(timeline: crate::format::SlotTimeline, floor: Scalar)
    ensures
        spec_slot_latest(timeline, floor)@ >= floor@,
        forall|t: Scalar| spec_slot_time(timeline, t) ==> t@ <= spec_slot_latest(timeline, floor)@,
        spec_slot_latest(timeline, floor) == floor || spec_slot_time(
            timeline,
            spec_slot_latest(timeline, floor),
        ),
{
    let a = spec_latest(timeline.attachment@, floor, timeline.attachment@.len() as int);
    let b = spec_latest(timeline.color@, a, timeline.color@.len() as int);
    lemma_latest(timeline.attachment@, floor, timeline.attachment@.len() as int);
    lemma_latest(timeline.color@, a, timeline.color@.len() as int);
    assert forall|t: Scalar| spec_slot_time(timeline, t) implies t@ <= b@ by {
        if exists|j: int|
            0 <= j < timeline.attachment@.len() && (#[trigger] timeline.attachment@[j]).time == t {
            let j = choose|j: int|
                0 <= j < timeline.attachment@.len() && (#[trigger] timeline.attachment@[j]).time
                    == t;
            assert(timeline.attachment@[j].spec_time()@ <= a@);
        } else {
            let j = choose|j: int|
                0 <= j < timeline.color@.len() && (#[trigger] timeline.color@[j]).time == t;
            assert(timeline.color@[j].spec_time()@ <= b@);
        }
    }
    if b != floor {
        if b != a {
            let j = choose|j: int|
                0 <= j < timeline.color@.len() && timeline.color@[j].spec_time() == b;
            assert(timeline.color@[j].time == b);
        } else {
            let j = choose|j: int|
                0 <= j < timeline.attachment@.len() && timeline.attachment@[j].spec_time() == a;
            assert(timeline.attachment@[j].time == b);
        }
    }
}

proof fn lemma_bones_latest(
    entries: Seq<(String, crate::format::BoneTimeline)>,
    floor: Scalar,
    n: int,
)
    requires
        0 <= n <= entries.len(),
    ensures
        spec_bones_latest(entries, floor, n)@ >= floor@,
        forall|b: int, t: Scalar|
            0 <= b < n && #[trigger] spec_bone_time(entries[b].1, t) ==> t@ <= spec_bones_latest(
                entries,
                floor,
                n,
            )@,
        spec_bones_latest(entries, floor, n) == floor || exists|b: int|
            0 <= b < n && spec_bone_time(
                (#[trigger] entries[b]).1,
                spec_bones_latest(entries, floor, n),
            ),
    decreases n,
{
    if n > 0 {
        lemma_bones_latest(entries, floor, n - 1);
        let before = spec_bones_latest(entries, floor, n - 1);
        lemma_bone_latest(entries[n - 1].1, before);
        let now = spec_bones_latest(entries, floor, n);
        if now != floor {
            if now == before {
                let b = choose|b: int|
                    0 <= b < n - 1 && spec_bone_time((#[trigger] entries[b]).1, before);
                assert(0 <= b < n && spec_bone_time(entries[b].1, now));
            } else {
                assert(spec_bone_time(entries[n - 1].1, now));
            }
        }
    }
}

proof fn lemma_slots_latest(
    entries: Seq<(String, crate::format::SlotTimeline)>,
    floor: Scalar,
    n: int,
)
    requires
        0 <= n <= entries.len(),
    ensures
        spec_slots_latest(entries, floor, n)@ >= floor@,
        forall|s: int, t: Scalar|
            0 <= s < n && #[trigger] spec_slot_time(entries[s].1, t) ==> t@ <= spec_slots_latest(
                entries,
                floor,
                n,
            )@,
        spec_slots_latest(entries, floor, n) == floor || exists|s: int|
            0 <= s < n && spec_slot_time(
                (#[trigger] entries[s]).1,
                spec_slots_latest(entries, floor, n),
            ),
    decreases n,
{
    if n > 0 {
        lemma_slots_latest(entries, floor, n - 1);
        let before = spec_slots_latest(entries, floor, n - 1);
        lemma_slot_latest(entries[n - 1].1, before);
        let now = spec_slots_latest(entries, floor, n);
        if now != floor {
            if now == before {
                let s = choose|s: int|
                    0 <= s < n - 1 && spec_slot_time((#[trigger] entries[s]).1, before);
                assert(0 <= s < n && spec_slot_time(entries[s].1, now));
            } else {
                assert(spec_slot_time(entries[n - 1].1, now));
            }
        }
    }
}

/// The duration of an animation is the greatest keyframe time of its bone
/// and slot timelines: it is not negative, no keyframe is later, and it is
/// zero or the time of a keyframe. An animation without keyframes lasts zero.
pub proof fn lemma_duration(animation: crate::format::Animation)
    ensures
        spec_duration(animation)@ >= 0,
        forall|t: Scalar| spec_keyframe_time(animation, t) ==> t@ <= spec_duration(animation)@,
        spec_duration(animation) == Scalar::spec_zero() || spec_keyframe_time(
            animation,
            spec_duration(animation),
        ),
{
    let n = animation.bones@.len() as int;
    let m = animation.slots@.len() as int;
    let first = spec_bones_latest(animation.bones@, Scalar::spec_zero(), n);
    lemma_bones_latest(animation.bones@, Scalar::spec_zero(), n);
    lemma_slots_latest(animation.slots@, first, m);
    let d = spec_duration(animation);
    assert forall|t: Scalar| spec_keyframe_time(animation, t) implies t@ <= d@ by {
        if exists|b: int|
            0 <= b < animation.bones@.len() && spec_bone_time(
                (#[trigger] animation.bones@[b]).1,
                t,
            ) {
            let b = choose|b: int|
                0 <= b < animation.bones@.len() && spec_bone_time(
                    (#[trigger] animation.bones@[b]).1,
                    t,
                );
            assert(t@ <= first@);
        } else {
            let s = choose|s: int|
                0 <= s < animation.slots@.len() && spec_slot_time(
                    (#[trigger] animation.slots@[s]).1,
                    t,
                );
            assert(t@ <= d@);
        }
    }
    if d != Scalar::spec_zero() {
        if d == first {
            let b = choose|b: int|
                0 <= b < n && spec_bone_time((#[trigger] animation.bones@[b]).1, first);
            assert(spec_bone_time(animation.bones@[b].1, d));
        } else {
            let s = choose|s: int|
                0 <= s < m && spec_slot_time((#[trigger] animation.slots@[s]).1, d);
            assert(spec_slot_time(animation.slots@[s].1, d));
        }
    }
}

impl Animation {
    /// The animation that a record becomes, given the bones and the slots
    /// of the skeleton. The bones are taken first, then the slots.
    pub open spec fn spec_from_json(
        animation: crate::format::Animation,
        bones: Seq<Bone>,
        slots: Seq<Slot>,
    ) -> Result<AnimationView, ErrorView> {
        match spec_collect(animation.bones@, spec_bone_entry_step(bones)) {
            Err(e) => Err(e),
            Ok(abones) => match spec_collect(animation.slots@, spec_slot_entry_step(slots)) {
                Err(e) => Err(e),
                Ok(aslots) => Ok(
                    AnimationView {
                        bones: abones,
                        slots: aslots,
                        duration: spec_duration(animation),
                    },
                ),
            },
        }
    }

    /// Every timeline of the animation is for a bone or a slot of the skeleton.
    pub open spec fn spec_in_range(animation: AnimationView, bones: nat, slots: nat) -> bool {
        &&& forall|k: int| 0 <= k < animation.bones.len() ==> (#[trigger] animation.bones[k]).0 < bones
        &&& forall|k: int| 0 <= k < animation.slots.len() ==> (#[trigger] animation.slots[k]).0 < slots
    }

    /// Converts an animation of a document, given the bones and the slots
    /// of the skeleton.
    pub fn from_json(animation: &crate::format::Animation, bones: &[Bone], slots: &[Slot]) -> (r:
        Result<Animation, SkeletonError>)
        ensures
            match r {
                Ok(a) => Animation::spec_from_json(*animation, bones@, slots@) == Ok::<
                    AnimationView,
                    ErrorView,
                >(a@) && Animation::spec_in_range(a@, bones@.len(), slots@.len()),
                Err(e) => Animation::spec_from_json(*animation, bones@, slots@) == Err::<
                    AnimationView,
                    ErrorView,
                >(e@),
            },
    {
        let duration = Animation::duration(animation);
        let mut abones: Vec<(usize, BoneTimeline)> = Vec::new();
        let mut i: usize = 0;
        assert(spec_bone_entries(abones@) =~= Seq::empty());
        while i < animation.bones.len()
            invariant
                i <= animation.bones@.len(),
                spec_collect(animation.bones@.take(i as int), spec_bone_entry_step(bones@)) == Ok::<
                    Seq<(usize, BoneTimelineView)>,
                    ErrorView,
                >(spec_bone_entries(abones@)),
                forall|k: int|
                    0 <= k < abones@.len() ==> (#[trigger] spec_bone_entries(abones@)[k]).0
                        < bones@.len(),
            decreases animation.bones@.len() - i,
        {
            proof {
                lemma_collect_step(animation.bones@, spec_bone_entry_step(bones@), i as int);
            }
            let entry = &animation.bones[i];
            let index = match bone_index(entry.0.as_str(), bones) {
                Ok(index) => index,
                Err(e) => {
                    proof {
                        lemma_collect_error(animation.bones@, spec_bone_entry_step(bones@), i + 1);
                    }
                    return Err(e);
                },
            };
            proof {
                lemma_index(bones@, entry.0@);
            }
            let timeline = match BoneTimeline::from_json(&entry.1) {
                Ok(t) => t,
                Err(e) => {
                    proof {
                        lemma_collect_error(animation.bones@, spec_bone_entry_step(bones@), i + 1);
                    }
                    return Err(e);
                },
            };
            let ghost before = abones@;
            let ghost view = timeline@;
            abones.push((index, timeline));
            proof {
                assert(spec_bone_entries(abones@) =~= spec_bone_entries(before).push((index, view)));
                assert forall|k: int| 0 <= k < abones@.len() implies (#[trigger] spec_bone_entries(
                    abones@,
                )[k]).0 < bones@.len() by {
                    if k < before.len() {
                        assert(spec_bone_entries(abones@)[k] == spec_bone_entries(before)[k]);
                    }
                }
            }
            i += 1;
        }
        assert(animation.bones@.take(i as int) =~= animation.bones@);
        let mut aslots: Vec<(usize, SlotTimeline)> = Vec::new();
        let mut j: usize = 0;
        assert(spec_slot_entries(aslots@) =~= Seq::empty());
        while j < animation.slots.len()
            invariant
                j <= animation.slots@.len(),
                spec_collect(animation.bones@, spec_bone_entry_step(bones@)) is Ok,
                spec_collect(animation.slots@.take(j as int), spec_slot_entry_step(slots@)) == Ok::<
                    Seq<(usize, SlotTimelineView)>,
                    ErrorView,
                >(spec_slot_entries(aslots@)),
                forall|k: int|
                    0 <= k < aslots@.len() ==> (#[trigger] spec_slot_entries(aslots@)[k]).0
                        < slots@.len(),
            decreases animation.slots@.len() - j,
        {
            proof {
                lemma_collect_step(animation.slots@, spec_slot_entry_step(slots@), j as int);
            }
            let entry = &animation.slots[j];
            let index = match slot_index(entry.0.as_str(), slots) {
                Ok(index) => index,
                Err(e) => {
                    proof {
                        lemma_collect_error(animation.slots@, spec_slot_entry_step(slots@), j + 1);
                    }
                    return Err(e);
                },
            };
            proof {
                lemma_index(slots@, entry.0@);
            }
            let timeline = match SlotTimeline::from_json(&entry.1) {
                Ok(t) => t,
                Err(e) => {
                    proof {
                        lemma_collect_error(animation.slots@, spec_slot_entry_step(slots@), j + 1);
                    }
                    return Err(e);
                },
            };
            let ghost before = aslots@;
            let ghost view = timeline@;
            aslots.push((index, timeline));
            proof {
                assert(spec_slot_entries(aslots@) =~= spec_slot_entries(before).push((index, view)));
                assert forall|k: int| 0 <= k < aslots@.len() implies (#[trigger] spec_slot_entries(
                    aslots@,
                )[k]).0 < slots@.len() by {
                    if k < before.len() {
                        assert(spec_slot_entries(aslots@)[k] == spec_slot_entries(before)[k]);
                    }
                }
            }
            j += 1;
        }
        assert(animation.slots@.take(j as int) =~= animation.slots@);
        Ok(Animation { bones: abones, slots: aslots, duration })
    }

    /// The time of the last keyframe of the bone and slot timelines of an
    /// animation; zero where it has no keyframe.
    pub fn duration(animation: &crate::format::Animation) -> (r: Scalar)
        ensures
            r == spec_duration(*animation),
    {
        let mut best = Scalar::zero();
        let mut i: usize = 0;
        while i < animation.bones.len()
            invariant
                i <= animation.bones@.len(),
                best == spec_bones_latest(animation.bones@, Scalar::spec_zero(), i as int),
            decreases animation.bones@.len() - i,
        {
            let timelines = &animation.bones[i].1;
            best = latest(&timelines.translate, best);
            best = latest(&timelines.rotate, best);
            best = latest(&timelines.scale, best);
            i += 1;
        }
        let mut j: usize = 0;
        while j < animation.slots.len()
            invariant
                j <= animation.slots@.len(),
                i == animation.bones@.len(),
                best == spec_slots_latest(
                    animation.slots@,
                    spec_bones_latest(animation.bones@, Scalar::spec_zero(), i as int),
                    j as int,
                ),
            decreases animation.slots@.len() - j,
        {
            let timelines = &animation.slots[j].1;
            best = latest(&timelines.attachment, best);
            best = latest(&timelines.color, best);
            j += 1;
        }
        best
    }
}

} // verus!
