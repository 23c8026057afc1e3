//! A loaded skeleton: bones, slots, skins and animations with every name resolved.

use vstd::prelude::*;
use crate::collect::{
    lemma_collect_error, lemma_collect_named_error, lemma_collect_named_first,
    lemma_collect_named_step, lemma_collect_named_unique, lemma_collect_step, spec_collect,
    spec_collect_named, spec_has_name, spec_names_unique,
};
use crate::scalar::Scalar;
use crate::skeleton::error::{ErrorView, SkeletonError};
use crate::skeleton::hierarchy::{
    spec_declared, spec_is_order, spec_parents_first, topological_order,
};
use crate::text::{lemma_lt_transitive, str_eq, str_lt, text_lt};

pub mod animation;
pub mod clip;
pub mod error;
pub mod hierarchy;
pub mod names;
pub mod parts;
pub mod skin;
pub mod srt;
pub mod timelines;

pub use crate::skeleton::clip::{spec_duration, Animation, AnimationView};
pub use crate::skeleton::names::{
    index_of, lemma_index, lemma_index_same_names, spec_index, Named,
};
pub use crate::skeleton::parts::{bone_index, slot_index, Attachment, Bone, Slot};
pub use crate::skeleton::skin::{Skin, SkinView};
pub use crate::skeleton::srt::SRT;

verus! {

/// What a bone record becomes, as a step of [`spec_collect`].
pub open spec fn spec_bone_step() -> spec_fn(Seq<Bone>, crate::format::Bone) -> Result<
    Bone,
    ErrorView,
> {
    |done: Seq<Bone>, bone: crate::format::Bone| Bone::spec_from_json(bone, done)
}

/// What a slot record becomes, as a step of [`spec_collect`].
pub open spec fn spec_slot_step(bones: Seq<Bone>) -> spec_fn(
    Seq<Slot>,
    crate::format::Slot,
) -> Result<Slot, ErrorView> {
    |done: Seq<Slot>, slot: crate::format::Slot| Slot::spec_from_json(slot, bones)
}

/// What an animation record becomes, as a step of [`spec_collect_named`].
pub open spec fn spec_animation_step(bones: Seq<Bone>, slots: Seq<Slot>) -> spec_fn(
    crate::format::Animation,
) -> Result<AnimationView, ErrorView> {
    |animation: crate::format::Animation| Animation::spec_from_json(animation, bones, slots)
}

/// What a skin record becomes, as a step of [`spec_collect_named`].
pub open spec fn spec_skin_entry_step(slots: Seq<Slot>) -> spec_fn(
    Vec<(String, Vec<(String, crate::format::Attachment)>)>,
) -> Result<SkinView, ErrorView> {
    |skin: Vec<(String, Vec<(String, crate::format::Attachment)>)>|
        Skin::spec_from_json(skin@, slots)
}

/// The parent of each bone.
pub open spec fn spec_parents(bones: Seq<Bone>) -> Seq<Option<usize>> {
    bones.map_values(|bone: Bone| bone.parent_index)
}

/// The skins of a skeleton as sequences.
pub open spec fn spec_skins_view(skins: Seq<(String, Skin)>) -> Seq<(String, SkinView)> {
    skins.map_values(|entry: (String, Skin)| (entry.0, entry.1@))
}

/// The animations of a skeleton as sequences.
pub open spec fn spec_animations_view(animations: Seq<(String, Animation)>) -> Seq<
    (String, AnimationView),
> {
    animations.map_values(|entry: (String, Animation)| (entry.0, entry.1@))
}

/// Skeleton data loaded from a document: what a [`Skeleton`] holds.
pub struct SkeletonView {
    /// The bones, every parent before its children.
    pub bones: Seq<Bone>,
    /// The slots in draw order, bottom first.
    pub slots: Seq<Slot>,
    /// The skins by name.
    pub skins: Seq<(String, SkinView)>,
    /// The animations by name.
    pub animations: Seq<(String, AnimationView)>,
    /// The order in which the bones are evaluated.
    pub order: Seq<usize>,
}

impl SkeletonView {
    /// Every index is in range, every parent comes before its children, the
    /// bones are evaluated in the order of their declaration, and no skin
    /// and no animation shares its name with another.
    pub open spec fn wf(self) -> bool {
        &&& spec_parents_first(spec_parents(self.bones))
        &&& self.bones.len() <= usize::MAX
        &&& self.order == spec_declared(self.bones.len())
        &&& forall|i: int| 0 <= i < self.slots.len() ==> (#[trigger] self.slots[i]).bone_index < self.bones.len()
        &&& forall|s: int|
            0 <= s < self.skins.len() ==> Skin::spec_in_range(
                (#[trigger] self.skins[s]).1,
                self.slots.len(),
            )
        &&& forall|a: int|
            0 <= a < self.animations.len() ==> Animation::spec_in_range(
                (#[trigger] self.animations[a]).1,
                self.bones.len(),
                self.slots.len(),
            )
        &&& spec_names_unique(self.skins)
        &&& spec_names_unique(self.animations)
    }
}

/// Skeleton data loaded from a document, with every name resolved.
pub struct Skeleton {
    /// The bones, every parent before its children.
    bones: Vec<Bone>,
    /// The slots in draw order, bottom first.
    slots: Vec<Slot>,
    /// The skins by name.
    skins: Vec<(String, Skin)>,
    /// The animations by name.
    animations: Vec<(String, Animation)>,
    /// The order in which the bones are evaluated.
    order: Vec<usize>,
}

impl View for Skeleton {
    type V = SkeletonView;

    closed spec fn view(&self) -> SkeletonView {
        SkeletonView {
            bones: self.bones@,
            slots: self.slots@,
            skins: spec_skins_view(self.skins@),
            animations: spec_animations_view(self.animations@),
            order: self.order@,
        }
    }
}

impl Skeleton {
    #[verifier::type_invariant]
    spec fn inv(&self) -> bool {
        self@.wf()
    }

    /// The skeleton that a document becomes, or the first error met while the
    /// bones, the slots, the animations and the skins are taken in that
    /// order. Of skins or animations with one name the first counts.
    pub open spec fn spec_from_json(doc: crate::format::Document) -> Result<
        SkeletonView,
        ErrorView,
    > {
        match spec_collect(doc.bones@, spec_bone_step()) {
            Err(e) => Err(e),
            Ok(bones) => match spec_collect(doc.slots@, spec_slot_step(bones)) {
                Err(e) => Err(e),
                Ok(slots) => match spec_collect_named(
                    doc.animations@,
                    spec_animation_step(bones, slots),
                ) {
                    Err(e) => Err(e),
                    Ok(animations) => match spec_collect_named(
                        doc.skins@,
                        spec_skin_entry_step(slots),
                    ) {
                        Err(e) => Err(e),
                        Ok(skins) => Ok(
                            SkeletonView {
                                bones,
                                slots,
                                skins,
                                animations,
                                order: spec_declared(bones.len()),
                            },
                        ),
                    },
                },
            },
        }
    }

    /// Loads a document: resolves every name to an index and checks every
    /// colour and curve. The first error rejects the whole document.
    pub fn from_json(doc: crate::format::Document) -> (r: Result<Skeleton, SkeletonError>)
        ensures
            match r {
                Ok(skeleton) => Skeleton::spec_from_json(doc) == Ok::<SkeletonView, ErrorView>(
                    skeleton@,
                ) && skeleton@.wf(),
                Err(e) => Skeleton::spec_from_json(doc) == Err::<SkeletonView, ErrorView>(e@),
            },
    {
        let bones = match load_bones(&doc.bones) {
            Ok(bones) => bones,
            Err(e) => {
                return Err(e);
            },
        };
        let slots = match load_slots(&doc.slots, &bones) {
            Ok(slots) => slots,
            Err(e) => {
                return Err(e);
            },
        };
        let animations = match load_animations(&doc.animations, &bones, &slots) {
            Ok(animations) => animations,
            Err(e) => {
                return Err(e);
            },
        };
        let skins = match load_skins(&doc.skins, &slots) {
            Ok(skins) => skins,
            Err(e) => {
                return Err(e);
            },
        };
        let mut parents: Vec<Option<usize>> = Vec::with_capacity(bones.len());
        let mut i: usize = 0;
        while i < bones.len()
            invariant
                i <= bones@.len(),
                parents@ == spec_parents(bones@.take(i as int)),
            decreases bones@.len() - i,
        {
            parents.push(bones[i].parent_index);
            assert(parents@ =~= spec_parents(bones@.take(i + 1)));
            i += 1;
        }
        assert(bones@.take(i as int) =~= bones@);
        let order = match topological_order(&parents) {
            Ok(order) => order,
            Err(e) => {
                return Err(e);
            },
        };
        proof {
            lemma_collect_named_unique(doc.animations@, spec_animation_step(bones@, slots@));
            lemma_collect_named_unique(doc.skins@, spec_skin_entry_step(slots@));
            let view = SkeletonView {
                bones: bones@,
                slots: slots@,
                skins: spec_skins_view(skins@),
                animations: spec_animations_view(animations@),
                order: order@,
            };
            assert(view.wf());
        }
        Ok(Skeleton { bones, slots, skins, animations, order })
    }
}

fn load_bones(records: &Vec<crate::format::Bone>) -> (r: Result<Vec<Bone>, SkeletonError>)
    ensures
        match r {
            Ok(bones) => spec_collect(records@, spec_bone_step()) == Ok::<Seq<Bone>, ErrorView>(
                bones@,
            ) && spec_parents_first(spec_parents(bones@)),
            Err(e) => spec_collect(records@, spec_bone_step()) == Err::<Seq<Bone>, ErrorView>(e@),
        },
{
    let mut bones: Vec<Bone> = Vec::new();
    let mut i: usize = 0;
    while i < records.len()
        invariant
            i <= records@.len(),
            bones@.len() == i,
            spec_collect(records@.take(i as int), spec_bone_step()) == Ok::<Seq<Bone>, ErrorView>(
                bones@,
            ),
            spec_parents_first(spec_parents(bones@)),
        decreases records@.len() - i,
    {
        proof {
            lemma_collect_step(records@, spec_bone_step(), i as int);
        }
        let bone = match Bone::from_json(&records[i], bones.as_slice()) {
            Ok(bone) => bone,
            Err(e) => {
                proof {
                    lemma_collect_error(records@, spec_bone_step(), i + 1);
                }
                return Err(e);
            },
        };
        let ghost before = bones@;
        bones.push(bone);
        proof {
            assert forall|k: int| 0 <= k < spec_parents(bones@).len() implies (
            #[trigger] spec_parents(bones@)[k] matches Some(p) ==> p < k) by {
                if k < before.len() {
                    assert(spec_parents(bones@)[k] == spec_parents(before)[k]);
                }
            }
        }
        i += 1;
    }
    assert(records@.take(i as int) =~= records@);
    Ok(bones)
}

fn load_slots(records: &Vec<crate::format::Slot>, bones: &Vec<Bone>) -> (r: Result<
    Vec<Slot>,
    SkeletonError,
>)
    ensures
        match r {
            Ok(slots) => spec_collect(records@, spec_slot_step(bones@)) == Ok::<
                Seq<Slot>,
                ErrorView,
            >(slots@) && forall|k: int|
                0 <= k < slots@.len() ==> (#[trigger] slots@[k]).bone_index < bones@.len(),
            Err(e) => spec_collect(records@, spec_slot_step(bones@)) == Err::<Seq<Slot>, ErrorView>(
                e@,
            ),
        },
{
    let mut slots: Vec<Slot> = Vec::new();
    let mut i: usize = 0;
    while i < records.len()
        invariant
            i <= records@.len(),
            spec_collect(records@.take(i as int), spec_slot_step(bones@)) == Ok::<
                Seq<Slot>,
                ErrorView,
            >(slots@),
            forall|k: int| 0 <= k < slots@.len() ==> (#[trigger] slots@[k]).bone_index < bones@.len(),
        decreases records@.len() - i,
    {
        proof {
            lemma_collect_step(records@, spec_slot_step(bones@), i as int);
        }
        let slot = match Slot::from_json(&records[i], bones.as_slice()) {
            Ok(slot) => slot,
            Err(e) => {
                proof {
                    lemma_collect_error(records@, spec_slot_step(bones@), i + 1);
                }
                return Err(e);
            },
        };
        slots.push(slot);
        i += 1;
    }
    assert(records@.take(i as int) =~= records@);
    Ok(slots)
}

/// A name is taken in a list exactly where it is taken in the list's view.
proof fn lemma_has_name_animations(animations: Seq<(String, Animation)>, name: Seq<char>)
    ensures
        spec_has_name(spec_animations_view(animations), name) <==> spec_index(animations, name)
            is Some,
{
    lemma_index(animations, name);
    let view = spec_animations_view(animations);
    if spec_has_name(view, name) {
        let j = choose|j: int| 0 <= j < view.len() && (#[trigger] view[j]).0@ == name;
        assert(animations[j].spec_name() == name);
    }
    if let Some(j) = spec_index(animations, name) {
        assert(view[j].0@ == name);
    }
}

/// A name is taken in a list exactly where it is taken in the list's view.
proof fn lemma_has_name_skins(skins: Seq<(String, Skin)>, name: Seq<char>)
    ensures
        spec_has_name(spec_skins_view(skins), name) <==> spec_index(skins, name) is Some,
{
    lemma_index(skins, name);
    let view = spec_skins_view(skins);
    if spec_has_name(view, name) {
        let j = choose|j: int| 0 <= j < view.len() && (#[trigger] view[j]).0@ == name;
        assert(skins[j].spec_name() == name);
    }
    if let Some(j) = spec_index(skins, name) {
        assert(view[j].0@ == name);
    }
}

fn load_animations(
    records: &Vec<(String, crate::format::Animation)>,
    bones: &Vec<Bone>,
    slots: &Vec<Slot>,
) -> (r: Result<Vec<(String, Animation)>, SkeletonError>)
    ensures
        match r {
            Ok(animations) => spec_collect_named(records@, spec_animation_step(bones@, slots@))
                == Ok::<Seq<(String, AnimationView)>, ErrorView>(
                spec_animations_view(animations@),
            ) && forall|a: int|
                0 <= a < animations@.len() ==> Animation::spec_in_range(
                    (#[trigger] spec_animations_view(animations@)[a]).1,
                    bones@.len(),
                    slots@.len(),
                ),
            Err(e) => spec_collect_named(records@, spec_animation_step(bones@, slots@)) == Err::<
                Seq<(String, AnimationView)>,
                ErrorView,
            >(e@),
        },
{
    let mut animations: Vec<(String, Animation)> = Vec::new();
    let mut i: usize = 0;
    assert(spec_animations_view(animations@) =~= Seq::empty());
    while i < records.len()
        invariant
            i <= records@.len(),
            spec_collect_named(records@.take(i as int), spec_animation_step(bones@, slots@)) == Ok::<
                Seq<(String, AnimationView)>,
                ErrorView,
            >(spec_animations_view(animations@)),
            forall|a: int|
                0 <= a < animations@.len() ==> Animation::spec_in_range(
                    (#[trigger] spec_animations_view(animations@)[a]).1,
                    bones@.len(),
                    slots@.len(),
                ),
        decreases records@.len() - i,
    {
        proof {
            lemma_collect_named_step(records@, spec_animation_step(bones@, slots@), i as int);
            lemma_has_name_animations(animations@, records@[i as int].0@);
        }
        let entry = &records[i];
        if index_of(animations.as_slice(), entry.0.as_str()).is_none() {
            let animation = match Animation::from_json(&entry.1, bones.as_slice(), slots.as_slice()) {
                Ok(animation) => animation,
                Err(e) => {
                    proof {
                        lemma_collect_named_error(
                            records@,
                            spec_animation_step(bones@, slots@),
                            i + 1,
                        );
                    }
                    return Err(e);
                },
            };
            let ghost before = animations@;
            let ghost view = animation@;
            let name = entry.0.clone();
            animations.push((name, animation));
            proof {
                assert(spec_animations_view(animations@) =~= spec_animations_view(before).push(
                    (name, view),
                ));
                assert forall|a: int| 0 <= a < animations@.len() implies Animation::spec_in_range(
                    (#[trigger] spec_animations_view(animations@)[a]).1,
                    bones@.len(),
                    slots@.len(),
                ) by {
                    if a < before.len() {
                        assert(spec_animations_view(animations@)[a] == spec_animations_view(
                            before,
                        )[a]);
                    }
                }
            }
        }
        i += 1;
    }
    assert(records@.take(i as int) =~= records@);
    Ok(animations)
}

fn load_skins(
    records: &Vec<(String, Vec<(String, Vec<(String, crate::format::Attachment)>)>)>,
    slots: &Vec<Slot>,
) -> (r: Result<Vec<(String, Skin)>, SkeletonError>)
    ensures
        match r {
            Ok(skins) => spec_collect_named(records@, spec_skin_entry_step(slots@)) == Ok::<
                Seq<(String, SkinView)>,
                ErrorView,
            >(spec_skins_view(skins@)) && forall|s: int|
                0 <= s < skins@.len() ==> Skin::spec_in_range(
                    (#[trigger] spec_skins_view(skins@)[s]).1,
                    slots@.len(),
                ),
            Err(e) => spec_collect_named(records@, spec_skin_entry_step(slots@)) == Err::<
                Seq<(String, SkinView)>,
                ErrorView,
            >(e@),
        },
{
    let mut skins: Vec<(String, Skin)> = Vec::new();
    let mut i: usize = 0;
    assert(spec_skins_view(skins@) =~= Seq::empty());
    while i < records.len()
        invariant
            i <= records@.len(),
            spec_collect_named(records@.take(i as int), spec_skin_entry_step(slots@)) == Ok::<
                Seq<(String, SkinView)>,
                ErrorView,
            >(spec_skins_view(skins@)),
            forall|s: int|
                0 <= s < skins@.len() ==> Skin::spec_in_range(
                    (#[trigger] spec_skins_view(skins@)[s]).1,
                    slots@.len(),
                ),
        decreases records@.len() - i,
    {
        proof {
            lemma_collect_named_step(records@, spec_skin_entry_step(slots@), i as int);
            lemma_has_name_skins(skins@, records@[i as int].0@);
        }
        let entry = &records[i];
        if index_of(skins.as_slice(), entry.0.as_str()).is_none() {
            let skin = match Skin::from_json(&entry.1, slots.as_slice()) {
                Ok(skin) => skin,
                Err(e) => {
                    proof {
                        lemma_collect_named_error(records@, spec_skin_entry_step(slots@), i + 1);
                    }
                    return Err(e);
                },
            };
            let ghost before = skins@;
            let ghost view = skin@;
            let name = entry.0.clone();
            skins.push((name, skin));
            proof {
                assert(spec_skins_view(skins@) =~= spec_skins_view(before).push((name, view)));
                assert forall|s: int| 0 <= s < skins@.len() implies Skin::spec_in_range(
                    (#[trigger] spec_skins_view(skins@)[s]).1,
                    slots@.len(),
                ) by {
                    if s < before.len() {
                        assert(spec_skins_view(skins@)[s] == spec_skins_view(before)[s]);
                    }
                }
            }
        }
        i += 1;
    }
    assert(records@.take(i as int) =~= records@);
    Ok(skins)
}

/// In a loaded skeleton the bones are evaluated in an order that lists every
/// bone once and every bone after its parent.
pub proof fn lemma_order(skeleton: SkeletonView)
    requires
        skeleton.wf(),
    ensures
        spec_is_order(spec_parents(skeleton.bones), skeleton.order),
{
    let parents = spec_parents(skeleton.bones);
    let order = skeleton.order;
    assert forall|k: int| 0 <= k < order.len() implies (#[trigger] order[k]) == k by {}
    assert forall|k: int| 0 <= k < order.len() implies (parents[(#[trigger] order[k]) as int] matches Some(
        p,
    ) ==> crate::skeleton::hierarchy::spec_listed(order, p as int, k)) by {
        if let Some(p) = parents[order[k] as int] {
            assert(parents[k] == Some(p));
            assert(order[p as int] == p);
        }
    }
}

/// The skin of that name, or the error that names what was looked for.
pub open spec fn spec_skin(skeleton: SkeletonView, name: Seq<char>) -> Result<SkinView, ErrorView> {
    match spec_index(skeleton.skins, name) {
        Some(i) => Ok(skeleton.skins[i].1),
        None => Err(ErrorView::SkinNotFound(name)),
    }
}

/// The animation of that name, or the error that names what was looked for.
pub open spec fn spec_animation(skeleton: SkeletonView, name: Seq<char>) -> Result<
    AnimationView,
    ErrorView,
> {
    match spec_index(skeleton.animations, name) {
        Some(i) => Ok(skeleton.animations[i].1),
        None => Err(ErrorView::AnimationNotFound(name)),
    }
}

/// The name under which an attachment is drawn: its own, or else the key of its entry.
pub open spec fn spec_display(entry: (String, Attachment)) -> Seq<char> {
    match entry.1.name {
        Some(name) => name@,
        None => entry.0@,
    }
}

/// Some attachment of some skin is drawn under that name.
pub open spec fn spec_is_display(skeleton: SkeletonView, name: Seq<char>) -> bool {
    exists|s: int, k: int, j: int|
        0 <= s < skeleton.skins.len() && 0 <= k < skeleton.skins[s].1.len() && 0 <= j
            < skeleton.skins[s].1[k].1.len() && spec_display(
            #[trigger] skeleton.skins[s].1[k].1[j],
        ) == name
}

/// The names come in the order of `str`, each one once.
pub open spec fn spec_sorted(names: Seq<&str>) -> bool {
    forall|i: int, j: int|
        0 <= i < j < names.len() ==> text_lt((#[trigger] names[i])@, (#[trigger] names[j])@)
}

/// The list holds that text.
pub open spec fn spec_holds(names: Seq<&str>, text: Seq<char>) -> bool {
    exists|i: int| 0 <= i < names.len() && (#[trigger] names[i])@ == text
}

/// Puts a name into a sorted list, unless the list holds it already.
fn insert_sorted<'a>(names: &mut Vec<&'a str>, name: &'a str)
    requires
        spec_sorted(old(names)@),
    ensures
        spec_sorted(final(names)@),
        forall|text: Seq<char>|
            spec_holds(final(names)@, text) <==> (spec_holds(old(names)@, text) || text == name@),
{
    let ghost before = names@;
    let mut i: usize = 0;
    while i < names.len() && str_lt(names[i], name)
        invariant
            i <= names@.len(),
            names@ == before,
            spec_sorted(before),
            forall|j: int| 0 <= j < i ==> text_lt((#[trigger] before[j])@, name@),
        decreases names@.len() - i,
    {
        i += 1;
    }
    if i < names.len() && str_eq(names[i], name) {
        proof {
            assert forall|text: Seq<char>|
                spec_holds(names@, text) <==> (spec_holds(before, text) || text == name@) by {
                if text == name@ {
                    assert(names@[i as int]@ == text);
                }
            }
        }
        return ;
    }
    names.insert(i, name);
    proof {
        let after = names@;
        assert(after =~= before.insert(i as int, name));
        if i < before.len() {
            // The name is not at `i` and `before[i]` does not come before it.
            crate::text::lemma_trichotomy(before[i as int]@, name@);
        }
        assert forall|a: int, b: int| 0 <= a < b < after.len() implies text_lt(
            (#[trigger] after[a])@,
            (#[trigger] after[b])@,
        ) by {
            if b < i {
                assert(after[a] == before[a] && after[b] == before[b]);
            } else if b == i {
                assert(after[a] == before[a]);
            } else if a < i {
                assert(after[a] == before[a] && after[b] == before[b - 1]);
            } else if a == i {
                assert(after[b] == before[b - 1]);
                if b - 1 > i {
                    lemma_lt_transitive(
                        vstd::utf8::encode_utf8(name@),
                        vstd::utf8::encode_utf8(before[i as int]@),
                        vstd::utf8::encode_utf8(before[b - 1]@),
                    );
                }
            } else {
                assert(after[a] == before[a - 1] && after[b] == before[b - 1]);
            }
        }
        assert forall|text: Seq<char>|
            spec_holds(after, text) <==> (spec_holds(before, text) || text == name@) by {
            if spec_holds(after, text) {
                let k = choose|k: int| 0 <= k < after.len() && (#[trigger] after[k])@ == text;
                if k < i {
                    assert(before[k]@ == text);
                } else if k > i {
                    assert(before[k - 1]@ == text);
                }
            }
            if spec_holds(before, text) {
                let k = choose|k: int| 0 <= k < before.len() && (#[trigger] before[k])@ == text;
                if k < i {
                    assert(after[k]@ == text);
                } else {
                    assert(after[k + 1]@ == text);
                }
            }
            if text == name@ {
                assert(after[i as int]@ == text);
            }
        }
    }
}

impl Skeleton {
    /// The bones, every parent before its children.
    pub fn bones(&self) -> (r: &Vec<Bone>)
        ensures
            r@ == self@.bones,
            self@.wf(),
    {
        proof {
            use_type_invariant(self);
        }
        &self.bones
    }

    /// The slots in draw order, bottom first.
    pub fn slots(&self) -> (r: &Vec<Slot>)
        ensures
            r@ == self@.slots,
    {
        &self.slots
    }

    /// The skins by name.
    pub fn skins(&self) -> (r: &Vec<(String, Skin)>)
        ensures
            spec_skins_view(r@) == self@.skins,
    {
        &self.skins
    }

    /// The animations by name.
    pub fn animations(&self) -> (r: &Vec<(String, Animation)>)
        ensures
            spec_animations_view(r@) == self@.animations,
    {
        &self.animations
    }

    /// The order in which the bones are evaluated.
    pub fn order(&self) -> (r: &Vec<usize>)
        ensures
            r@ == self@.order,
    {
        &self.order
    }

    /// Finds the skin of that name.
    pub fn get_skin<'a>(&'a self, name: &str) -> (r: Result<&'a Skin, SkeletonError>)
        ensures
            match r {
                Ok(skin) => spec_skin(self@, name@) == Ok::<SkinView, ErrorView>(skin@),
                Err(e) => spec_skin(self@, name@) == Err::<SkinView, ErrorView>(e@),
            },
    {
        proof {
            lemma_index_same_names(self.skins@, spec_skins_view(self.skins@), name@);
            lemma_index(self.skins@, name@);
        }
        match index_of(self.skins.as_slice(), name) {
            Some(i) => Ok(&self.skins[i].1),
            None => Err(SkeletonError::SkinNotFound(name.to_owned())),
        }
    }

    /// The duration of the animation of that name: the time of its last keyframe.
    pub fn animation_duration(&self, name: &str) -> (r: Result<Scalar, SkeletonError>)
        ensures
            match r {
                Ok(duration) => spec_animation(self@, name@) matches Ok(animation)
                    && animation.duration == duration,
                Err(e) => spec_animation(self@, name@) == Err::<AnimationView, ErrorView>(e@),
            },
    {
        proof {
            lemma_index_same_names(self.animations@, spec_animations_view(self.animations@), name@);
            lemma_index(self.animations@, name@);
        }
        match index_of(self.animations.as_slice(), name) {
            Some(i) => Ok(self.animations[i].1.duration),
            None => Err(SkeletonError::AnimationNotFound(name.to_owned())),
        }
    }

    /// Returns the names of all skins of the document, in the order of the document.
    pub fn get_skins_names(&self) -> (r: Vec<&str>)
        ensures
            r@.len() == self@.skins.len(),
            forall|i: int| 0 <= i < r@.len() ==> (#[trigger] r@[i])@ == self@.skins[i].0@,
    {
        let mut names: Vec<&str> = Vec::with_capacity(self.skins.len());
        let mut i: usize = 0;
        while i < self.skins.len()
            invariant
                i <= self.skins@.len(),
                names@.len() == i,
                forall|j: int| 0 <= j < i ==> (#[trigger] names@[j])@ == self.skins@[j].0@,
            decreases self.skins@.len() - i,
        {
            names.push(self.skins[i].0.as_str());
            i += 1;
        }
        names
    }

    /// Returns the names of all animations of the document, in the order of the document.
    pub fn get_animations_names(&self) -> (r: Vec<&str>)
        ensures
            r@.len() == self@.animations.len(),
            forall|i: int| 0 <= i < r@.len() ==> (#[trigger] r@[i])@ == self@.animations[i].0@,
    {
        let mut names: Vec<&str> = Vec::with_capacity(self.animations.len());
        let mut i: usize = 0;
        while i < self.animations.len()
            invariant
                i <= self.animations@.len(),
                names@.len() == i,
                forall|j: int| 0 <= j < i ==> (#[trigger] names@[j])@ == self.animations@[j].0@,
            decreases self.animations@.len() - i,
        {
            names.push(self.animations[i].0.as_str());
            i += 1;
        }
        names
    }

    /// Returns the names under which the attachments of all skins are drawn:
    /// sorted, and each name once.
    ///
    /// The purpose of this function is to allow you to preload what you need.
    pub fn get_attachments_names(&self) -> (r: Vec<&str>)
        ensures
            spec_sorted(r@),
            forall|text: Seq<char>| spec_holds(r@, text) <==> spec_is_display(self@, text),
    {
        let mut names: Vec<&str> = Vec::new();
        let ghost view = self@;
        let mut s: usize = 0;
        while s < self.skins.len()
            invariant
                s <= self.skins@.len(),
                view == self@,
                view.skins == spec_skins_view(self.skins@),
                spec_sorted(names@),
                forall|text: Seq<char>|
                    spec_holds(names@, text) <==> spec_shown(view, s as int, 0, 0, text),
            decreases self.skins@.len() - s,
        {
            let skin = &self.skins[s].1;
            let mut k: usize = 0;
            while k < skin.slots.len()
                invariant
                    s < self.skins@.len(),
                    k <= skin.slots@.len(),
                    view == self@,
                    view.skins == spec_skins_view(self.skins@),
                    skin == &self.skins@[s as int].1,
                    spec_sorted(names@),
                    forall|text: Seq<char>|
                        spec_holds(names@, text) <==> spec_shown(view, s as int, k as int, 0, text),
                decreases skin.slots@.len() - k,
            {
                let entries = &skin.slots[k].1;
                let mut j: usize = 0;
                while j < entries.len()
                    invariant
                        s < self.skins@.len(),
                        k < skin.slots@.len(),
                        j <= entries@.len(),
                        view == self@,
                        view.skins == spec_skins_view(self.skins@),
                        skin == &self.skins@[s as int].1,
                        entries == &skin.slots@[k as int].1,
                        spec_sorted(names@),
                        forall|text: Seq<char>|
                            spec_holds(names@, text) <==> spec_shown(
                                view,
                                s as int,
                                k as int,
                                j as int,
                                text,
                            ),
                    decreases entries@.len() - j,
                {
                    let entry = &entries[j];
                    let name = match &entry.1.name {
                        Some(n) => n.as_str(),
                        None => entry.0.as_str(),
                    };
                    insert_sorted(&mut names, name);
                    proof {
                        assert(view.skins[s as int].1[k as int].1[j as int] == *entry);
                        assert(name@ == spec_display(*entry));
                        lemma_shown_next(view, s as int, k as int, j as int);
                    }
                    j += 1;
                }
                proof {
                    lemma_shown_slot(view, s as int, k as int);
                }
                k += 1;
            }
            proof {
                lemma_shown_skin(view, s as int);
            }
            s += 1;
        }
        proof {
            lemma_shown_all(view);
        }
        names
    }
}

/// An attachment drawn under that name comes before the place (`s`, `k`,
/// `j`): in an earlier skin, or in skin `s` in an earlier slot entry, or in
/// slot entry `k` of skin `s` among the first `j` attachments.
pub open spec fn spec_shown(skeleton: SkeletonView, s: int, k: int, j: int, text: Seq<char>) -> bool {
    exists|a: int, b: int, c: int|
        0 <= a < skeleton.skins.len() && 0 <= b < skeleton.skins[a].1.len() && 0 <= c
            < skeleton.skins[a].1[b].1.len() && (a < s || (a == s && (b < k || (b == k && c < j))))
            && spec_display(#[trigger] skeleton.skins[a].1[b].1[c]) == text
}

proof fn lemma_shown_next(skeleton: SkeletonView, s: int, k: int, j: int)
    requires
        0 <= s < skeleton.skins.len(),
        0 <= k < skeleton.skins[s].1.len(),
        0 <= j < skeleton.skins[s].1[k].1.len(),
    ensures
        forall|text: Seq<char>|
            spec_shown(skeleton, s, k, j + 1, text) <==> (spec_shown(skeleton, s, k, j, text)
                || text == spec_display(skeleton.skins[s].1[k].1[j])),
{
    assert forall|text: Seq<char>|
        spec_shown(skeleton, s, k, j + 1, text) <==> (spec_shown(skeleton, s, k, j, text) || text
            == spec_display(skeleton.skins[s].1[k].1[j])) by {
        if spec_shown(skeleton, s, k, j + 1, text) {
            let (a, b, c) = choose|a: int, b: int, c: int|
                0 <= a < skeleton.skins.len() && 0 <= b < skeleton.skins[a].1.len() && 0 <= c
                    < skeleton.skins[a].1[b].1.len() && (a < s || (a == s && (b < k || (b == k
                    && c < j + 1)))) && spec_display(#[trigger] skeleton.skins[a].1[b].1[c])
                    == text;
            if !(a == s && b == k && c == j) {
                assert(spec_display(skeleton.skins[a].1[b].1[c]) == text);
            }
        }
        if spec_shown(skeleton, s, k, j, text) {
            let (a, b, c) = choose|a: int, b: int, c: int|
                0 <= a < skeleton.skins.len() && 0 <= b < skeleton.skins[a].1.len() && 0 <= c
                    < skeleton.skins[a].1[b].1.len() && (a < s || (a == s && (b < k || (b == k
                    && c < j)))) && spec_display(#[trigger] skeleton.skins[a].1[b].1[c]) == text;
            assert(spec_display(skeleton.skins[a].1[b].1[c]) == text);
        }
        if text == spec_display(skeleton.skins[s].1[k].1[j]) {
            assert(spec_display(skeleton.skins[s].1[k].1[j]) == text);
        }
    }
}

proof fn lemma_shown_slot(skeleton: SkeletonView, s: int, k: int)
    requires
        0 <= s < skeleton.skins.len(),
        0 <= k < skeleton.skins[s].1.len(),
    ensures
        forall|text: Seq<char>|
            spec_shown(skeleton, s, k + 1, 0, text) <==> spec_shown(
                skeleton,
                s,
                k,
                skeleton.skins[s].1[k].1.len() as int,
                text,
            ),
{
    let n = skeleton.skins[s].1[k].1.len() as int;
    assert forall|text: Seq<char>|
        spec_shown(skeleton, s, k + 1, 0, text) <==> spec_shown(skeleton, s, k, n, text) by {
        if spec_shown(skeleton, s, k + 1, 0, text) {
            let (a, b, c) = choose|a: int, b: int, c: int|
                0 <= a < skeleton.skins.len() && 0 <= b < skeleton.skins[a].1.len() && 0 <= c
                    < skeleton.skins[a].1[b].1.len() && (a < s || (a == s && (b < k + 1 || (b == k
                    + 1 && c < 0)))) && spec_display(#[trigger] skeleton.skins[a].1[b].1[c])
                    == text;
            assert(spec_display(skeleton.skins[a].1[b].1[c]) == text);
        }
        if spec_shown(skeleton, s, k, n, text) {
            let (a, b, c) = choose|a: int, b: int, c: int|
                0 <= a < skeleton.skins.len() && 0 <= b < skeleton.skins[a].1.len() && 0 <= c
                    < skeleton.skins[a].1[b].1.len() && (a < s || (a == s && (b < k || (b == k
                    && c < n)))) && spec_display(#[trigger] skeleton.skins[a].1[b].1[c]) == text;
            assert(spec_display(skeleton.skins[a].1[b].1[c]) == text);
        }
    }
}

proof fn lemma_shown_skin(skeleton: SkeletonView, s: int)
    requires
        0 <= s < skeleton.skins.len(),
    ensures
        forall|text: Seq<char>|
            spec_shown(skeleton, s + 1, 0, 0, text) <==> spec_shown(
                skeleton,
                s,
                skeleton.skins[s].1.len() as int,
                0,
                text,
            ),
{
    let n = skeleton.skins[s].1.len() as int;
    assert forall|text: Seq<char>|
        spec_shown(skeleton, s + 1, 0, 0, text) <==> spec_shown(skeleton, s, n, 0, text) by {
        if spec_shown(skeleton, s + 1, 0, 0, text) {
            let (a, b, c) = choose|a: int, b: int, c: int|
                0 <= a < skeleton.skins.len() && 0 <= b < skeleton.skins[a].1.len() && 0 <= c
                    < skeleton.skins[a].1[b].1.len() && (a < s + 1 || (a == s + 1 && (b < 0 || (b
                    == 0 && c < 0)))) && spec_display(#[trigger] skeleton.skins[a].1[b].1[c])
                    == text;
            assert(spec_display(skeleton.skins[a].1[b].1[c]) == text);
        }
        if spec_shown(skeleton, s, n, 0, text) {
            let (a, b, c) = choose|a: int, b: int, c: int|
                0 <= a < skeleton.skins.len() && 0 <= b < skeleton.skins[a].1.len() && 0 <= c
                    < skeleton.skins[a].1[b].1.len() && (a < s || (a == s && (b < n || (b == n
                    && c < 0)))) && spec_display(#[trigger] skeleton.skins[a].1[b].1[c]) == text;
            assert(spec_display(skeleton.skins[a].1[b].1[c]) == text);
        }
    }
}

proof fn lemma_shown_all(skeleton: SkeletonView)
    ensures
        forall|text: Seq<char>|
            spec_shown(skeleton, skeleton.skins.len() as int, 0, 0, text) <==> spec_is_display(
                skeleton,
                text,
            ),
{
    let n = skeleton.skins.len() as int;
    assert forall|text: Seq<char>|
        spec_shown(skeleton, n, 0, 0, text) <==> spec_is_display(skeleton, text) by {
        if spec_shown(skeleton, n, 0, 0, text) {
            let (a, b, c) = choose|a: int, b: int, c: int|
                0 <= a < skeleton.skins.len() && 0 <= b < skeleton.skins[a].1.len() && 0 <= c
                    < skeleton.skins[a].1[b].1.len() && (a < n || (a == n && (b < 0 || (b == 0
                    && c < 0)))) && spec_display(#[trigger] skeleton.skins[a].1[b].1[c]) == text;
            assert(spec_display(skeleton.skins[a].1[b].1[c]) == text);
        }
        if spec_is_display(skeleton, text) {
            let (a, b, c) = choose|a: int, b: int, c: int|
                0 <= a < skeleton.skins.len() && 0 <= b < skeleton.skins[a].1.len() && 0 <= c
                    < skeleton.skins[a].1[b].1.len() && spec_display(
                    #[trigger] skeleton.skins[a].1[b].1[c],
                ) == text;
            assert(spec_display(skeleton.skins[a].1[b].1[c]) == text);
        }
    }
}

/// The duration of an animation of a loaded skeleton is the greatest
/// keyframe time of the bone and slot timelines of the animation in the
/// document, and zero where it has none; the skeleton has an animation of a
/// name exactly where the document has one.
pub proof fn lemma_loaded_duration(
    doc: crate::format::Document,
    skeleton: SkeletonView,
    name: Seq<char>,
)
    requires
        Skeleton::spec_from_json(doc) == Ok::<SkeletonView, ErrorView>(skeleton),
    ensures
        match spec_index(doc.animations@, name) {
            Some(i) => spec_animation(skeleton, name) matches Ok(animation) && animation.duration
                == spec_duration(doc.animations@[i].1),
            None => spec_animation(skeleton, name) == Err::<AnimationView, ErrorView>(
                ErrorView::AnimationNotFound(name),
            ),
        },
{
    let bones = spec_collect(doc.bones@, spec_bone_step())->Ok_0;
    let slots = spec_collect(doc.slots@, spec_slot_step(bones))->Ok_0;
    let step = spec_animation_step(bones, slots);
    let items = doc.animations@;
    let done = skeleton.animations;
    assert(spec_collect_named(items, step) == Ok::<Seq<(String, AnimationView)>, ErrorView>(done));
    lemma_index(items, name);
    lemma_index(done, name);
    lemma_collect_named_unique(items, step);
    match spec_index(items, name) {
        Some(i) => {
            assert forall|j: int| 0 <= j < i implies (#[trigger] items[j]).0@ != items[i].0@ by {
                assert(items[j].spec_name() != name);
            }
            lemma_collect_named_first(items, step, i);
            let k = choose|k: int|
                0 <= k < done.len() && (#[trigger] done[k]).0@ == items[i].0@ && step(items[i].1)
                    == Ok::<AnimationView, ErrorView>(done[k].1);
            assert(done[k].spec_name() == name);
            let found = spec_index(done, name)->Some_0;
            if found != k {
                if found < k {
                    assert(done[found].0@ != done[k].0@);
                } else {
                    assert(done[k].0@ != done[found].0@);
                }
            }
        },
        None => {
            if let Some(k) = spec_index(done, name) {
                assert(spec_has_name(items, done[k].0@));
                let j = choose|j: int| 0 <= j < items.len() && (#[trigger] items[j]).0@ == done[k].0@;
                assert(items[j].spec_name() == name);
            }
        },
    }
}

} // verus!
