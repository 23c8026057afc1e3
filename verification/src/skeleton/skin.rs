//! Skins: the attachments that dress the slots of a skeleton.

use vstd::prelude::*;
use crate::collect::{lemma_collect_error, lemma_collect_step, spec_collect};
use crate::scalar::Scalar;
use crate::skeleton::error::{ErrorView, SkeletonError};
use crate::skeleton::names::{index_of, lemma_index, spec_index};
use crate::skeleton::parts::{slot_index, spec_slot_index, Attachment, Slot};

verus! {

/// The attachments of a skin: for each slot that the skin dresses, the
/// index of the slot and the attachments by name.
pub type SkinView = Seq<(usize, Seq<(String, Attachment)>)>;

/// A set of attachments for the slots of a skeleton.
#[derive(Debug, Clone)]
pub struct Skin {
    /// For each slot that the skin dresses, the index of the slot and the
    /// attachments by name.
    pub slots: Vec<(usize, Vec<(String, Attachment)>)>,
}

/// The lists of a skin as sequences.
pub open spec fn spec_skin_view(slots: Seq<(usize, Vec<(String, Attachment)>)>) -> SkinView {
    slots.map_values(|entry: (usize, Vec<(String, Attachment)>)| (entry.0, entry.1@))
}

impl View for Skin {
    type V = SkinView;

    open spec fn view(&self) -> SkinView {
        spec_skin_view(self.slots@)
    }
}

/// The attachments that the entries of a skin become, under their names.
pub open spec fn spec_attachments(entries: Seq<(String, crate::format::Attachment)>) -> Seq<
    (String, Attachment),
> {
    entries.map_values(
        |entry: (String, crate::format::Attachment)|
            (entry.0, Attachment::spec_from_json(entry.1)),
    )
}

fn convert_attachments(entries: &Vec<(String, crate::format::Attachment)>) -> (r: Vec<
    (String, Attachment),
>)
    ensures
        r@ == spec_attachments(entries@),
{
    let mut out: Vec<(String, Attachment)> = Vec::with_capacity(entries.len());
    let mut i: usize = 0;
    while i < entries.len()
        invariant
            i <= entries@.len(),
            out@ == spec_attachments(entries@.take(i as int)),
        decreases entries@.len() - i,
    {
        let entry = &entries[i];
        out.push((entry.0.clone(), Attachment::from_json(&entry.1)));
        assert(out@ =~= spec_attachments(entries@.take(i + 1)));
        i += 1;
    }
    assert(entries@.take(i as int) =~= entries@);
    out
}

/// What one slot of a skin's record becomes: the slot must be declared.
pub open spec fn spec_skin_step(slots: Seq<Slot>) -> spec_fn(
    SkinView,
    (String, Vec<(String, crate::format::Attachment)>),
) -> Result<(usize, Seq<(String, Attachment)>), ErrorView> {
    |done: SkinView, entry: (String, Vec<(String, crate::format::Attachment)>)|
        match spec_slot_index(entry.0@, slots) {
            Err(e) => Err(e),
            Ok(i) => Ok((i as usize, spec_attachments(entry.1@))),
        }
}

/// The attachment of that name for that slot: of the first entry for the
/// slot that has the name, the first attachment of the name.
pub open spec fn spec_find(skin: SkinView, slot: int, name: Seq<char>, from: int) -> Option<
    Attachment,
>
    decreases skin.len() - from,
{
    if from < 0 || from >= skin.len() {
        None
    } else {
        let here = if skin[from].0 == slot {
            spec_index(skin[from].1, name)
        } else {
            None
        };
        match here {
            Some(j) => Some(skin[from].1[j].1),
            None => spec_find(skin, slot, name, from + 1),
        }
    }
}

/// The names and corners of all attachments of the entries from `from` on.
pub open spec fn spec_positions(skin: SkinView, n: int) -> Seq<(Seq<char>, [[Scalar; 2]; 4])>
    decreases n,
{
    if n <= 0 {
        Seq::empty()
    } else {
        spec_positions(skin, n - 1) + skin[n - 1].1.map_values(
            |entry: (String, Attachment)| (entry.0@, entry.1.positions),
        )
    }
}

impl Skin {
    /// The skin that a record becomes, given the slots of the skeleton.
    pub open spec fn spec_from_json(
        jslots: Seq<(String, Vec<(String, crate::format::Attachment)>)>,
        slots: Seq<Slot>,
    ) -> Result<SkinView, ErrorView> {
        spec_collect(jslots, spec_skin_step(slots))
    }

    /// Every entry of the skin is for a slot of the skeleton.
    pub open spec fn spec_in_range(skin: SkinView, slots: nat) -> bool {
        forall|k: int| 0 <= k < skin.len() ==> (#[trigger] skin[k]).0 < slots
    }

    /// Converts a skin of a document, given the slots of the skeleton.
    pub fn from_json(
        jslots: &Vec<(String, Vec<(String, crate::format::Attachment)>)>,
        slots: &[Slot],
    ) -> (r: Result<Skin, SkeletonError>)
        ensures
            match r {
                Ok(skin) => Skin::spec_from_json(jslots@, slots@) == Ok::<SkinView, ErrorView>(
                    skin@,
                ) && Skin::spec_in_range(skin@, slots@.len()),
                Err(e) => Skin::spec_from_json(jslots@, slots@) == Err::<SkinView, ErrorView>(e@),
            },
    {
        let mut skin: Vec<(usize, Vec<(String, Attachment)>)> = Vec::with_capacity(jslots.len());
        let mut i: usize = 0;
        assert(spec_skin_view(skin@) =~= Seq::empty());
        while i < jslots.len()
            invariant
                i <= jslots@.len(),
                spec_collect(jslots@.take(i as int), spec_skin_step(slots@)) == Ok::<
                    SkinView,
                    ErrorView,
                >(spec_skin_view(skin@)),
                Skin::spec_in_range(spec_skin_view(skin@), slots@.len()),
            decreases jslots@.len() - i,
        {
            proof {
                lemma_collect_step(jslots@, spec_skin_step(slots@), i as int);
            }
            let entry = &jslots[i];
            let slot_index = match slot_index(entry.0.as_str(), slots) {
                Ok(index) => index,
                Err(e) => {
                    proof {
                        lemma_collect_error(jslots@, spec_skin_step(slots@), i + 1);
                    }
                    return Err(e);
                },
            };
            proof {
                lemma_index(slots@, entry.0@);
            }
            let attachments = convert_attachments(&entry.1);
            let ghost before = skin@;
            skin.push((slot_index, attachments));
            proof {
                assert(spec_skin_view(skin@) =~= spec_skin_view(before).push(
                    (slot_index, attachments@),
                ));
                assert forall|k: int| 0 <= k < spec_skin_view(skin@).len() implies (
                #[trigger] spec_skin_view(skin@)[k]).0 < slots@.len() by {
                    if k < before.len() {
                        assert(spec_skin_view(skin@)[k] == spec_skin_view(before)[k]);
                    }
                }
            }
            i += 1;
        }
        assert(jslots@.take(i as int) =~= jslots@);
        Ok(Skin { slots: skin })
    }

    /// Finds the attachment of that name for the slot of that index.
    pub fn find(&self, slot_index: usize, attach_name: &str) -> (r: Option<&Attachment>)
        ensures
            match r {
                Some(a) => spec_find(self@, slot_index as int, attach_name@, 0) == Some(*a),
                None => spec_find(self@, slot_index as int, attach_name@, 0) is None,
            },
    {
        let mut k: usize = 0;
        while k < self.slots.len()
            invariant
                k <= self.slots@.len(),
                spec_find(self@, slot_index as int, attach_name@, k as int) == spec_find(
                    self@,
                    slot_index as int,
                    attach_name@,
                    0,
                ),
            decreases self.slots@.len() - k,
        {
            if self.slots[k].0 == slot_index {
                match index_of(self.slots[k].1.as_slice(), attach_name) {
                    Some(j) => {
                        proof {
                            lemma_index(self.slots@[k as int].1@, attach_name@);
                        }
                        return Some(&self.slots[k].1[j].1);
                    },
                    None => {},
                }
            }
            k += 1;
        }
        None
    }

    /// Lists the names and the corners of all attachments, to set the skin up.
    pub fn attachment_positions(&self) -> (r: Vec<(&str, &[[Scalar; 2]; 4])>)
        ensures
            r@.len() == spec_positions(self@, self@.len() as int).len(),
            forall|i: int|
                0 <= i < r@.len() ==> (#[trigger] r@[i]).0@ == spec_positions(
                    self@,
                    self@.len() as int,
                )[i].0 && *r@[i].1 == spec_positions(self@, self@.len() as int)[i].1,
    {
        let mut out: Vec<(&str, &[[Scalar; 2]; 4])> = Vec::new();
        let mut k: usize = 0;
        while k < self.slots.len()
            invariant
                k <= self.slots@.len(),
                out@.len() == spec_positions(self@, k as int).len(),
                forall|i: int|
                    0 <= i < out@.len() ==> (#[trigger] out@[i]).0@ == spec_positions(
                        self@,
                        k as int,
                    )[i].0 && *out@[i].1 == spec_positions(self@, k as int)[i].1,
            decreases self.slots@.len() - k,
        {
            let entries = &self.slots[k].1;
            let ghost base = spec_positions(self@, k as int);
            let ghost more = entries@.map_values(
                |entry: (String, Attachment)| (entry.0@, entry.1.positions),
            );
            assert(spec_positions(self@, k + 1) == base + more);
            let mut j: usize = 0;
            while j < entries.len()
                invariant
                    j <= entries@.len(),
                    k < self.slots@.len(),
                    entries == &self.slots@[k as int].1,
                    base == spec_positions(self@, k as int),
                    more == entries@.map_values(
                        |entry: (String, Attachment)| (entry.0@, entry.1.positions),
                    ),
                    out@.len() == base.len() + j,
                    forall|i: int|
                        0 <= i < out@.len() ==> (#[trigger] out@[i]).0@ == (base + more)[i].0
                            && *out@[i].1 == (base + more)[i].1,
                decreases entries@.len() - j,
            {
                out.push((entries[j].0.as_str(), &entries[j].1.positions));
                j += 1;
            }
            k += 1;
        }
        out
    }
}

} // verus!
