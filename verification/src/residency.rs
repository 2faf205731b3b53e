//! Which Face's portrait lives in which texture slot.
//!
//! The GPU holds a fixed set of slots, one per Cell, and Faces move through
//! them as the Window drifts. A Face that stays on the wall keeps its slot
//! and is never decoded or uploaded twice; only arrivals cost an upload.

use crate::grid::{placed_once, FaceId};
use std::collections::HashMap;
use vstd::prelude::*;

verus! {

broadcast use vstd::std_specs::hash::group_hash_axioms;

/// A portrait that needs decoding and uploading into a slot.
#[derive(Debug, Clone, Copy, PartialEq, Eq, Structural)]
pub struct Upload {
    /// The Face whose display crop is wanted.
    pub face: FaceId,
    /// The texture slot to put it in.
    pub slot: u32,
}

/// The slot each resident Face occupies.
#[derive(Debug)]
pub struct Residency {
    slots: Vec<Option<FaceId>>,
    by_face: HashMap<u64, u32>,
}

/// The identifier of the Face in an occupied slot.
pub open spec fn key_of(slot: Option<FaceId>) -> u64 {
    match slot {
        Some(f) => f.0,
        None => 0,
    }
}

/// Whether `face` sits in slot `s`.
pub open spec fn sits(slots: Seq<Option<FaceId>>, s: int, face: FaceId) -> bool {
    0 <= s < slots.len() && slots[s] == Some(face)
}

/// Whether `face` is resident at all.
pub open spec fn resident_in(slots: Seq<Option<FaceId>>, face: FaceId) -> bool {
    exists|s: int| sits(slots, s, face)
}

/// Whether some slot is free.
pub open spec fn has_free(slots: Seq<Option<FaceId>>) -> bool {
    exists|s: int| 0 <= s < slots.len() && slots[s] is None
}

/// Whether `s` is the lowest free slot.
pub open spec fn lowest_free(slots: Seq<Option<FaceId>>, s: int) -> bool {
    &&& 0 <= s < slots.len()
    &&& slots[s] is None
    &&& forall|t: int| 0 <= t < s ==> slots[t] is Some
}

/// The lowest free slot, where there is one.
pub open spec fn first_free(slots: Seq<Option<FaceId>>) -> int {
    choose|s: int| lowest_free(slots, s)
}

/// The slots with every Face that is not wanted evicted.
pub open spec fn evict_unwanted(slots: Seq<Option<FaceId>>, wanted: Seq<FaceId>) -> Seq<
    Option<FaceId>,
> {
    Seq::new(
        slots.len(),
        |s: int|
            match slots[s] {
                Some(f) => if wanted.contains(f) {
                    Some(f)
                } else {
                    None
                },
                None => None,
            },
    )
}

/// Makes `face` resident: a Face already resident stays where it is, a new
/// one takes the lowest free slot and costs an upload.
pub open spec fn arrive(state: (Seq<Option<FaceId>>, Seq<Upload>), face: FaceId) -> (
    Seq<Option<FaceId>>,
    Seq<Upload>,
) {
    let (slots, uploads) = state;
    if resident_in(slots, face) || !has_free(slots) {
        state
    } else {
        let s = first_free(slots);
        (slots.update(s, Some(face)), uploads.push(Upload { face, slot: s as u32 }))
    }
}

/// Admits every Face of `wanted`, in order.
pub open spec fn arrive_all(slots: Seq<Option<FaceId>>, wanted: Seq<FaceId>) -> (
    Seq<Option<FaceId>>,
    Seq<Upload>,
)
    decreases wanted.len(),
{
    if wanted.len() == 0 {
        (slots, Seq::empty())
    } else {
        arrive(arrive_all(slots, wanted.drop_last()), wanted.last())
    }
}

/// The Faces a sync considers: as many as there are slots, in order.
pub open spec fn considered(faces: Seq<FaceId>, capacity: nat) -> Seq<FaceId> {
    if faces.len() <= capacity {
        faces
    } else {
        faces.take(capacity as int)
    }
}

/// The slots and uploads a sync of `faces` produces from `slots`.
pub open spec fn synced(slots: Seq<Option<FaceId>>, faces: Seq<FaceId>) -> (
    Seq<Option<FaceId>>,
    Seq<Upload>,
) {
    let wanted = considered(faces, slots.len());
    arrive_all(evict_unwanted(slots, wanted), wanted)
}

/// Slot `s` holds `face` exactly when the index says so.
pub open spec fn indexed(slots: Seq<Option<FaceId>>, index: Map<u64, u32>) -> bool {
    &&& forall|k: u64|
        #[trigger] index.contains_key(k) ==> sits(slots, index[k] as int, FaceId(k))
    &&& forall|s: int|
        0 <= s < slots.len() && #[trigger] slots[s] is Some ==> index.contains_key(key_of(slots[s]))
            && index[key_of(slots[s])] == s
}

/// Slots that agree with an index never hold one Face twice.
proof fn lemma_indexed_slots_distinct(slots: Seq<Option<FaceId>>, index: Map<u64, u32>)
    requires
        indexed(slots, index),
    ensures
        placed_once(slots),
{
    assert forall|i: int, j: int|
        0 <= i < slots.len() && 0 <= j < slots.len() && #[trigger] slots[i] is Some && slots[i]
            == #[trigger] slots[j] implies i == j by {
        assert(index[key_of(slots[i])] == i);
        assert(index[key_of(slots[j])] == j);
    }
}

/// Where some slot is free, there is a lowest free one.
proof fn lemma_lowest_free_exists(slots: Seq<Option<FaceId>>, t: int)
    requires
        0 <= t < slots.len(),
        slots[t] is None,
    ensures
        lowest_free(slots, first_free(slots)),
    decreases t,
{
    if forall|u: int| 0 <= u < t ==> slots[u] is Some {
        assert(lowest_free(slots, t));
    } else {
        let u = choose|u: int| 0 <= u < t && !(slots[u] is Some);
        lemma_lowest_free_exists(slots, u);
    }
}

/// Making Faces resident only fills free slots: an occupied slot keeps its
/// Face, every Face that ends up resident was already there or was asked
/// for, and no Face ends up in two slots.
proof fn lemma_arrive_all_shape(slots: Seq<Option<FaceId>>, wanted: Seq<FaceId>)
    ensures
        arrive_all(slots, wanted).0.len() == slots.len(),
        forall|s: int|
            0 <= s < slots.len() && slots[s] is Some ==> #[trigger] arrive_all(slots, wanted).0[s]
                == slots[s],
        forall|s: int|
            0 <= s < slots.len() && #[trigger] arrive_all(slots, wanted).0[s] is Some ==> slots[s]
                is Some || wanted.contains(arrive_all(slots, wanted).0[s]->0),
        placed_once(slots) ==> placed_once(arrive_all(slots, wanted).0),
    decreases wanted.len(),
{
    if wanted.len() > 0 {
        let rest = wanted.drop_last();
        let face = wanted.last();
        lemma_arrive_all_shape(slots, rest);
        let mid = arrive_all(slots, rest).0;
        let next = arrive_all(slots, wanted).0;
        assert forall|g: FaceId| #[trigger] rest.contains(g) implies wanted.contains(g) by {
            let k = choose|k: int| 0 <= k < rest.len() && rest[k] == g;
            assert(wanted[k] == g);
        }
        assert(wanted.contains(face)) by {
            assert(wanted[wanted.len() - 1] == face);
        }
        if !(resident_in(mid, face) || !has_free(mid)) {
            let t = choose|t: int| 0 <= t < mid.len() && mid[t] is None;
            lemma_lowest_free_exists(mid, t);
            let f = first_free(mid);
            assert(next == mid.update(f, Some(face)));
            if placed_once(slots) {
                assert forall|i: int, j: int|
                    0 <= i < next.len() && 0 <= j < next.len() && #[trigger] next[i] is Some
                        && next[i] == #[trigger] next[j] implies i == j by {
                    if i == f && j != f {
                        assert(sits(mid, j, face));
                    } else if j == f && i != f {
                        assert(sits(mid, i, face));
                    } else if i != f && j != f {
                        assert(mid[i] == next[i] && mid[j] == next[j]);
                    }
                }
            }
        }
    }
}

/// There is room for one more Face: slots that hold distinct Faces, all of
/// them from `pool`, cannot all be taken when `pool` is no longer than the
/// slots and holds a Face that is not yet resident.
proof fn lemma_room_for(slots: Seq<Option<FaceId>>, pool: Seq<FaceId>, face: FaceId)
    requires
        placed_once(slots),
        forall|s: int| 0 <= s < slots.len() && #[trigger] slots[s] is Some ==> pool.contains(slots[s]->0),
        pool.contains(face),
        !resident_in(slots, face),
        pool.len() <= slots.len(),
    ensures
        has_free(slots),
{
    broadcast use vstd::seq_lib::seq_to_set_is_finite;
    broadcast use vstd::set::group_set_axioms;

    if !has_free(slots) {
        let held = Seq::new(slots.len(), |i: int| slots[i]->0);
        assert forall|i: int, j: int| 0 <= i < held.len() && 0 <= j < held.len() && i != j implies held[i] != held[j] by {
            assert(slots[i] is Some);
            assert(slots[j] is Some);
            if held[i] == held[j] {
                assert(slots[i] == slots[j]);
            }
        }
        assert(held.no_duplicates());
        held.unique_seq_to_set();
        pool.lemma_cardinality_of_set();
        let others = pool.to_set().remove(face);
        assert(pool.to_set().contains(face));
        assert forall|g: FaceId| held.to_set().contains(g) implies others.contains(g) by {
            let i = choose|i: int| 0 <= i < held.len() && held[i] == g;
            assert(slots[i] is Some);
            assert(pool.contains(g));
            if g == face {
                assert(sits(slots, i, face));
            }
        }
        assert(held.to_set().subset_of(others));
        vstd::set_lib::lemma_len_subset(held.to_set(), others);
        assert(false);
    }
}

/// Every Face asked for is resident once they have all arrived, provided the
/// slots hold distinct Faces from `pool` and `pool` fits in the slots.
proof fn lemma_arrive_all_covers(slots: Seq<Option<FaceId>>, wanted: Seq<FaceId>, pool: Seq<FaceId>)
    requires
        placed_once(slots),
        forall|s: int| 0 <= s < slots.len() && #[trigger] slots[s] is Some ==> pool.contains(slots[s]->0),
        forall|g: FaceId| #[trigger] wanted.contains(g) ==> pool.contains(g),
        pool.len() <= slots.len(),
    ensures
        forall|g: FaceId| #[trigger] wanted.contains(g) ==> resident_in(arrive_all(slots, wanted).0, g),
    decreases wanted.len(),
{
    if wanted.len() > 0 {
        let rest = wanted.drop_last();
        let face = wanted.last();
        assert forall|g: FaceId| #[trigger] rest.contains(g) implies wanted.contains(g) by {
            let k = choose|k: int| 0 <= k < rest.len() && rest[k] == g;
            assert(wanted[k] == g);
        }
        lemma_arrive_all_covers(slots, rest, pool);
        lemma_arrive_all_shape(slots, rest);
        let mid = arrive_all(slots, rest).0;
        let next = arrive_all(slots, wanted).0;
        assert forall|s: int| 0 <= s < mid.len() && #[trigger] mid[s] is Some implies pool.contains(mid[s]->0) by {
            if !(slots[s] is Some) {
                assert(rest.contains(mid[s]->0));
            }
        }
        assert(wanted.contains(face)) by {
            assert(wanted[wanted.len() - 1] == face);
        }
        if !resident_in(mid, face) {
            lemma_room_for(mid, pool, face);
            let t = choose|t: int| 0 <= t < mid.len() && mid[t] is None;
            lemma_lowest_free_exists(mid, t);
            let f = first_free(mid);
            assert(sits(next, f, face));
        }
        assert forall|g: FaceId| #[trigger] wanted.contains(g) implies resident_in(next, g) by {
            if g == face {
                if resident_in(mid, face) {
                    let s = choose|s: int| sits(mid, s, face);
                    assert(next == mid);
                    assert(sits(next, s, face));
                }
            } else {
                let k = choose|k: int| 0 <= k < wanted.len() && wanted[k] == g;
                assert(rest[k] == g);
                assert(rest.contains(g));
                let s = choose|s: int| sits(mid, s, g);
                if !resident_in(mid, face) {
                    let f = first_free(mid);
                    assert(mid[f] is None);
                    assert(sits(next, s, g));
                } else {
                    assert(sits(next, s, g));
                }
            }
        }
    }
}

/// Faces that are all resident already cost nothing to make resident.
proof fn lemma_arrive_all_resident(slots: Seq<Option<FaceId>>, wanted: Seq<FaceId>)
    requires
        forall|g: FaceId| #[trigger] wanted.contains(g) ==> resident_in(slots, g),
    ensures
        arrive_all(slots, wanted) == (slots, Seq::<Upload>::empty()),
    decreases wanted.len(),
{
    if wanted.len() > 0 {
        let rest = wanted.drop_last();
        assert forall|g: FaceId| #[trigger] rest.contains(g) implies resident_in(slots, g) by {
            let k = choose|k: int| 0 <= k < rest.len() && rest[k] == g;
            assert(wanted[k] == g);
            assert(wanted.contains(g));
        }
        lemma_arrive_all_resident(slots, rest);
        assert(wanted[wanted.len() - 1] == wanted.last());
        assert(wanted.contains(wanted.last()));
    }
}

/// Evicting keeps exactly the wanted Faces, in their slots.
proof fn lemma_evict_shape(slots: Seq<Option<FaceId>>, wanted: Seq<FaceId>)
    ensures
        evict_unwanted(slots, wanted).len() == slots.len(),
        forall|s: int|
            0 <= s < slots.len() && #[trigger] evict_unwanted(slots, wanted)[s] is Some
                ==> slots[s] == evict_unwanted(slots, wanted)[s] && wanted.contains(
                slots[s]->0,
            ),
        forall|s: int, g: FaceId|
            #[trigger] sits(slots, s, g) && wanted.contains(g) ==> sits(evict_unwanted(slots, wanted), s, g),
        placed_once(slots) ==> placed_once(evict_unwanted(slots, wanted)),
{
    let evicted = evict_unwanted(slots, wanted);
    if placed_once(slots) {
        assert forall|i: int, j: int|
            0 <= i < evicted.len() && 0 <= j < evicted.len() && #[trigger] evicted[i] is Some
                && evicted[i] == #[trigger] evicted[j] implies i == j by {
            assert(slots[i] == evicted[i] && slots[j] == evicted[j]);
        }
    }
}

/// A sync keeps every Face that stays on the wall in the slot it had: a
/// Face already resident and still wanted is never moved, so it is never
/// decoded or uploaded twice.
pub proof fn law_staying_faces_keep_their_slot(
    slots: Seq<Option<FaceId>>,
    faces: Seq<FaceId>,
    s: int,
    face: FaceId,
)
    requires
        sits(slots, s, face),
        considered(faces, slots.len()).contains(face),
    ensures
        sits(synced(slots, faces).0, s, face),
{
    let wanted = considered(faces, slots.len());
    lemma_evict_shape(slots, wanted);
    lemma_arrive_all_shape(evict_unwanted(slots, wanted), wanted);
    assert(sits(evict_unwanted(slots, wanted), s, face));
}

/// After a sync, only Faces that were asked for are resident: every Face
/// that has left the Window has been evicted.
pub proof fn law_departed_faces_are_evicted(slots: Seq<Option<FaceId>>, faces: Seq<FaceId>, face: FaceId)
    requires
        resident_in(synced(slots, faces).0, face),
    ensures
        considered(faces, slots.len()).contains(face),
{
    let wanted = considered(faces, slots.len());
    let evicted = evict_unwanted(slots, wanted);
    lemma_evict_shape(slots, wanted);
    lemma_arrive_all_shape(evicted, wanted);
    let s = choose|s: int| sits(synced(slots, faces).0, s, face);
    if evicted[s] is Some {
        assert(evicted[s] == arrive_all(evicted, wanted).0[s]);
    }
}

/// After a sync every Face asked for, up to the slot count, is resident, and
/// no Face sits in two slots.
pub proof fn law_sync_makes_every_wanted_face_resident(
    slots: Seq<Option<FaceId>>,
    faces: Seq<FaceId>,
    face: FaceId,
)
    requires
        placed_once(slots),
        considered(faces, slots.len()).contains(face),
    ensures
        resident_in(synced(slots, faces).0, face),
        placed_once(synced(slots, faces).0),
        synced(slots, faces).0.len() == slots.len(),
{
    let wanted = considered(faces, slots.len());
    let evicted = evict_unwanted(slots, wanted);
    lemma_evict_shape(slots, wanted);
    lemma_arrive_all_shape(evicted, wanted);
    assert forall|s: int| 0 <= s < evicted.len() && #[trigger] evicted[s] is Some implies wanted.contains(evicted[s]->0) by {}
    lemma_arrive_all_covers(evicted, wanted, wanted);
}

/// Showing again Faces that are all resident already costs no texture
/// traffic: a re-solve that reshuffles the same crowd uploads nothing.
pub proof fn law_resident_faces_upload_nothing(slots: Seq<Option<FaceId>>, faces: Seq<FaceId>)
    requires
        forall|g: FaceId| #[trigger] considered(faces, slots.len()).contains(g) ==> resident_in(slots, g),
    ensures
        synced(slots, faces).1.len() == 0,
        synced(slots, faces).0 == evict_unwanted(slots, considered(faces, slots.len())),
{
    let wanted = considered(faces, slots.len());
    let evicted = evict_unwanted(slots, wanted);
    lemma_evict_shape(slots, wanted);
    assert forall|g: FaceId| #[trigger] wanted.contains(g) implies resident_in(evicted, g) by {
        let s = choose|s: int| sits(slots, s, g);
        assert(sits(evicted, s, g));
    }
    lemma_arrive_all_resident(evicted, wanted);
}

/// Syncing the same crowd twice, in any order, uploads nothing the second
/// time: every Face the second sync asks for was made resident by the first.
pub proof fn law_second_sync_of_the_same_faces_uploads_nothing(
    slots: Seq<Option<FaceId>>,
    first: Seq<FaceId>,
    second: Seq<FaceId>,
)
    requires
        placed_once(slots),
        forall|g: FaceId| #[trigger] considered(second, slots.len()).contains(g) ==> considered(first, slots.len()).contains(g),
    ensures
        synced(synced(slots, first).0, second).1.len() == 0,
{
    let after = synced(slots, first).0;
    lemma_evict_shape(slots, considered(first, slots.len()));
    lemma_arrive_all_shape(
        evict_unwanted(slots, considered(first, slots.len())),
        considered(first, slots.len()),
    );
    assert(after.len() == slots.len());
    assert forall|g: FaceId| #[trigger] considered(second, after.len()).contains(g) implies resident_in(after, g) by {
        law_sync_makes_every_wanted_face_resident(slots, first, g);
    }
    law_resident_faces_upload_nothing(after, second);
}

impl View for Residency {
    type V = Seq<Option<FaceId>>;

    closed spec fn view(&self) -> Seq<Option<FaceId>> {
        self.slots@
    }
}

impl Residency {
    #[verifier::type_invariant]
    closed spec fn inv(self) -> bool {
        &&& self.slots@.len() <= u32::MAX
        &&& indexed(self.slots@, self.by_face@)
    }

    /// Creates a residency over `capacity` texture slots, all free.
    pub fn with_capacity(capacity: u32) -> (r: Self)
        ensures
            r@ == Seq::new(capacity as nat, |s: int| None::<FaceId>),
    {
        let mut slots: Vec<Option<FaceId>> = Vec::new();
        let mut i: u32 = 0;
        while i < capacity
            invariant
                i <= capacity,
                slots@ == Seq::new(i as nat, |s: int| None::<FaceId>),
            decreases capacity - i,
        {
            slots.push(None);
            i = i + 1;
        }
        let by_face: HashMap<u64, u32> = HashMap::new();
        Residency { slots, by_face }
    }

    /// Where `face`'s portrait sits, if it is resident.
    pub fn slot_of(&self, face: FaceId) -> (r: Option<u32>)
        ensures
            match r {
                Some(s) => sits(self@, s as int, face),
                None => !resident_in(self@, face),
            },
    {
        proof {
            use_type_invariant(self);
        }
        match self.by_face.get(&face.0) {
            Some(slot) => Some(*slot),
            None => {
                assert forall|s: int| !sits(self@, s, face) by {
                    if sits(self@, s, face) {
                        assert(self.slots@[s] is Some);
                    }
                }
                None
            },
        }
    }

    /// Makes exactly `faces` resident, and reports what must be uploaded.
    ///
    /// Faces already resident keep their slot and are absent from the result.
    /// Faces that have left are evicted, and their slots are reused lowest
    /// first. Faces beyond the slot count are dropped: the Window is never
    /// larger than the Grid, so this is a guard rather than a policy.
    pub fn sync(&mut self, faces: Vec<FaceId>) -> (r: Vec<Upload>)
        ensures
            (final(self)@, r@) == synced(old(self)@, faces@),
            placed_once(old(self)@),
    {
        proof {
            use_type_invariant(&*self);
            lemma_indexed_slots_distinct(old(self)@, self.by_face@);
        }
        let mut taken = Residency { slots: Vec::new(), by_face: HashMap::new() };
        std::mem::swap(&mut taken, self);
        let Residency { slots: mut slots, by_face: old_index } = taken;
        let ghost old_slots = slots@;
        assert(old_slots == old(self)@);

        let capacity = slots.len();
        let mut wanted: Vec<FaceId> = Vec::new();
        let mut i: usize = 0;
        while i < faces.len() && i < capacity
            invariant
                i <= faces@.len(),
                i <= capacity,
                wanted@ == faces@.take(i as int),
            decreases faces@.len() - i,
        {
            wanted.push(faces[i]);
            i = i + 1;
            assert(wanted@ =~= faces@.take(i as int));
        }
        assert(wanted@ =~= considered(faces@, old_slots.len()));

        // Which wanted Faces are already resident, and where.
        let mut keep: HashMap<u64, u32> = HashMap::new();
        let mut j: usize = 0;
        while j < wanted.len()
            invariant
                j <= wanted@.len(),
                old_slots == slots@,
                old_slots.len() <= u32::MAX,
                indexed(old_slots, old_index@),
                forall|k: u64|
                    #[trigger] keep@.contains_key(k) <==> (wanted@.take(j as int).contains(FaceId(k))
                        && resident_in(old_slots, FaceId(k))),
                forall|k: u64| #[trigger] keep@.contains_key(k) ==> sits(old_slots, keep@[k] as int, FaceId(k)),
            decreases wanted@.len() - j,
        {
            let face = wanted[j];
            match old_index.get(&face.0) {
                Some(slot) => {
                    keep.insert(face.0, *slot);
                },
                None => {},
            }
            proof {
                assert(wanted@.take(j + 1) =~= wanted@.take(j as int).push(face));
                assert forall|k: u64| #[trigger] keep@.contains_key(k) <==> (wanted@.take(
                    j + 1,
                ).contains(FaceId(k)) && resident_in(old_slots, FaceId(k))) by {
                    vstd::seq_lib::lemma_seq_contains_after_push(wanted@.take(j as int), face, FaceId(k));
                    if resident_in(old_slots, FaceId(k)) {
                        let t = choose|t: int| sits(old_slots, t, FaceId(k));
                        assert(old_slots[t] is Some);
                    }
                }
            }
            j = j + 1;
        }
        assert(wanted@.take(wanted@.len() as int) =~= wanted@);

        // Evict every Face that is no longer wanted.
        let ghost evicted = evict_unwanted(old_slots, wanted@);
        let mut s: usize = 0;
        while s < slots.len()
            invariant
                slots@.len() == old_slots.len(),
                s <= old_slots.len(),
                forall|t: int| 0 <= t < s ==> slots@[t] == evicted[t],
                forall|t: int| s <= t < old_slots.len() ==> slots@[t] == old_slots[t],
                evicted == evict_unwanted(old_slots, wanted@),
                forall|k: u64| #[trigger] keep@.contains_key(k) ==> sits(old_slots, keep@[k] as int, FaceId(k)),
                forall|k: u64|
                    #[trigger] keep@.contains_key(k) <==> (wanted@.contains(FaceId(k))
                        && resident_in(old_slots, FaceId(k))),
            decreases old_slots.len() - s,
        {
            match slots[s] {
                Some(face) => {
                    proof {
                        assert(sits(old_slots, s as int, face));
                    }
                    if !keep.contains_key(&face.0) {
                        slots.set(s, None);
                    }
                },
                None => {},
            }
            s = s + 1;
        }
        assert(slots@ =~= evicted);

        // The kept Faces index the evicted slots.
        proof {
            assert forall|k: u64| #[trigger] keep@.contains_key(k) implies sits(
                evicted,
                keep@[k] as int,
                FaceId(k),
            ) by {}
            assert forall|t: int|
                0 <= t < evicted.len() && #[trigger] evicted[t] is Some implies keep@.contains_key(
                key_of(evicted[t]),
            ) && keep@[key_of(evicted[t])] == t by {
                let f = evicted[t].unwrap();
                assert(old_slots[t] == Some(f));
                assert(sits(old_slots, t, f));
                assert(old_index@[f.0] == t);
                assert(wanted@.contains(f));
                assert(resident_in(old_slots, FaceId(f.0)));
                assert(keep@.contains_key(f.0));
                let u = keep@[f.0] as int;
                assert(sits(old_slots, u, f));
                assert(old_slots[u] is Some);
            }
        }

        // Admit every wanted Face that is not resident yet.
        let mut index = keep;
        let mut uploads: Vec<Upload> = Vec::new();
        let mut free: usize = 0;
        let mut w: usize = 0;
        assert(wanted@.take(0) =~= Seq::<FaceId>::empty());
        while w < wanted.len()
            invariant
                w <= wanted@.len(),
                wanted@.len() <= old_slots.len(),
                old_slots.len() <= u32::MAX,
                slots@.len() == old_slots.len(),
                (slots@, uploads@) == arrive_all(evicted, wanted@.take(w as int)),
                indexed(slots@, index@),
                free <= slots@.len(),
                forall|t: int| 0 <= t < free ==> slots@[t] is Some,
            decreases wanted@.len() - w,
        {
            let face = wanted[w];
            let ghost before = (slots@, uploads@);
            assert(wanted@.take(w + 1).drop_last() =~= wanted@.take(w as int));
            if index.contains_key(&face.0) {
                proof {
                    assert(sits(slots@, index@[face.0] as int, face));
                }
                w = w + 1;
                continue;
            }
            proof {
                assert forall|t: int| !sits(slots@, t, face) by {
                    if sits(slots@, t, face) {
                        assert(slots@[t] is Some);
                    }
                }
            }
            while free < slots.len() && slots[free].is_some()
                invariant
                    free <= slots@.len(),
                    forall|t: int| 0 <= t < free ==> slots@[t] is Some,
                decreases slots@.len() - free,
            {
                free = free + 1;
            }
            if free < slots.len() {
                proof {
                    assert(lowest_free(slots@, free as int));
                    let c = first_free(slots@);
                    assert(lowest_free(slots@, c));
                    if c < free {
                        assert(slots@[c] is Some);
                    }
                    if c > free {
                        assert(slots@[free as int] is Some);
                    }
                }
                let ghost prev = slots@;
                slots.set(free, Some(face));
                index.insert(face.0, free as u32);
                uploads.push(Upload { face, slot: free as u32 });
                proof {
                    assert forall|k: u64| #[trigger] index@.contains_key(k) implies sits(
                        slots@,
                        index@[k] as int,
                        FaceId(k),
                    ) by {
                        if k != face.0 {
                            assert(sits(prev, index@[k] as int, FaceId(k)));
                        }
                    }
                    assert forall|t: int|
                        0 <= t < slots@.len() && #[trigger] slots@[t] is Some implies index@.contains_key(
                            key_of(slots@[t]),
                        ) && index@[key_of(slots@[t])] == t by {
                        if t != free {
                            assert(prev[t] is Some);
                            assert(!sits(prev, t, face));
                        }
                    }
                }
            } else {
                proof {
                    assert forall|t: int| 0 <= t < slots@.len() implies slots@[t] is Some by {}
                }
            }
            w = w + 1;
        }
        assert(wanted@.take(wanted@.len() as int) =~= wanted@);
        *self = Residency { slots, by_face: index };
        uploads
    }
}

} // verus!
