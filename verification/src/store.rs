//! The part store: every part by id, shared through counted handles, with
//! copy-on-write for parts that are shared.

use vstd::prelude::*;

use crate::ids::PartId;
use crate::part::{Part, PartNetworkRepr, PartView};

verus! {

#[verifier::external_type_specification]
#[verifier::external_body]
#[verifier::reject_recursive_types(T)]
pub struct ExSender<T>(crossbeam_channel::Sender<T>);

#[verifier::external_type_specification]
#[verifier::external_body]
#[verifier::reject_recursive_types(T)]
pub struct ExReceiver<T>(crossbeam_channel::Receiver<T>);

/// A new channel without a bound, from `crossbeam_channel::unbounded`. Nothing is
/// stated of the two ends: what they carry is not followed here.
#[verifier::external_body]
fn handle_channel() -> (ends: (crossbeam_channel::Sender<PartId>, crossbeam_channel::Receiver<PartId>))
{
    crossbeam_channel::unbounded()
}

/// Another sending end of the same channel, from `Sender::clone`.
#[verifier::external_body]
fn clone_sender(sender: &crossbeam_channel::Sender<PartId>) -> (copy: crossbeam_channel::Sender<PartId>)
{
    sender.clone()
}

/// Sends the id of a dropped handle with `Sender::send`. The send fails only when
/// the receiving end, and with it the store, is gone; the error is then dropped.
#[verifier::external_body]
fn send_dropped(sender: &crossbeam_channel::Sender<PartId>, id: PartId)
    opens_invariants none
    no_unwind
{
    let _ = sender.send(id);
}

/// The parts of a store by id, in bevy's hash map.
#[verifier::external_body]
pub struct PartMap {
    map: bevy::utils::HashMap<PartId, Part>,
}

/// What a part map holds: each id's part.
pub uninterp spec fn part_map_contents(map: PartMap) -> Map<u32, PartView>;

impl PartMap {
    /// An empty map, from `HashMap::default`.
    #[verifier::external_body]
    fn new() -> (empty: PartMap)
        ensures
            part_map_contents(empty).dom() == Set::<u32>::empty(),
    {
        PartMap { map: bevy::utils::HashMap::default() }
    }

    /// Puts `part` under `id` with `HashMap::insert`, in place of what was there.
    #[verifier::external_body]
    fn insert(&mut self, id: PartId, part: Part)
        ensures
            part_map_contents(*final(self)) == part_map_contents(*old(self)).insert(
                id.deep_view(),
                part.deep_view(),
            ),
    {
        self.map.insert(id, part);
    }

    /// The part under `id`, with `HashMap::get`.
    #[verifier::external_body]
    fn get(&self, id: PartId) -> (part: Option<&Part>)
        ensures
            part_map_contents(*self).contains_key(id.deep_view()) ==> part is Some
                && part.unwrap().deep_view() == part_map_contents(*self)[id.deep_view()],
            !part_map_contents(*self).contains_key(id.deep_view()) ==> part is None,
    {
        self.map.get(&id)
    }

    /// The part under `id` to change in place, with `HashMap::get_mut`.
    #[verifier::external_body]
    fn get_mut(&mut self, id: PartId) -> (part: Option<&mut Part>)
        ensures
            !part_map_contents(*old(self)).contains_key(id.deep_view()) ==> {
                &&& part is None
                &&& part_map_contents(*final(self)) == part_map_contents(*old(self))
            },
            part_map_contents(*old(self)).contains_key(id.deep_view()) ==> {
                &&& part is Some
                &&& (*part.unwrap()).deep_view() == part_map_contents(*old(self))[id.deep_view()]
                &&& part_map_contents(*final(self)) == part_map_contents(*old(self)).insert(
                    id.deep_view(),
                    (*final(part.unwrap())).deep_view(),
                )
            },
    {
        self.map.get_mut(&id)
    }

    /// Takes out the part under `id`, if any, with `HashMap::remove`.
    #[verifier::external_body]
    fn remove(&mut self, id: PartId)
        ensures
            part_map_contents(*final(self)) == part_map_contents(*old(self)).remove(id.deep_view()),
    {
        self.map.remove(&id);
    }
}

/// The number of live handles to each part, in bevy's hash map.
#[verifier::external_body]
pub struct CountMap {
    map: bevy::utils::HashMap<PartId, usize>,
}

/// What a count map holds: each id's count.
pub uninterp spec fn count_map_contents(map: CountMap) -> Map<u32, usize>;

impl CountMap {
    /// An empty map, from `HashMap::default`.
    #[verifier::external_body]
    fn new() -> (empty: CountMap)
        ensures
            count_map_contents(empty).dom() == Set::<u32>::empty(),
    {
        CountMap { map: bevy::utils::HashMap::default() }
    }

    /// Sets the count of `id` with `HashMap::insert`.
    #[verifier::external_body]
    fn insert(&mut self, id: PartId, count: usize)
        ensures
            count_map_contents(*final(self)) == count_map_contents(*old(self)).insert(
                id.deep_view(),
                count,
            ),
    {
        self.map.insert(id, count);
    }

    /// The count of `id`, if it has one, with `HashMap::get`.
    #[verifier::external_body]
    fn get(&self, id: PartId) -> (count: Option<usize>)
        ensures
            count_map_contents(*self).contains_key(id.deep_view()) ==> count == Some(
                count_map_contents(*self)[id.deep_view()],
            ),
            !count_map_contents(*self).contains_key(id.deep_view()) ==> count is None,
    {
        self.map.get(&id).copied()
    }

    /// Takes out the count of `id`, if any, with `HashMap::remove`.
    #[verifier::external_body]
    fn remove(&mut self, id: PartId)
        ensures
            count_map_contents(*final(self)) == count_map_contents(*old(self)).remove(id.deep_view()),
    {
        self.map.remove(&id);
    }
}

/// A shared use of a part in the store. Dropping it tells the store.
pub struct PartHandle {
    id: PartId,
    channel: crossbeam_channel::Sender<PartId>,
}

impl PartHandle {
    /// The part this handle refers to.
    pub closed spec fn spec_id(&self) -> u32 {
        self.id.deep_view()
    }

    pub fn id(&self) -> (id: PartId)
        ensures
            id.deep_view() == self.spec_id(),
    {
        self.id
    }
}

impl Drop for PartHandle {
    fn drop(&mut self)
        opens_invariants none
        no_unwind
    {
        send_dropped(&self.channel, self.id);
    }
}

/// The ids of the handles dropped since the last call, from `Receiver::try_iter`.
/// What comes back depends on which handles other code dropped: nothing is stated of it.
#[verifier::external_body]
fn take_dropped(receiver: &crossbeam_channel::Receiver<PartId>) -> (dropped: Vec<PartId>)
{
    receiver.try_iter().collect()
}

/// The ids of a list of part ids.
pub open spec fn ids(parts: Seq<PartId>) -> Seq<u32> {
    parts.map_values(|p: PartId| p.deep_view())
}

/// What a store is: its parts by id, the id the next part will get, and the number
/// of live handles to each id that has any.
pub struct PartsView {
    pub parts: Map<u32, PartView>,
    pub next_id: u32,
    pub ref_counts: Map<u32, usize>,
}

impl PartsView {
    /// Every part has an id below the next one, and every id that has a count
    /// has at least one handle.
    pub open spec fn well_formed(self) -> bool {
        &&& forall|id: u32| #[trigger] self.parts.contains_key(id) ==> id < self.next_id
        &&& forall|id: u32| #[trigger] self.ref_counts.contains_key(id) ==> self.ref_counts[id] >= 1
    }

    /// The number of live handles to `id`; none when it has no count.
    pub open spec fn ref_count(self, id: u32) -> nat {
        if self.ref_counts.contains_key(id) {
            self.ref_counts[id] as nat
        } else {
            0
        }
    }
}

/// One dropped handle to `id` counted: its count goes down by one, and when none
/// is left the count goes and `id` joins the unused ids.
pub open spec fn count_one_dropped(
    counts: Map<u32, usize>,
    unused: Seq<u32>,
    id: u32,
) -> (Map<u32, usize>, Seq<u32>) {
    if counts.contains_key(id) && counts[id] > 1 {
        (counts.insert(id, (counts[id] - 1) as usize), unused)
    } else {
        (counts.remove(id), unused.push(id))
    }
}

/// The counts after the dropped handles `dropped`, counted in order, and the ids
/// that were left unused, in the order they became so.
pub open spec fn count_dropped(counts: Map<u32, usize>, dropped: Seq<u32>) -> (Map<u32, usize>, Seq<u32>)
    decreases dropped.len(),
{
    if dropped.len() == 0 {
        (counts, Seq::empty())
    } else {
        let before = count_dropped(counts, dropped.drop_last());
        count_one_dropped(before.0, before.1, dropped.last())
    }
}

/// How many times `id` occurs in `s`.
pub open spec fn occurrences(s: Seq<u32>, id: u32) -> nat
    decreases s.len(),
{
    if s.len() == 0 {
        0
    } else {
        occurrences(s.drop_last(), id) + if s.last() == id { 1nat } else { 0nat }
    }
}

/// A part is freed once as many of its handles were dropped as it was counted to
/// have: until then its count is what it was, less the handles dropped; from then
/// on it has no count, and it is among the unused ids exactly when some handle to
/// it was dropped.
pub proof fn lemma_freed_when_all_dropped(counts: Map<u32, usize>, dropped: Seq<u32>, id: u32)
    requires
        forall|k: u32| #[trigger] counts.contains_key(k) ==> counts[k] >= 1,
    ensures
        ({
            let (after, unused) = count_dropped(counts, dropped);
            let before = if counts.contains_key(id) { counts[id] as nat } else { 0 };
            let n = occurrences(dropped, id);
            &&& n < before ==> after.contains_key(id) && after[id] == before - n
                && !unused.contains(id)
            &&& n >= before ==> !after.contains_key(id) && (unused.contains(id) <==> n > 0)
        }),
    decreases dropped.len(),
{
    if dropped.len() > 0 {
        lemma_freed_when_all_dropped(counts, dropped.drop_last(), id);
        let (c, u) = count_dropped(counts, dropped.drop_last());
        let last = dropped.last();
        let (c2, u2) = count_one_dropped(c, u, last);
        assert(count_dropped(counts, dropped) == (c2, u2));
        broadcast use vstd::seq_lib::group_seq_properties;
        if u2 != u {
            assert(u2 == u.push(last));
            assert(u2[u.len() as int] == last);
        }
    }
}

/// A part added with `add` is freed when its one handle is dropped; one added
/// with `add_static` is not, and keeps a count of one.
pub proof fn lemma_static_parts_stay(counts: Map<u32, usize>, id: u32)
    ensures
        count_dropped(counts.insert(id, 1), seq![id]).1 == seq![id],
        !count_dropped(counts.insert(id, 1), seq![id]).0.contains_key(id),
        count_dropped(counts.insert(id, 2), seq![id]).1 == Seq::<u32>::empty(),
        count_dropped(counts.insert(id, 2), seq![id]).0[id] == 1,
{
    reveal_with_fuel(count_dropped, 2);
    let one = seq![id];
    assert(one.drop_last() =~= Seq::<u32>::empty());
    assert(Seq::<u32>::empty().push(id) =~= one);
}

/// A part added with `add` and one added with `add_static`, the one handle to each
/// dropped, in either order and with no other handle dropped: counting the drops
/// frees the first, once, and leaves the static one with a count of one, so
/// freeing removes the first part and keeps the static one.
pub proof fn lemma_added_and_static_dropped(
    parts: Map<u32, PartView>,
    counts: Map<u32, usize>,
    h: u32,
    s: u32,
    dropped: Seq<u32>,
)
    requires
        h != s,
        dropped == seq![h, s] || dropped == seq![s, h],
    ensures
        ({
            let (after, unused) = count_dropped(counts.insert(h, 1).insert(s, 2), dropped);
            &&& unused == seq![h]
            &&& !after.contains_key(h)
            &&& after.contains_key(s) && after[s] == 1
            &&& parts.remove_keys(unused.to_set()) == parts.remove(h)
        }),
{
    reveal_with_fuel(count_dropped, 3);
    let c = counts.insert(h, 1).insert(s, 2);
    assert(dropped.drop_last().drop_last() =~= Seq::<u32>::empty());
    assert(Seq::<u32>::empty().push(h) =~= seq![h]);
    let unused = count_dropped(c, dropped).1;
    assert(unused =~= seq![h]);
    assert(unused.to_set() =~= set![h]) by {
        assert(unused[0] == h);
    }
    assert(parts.remove_keys(set![h]) =~= parts.remove(h));
}

/// Putting a second value under a key leaves the map as if only the second was put.
proof fn lemma_insert_again<V>(m: Map<u32, V>, k: u32, first: V)
    ensures
        forall|second: V| #[trigger] m.insert(k, first).insert(k, second) == m.insert(k, second),
{
    assert forall|second: V| #[trigger] m.insert(k, first).insert(k, second) == m.insert(k, second) by {
        assert(m.insert(k, first).insert(k, second) =~= m.insert(k, second));
    }
}

/// Every part, shared through counted handles. A part stays while handles to it
/// live; copying a shared part on the first change keeps other users unaffected.
pub struct Parts {
    parts: PartMap,
    current_part_id: u32,
    ref_counts: CountMap,
    sender: crossbeam_channel::Sender<PartId>,
    receiver: crossbeam_channel::Receiver<PartId>,
}

impl View for Parts {
    type V = PartsView;

    closed spec fn view(&self) -> PartsView {
        PartsView {
            parts: part_map_contents(self.parts),
            next_id: self.current_part_id,
            ref_counts: count_map_contents(self.ref_counts),
        }
    }
}

/// What the store gives out on each change: the ids of the parts that were freed.
pub struct FreedParts(pub Vec<PartId>);

impl Parts {
    /// An empty store.
    pub fn new() -> (parts: Parts)
        ensures
            parts@.parts.dom() == Set::<u32>::empty(),
            parts@.ref_counts.dom() == Set::<u32>::empty(),
            parts@.next_id == 0,
            parts@.well_formed(),
    {
        let (sender, receiver) = handle_channel();
        Parts {
            parts: PartMap::new(),
            current_part_id: 0,
            ref_counts: CountMap::new(),
            sender,
            receiver,
        }
    }

    /// The id the next part added will get.
    pub fn next_part_id(&self) -> (id: u32)
        ensures
            id == self@.next_id,
    {
        self.current_part_id
    }

    /// The number of live handles to `part_id`.
    pub fn ref_count(&self, part_id: PartId) -> (count: usize)
        ensures
            count == self@.ref_count(part_id.deep_view()),
    {
        match self.ref_counts.get(part_id) {
            Some(count) => count,
            None => 0,
        }
    }

    /// Stores `new_part` under the next id and returns that id.
    fn insert(&mut self, new_part: Part) -> (id: PartId)
        requires
            old(self)@.next_id < u32::MAX,
        ensures
            id.deep_view() == old(self)@.next_id,
            final(self)@ == (PartsView {
                parts: old(self)@.parts.insert(id.deep_view(), new_part.deep_view()),
                next_id: (old(self)@.next_id + 1) as u32,
                ..old(self)@
            }),
    {
        let id = PartId::from(self.current_part_id);
        self.parts.insert(id, new_part);
        self.current_part_id = self.current_part_id + 1;
        id
    }

    fn handle(&self, id: PartId) -> (handle: PartHandle)
        ensures
            handle.spec_id() == id.deep_view(),
    {
        PartHandle { id, channel: clone_sender(&self.sender) }
    }

    /// Adds a part with one handle, the one returned; it is freed once that
    /// handle is dropped.
    pub fn add(&mut self, part: Part) -> (handle: PartHandle)
        requires
            old(self)@.well_formed(),
            old(self)@.next_id < u32::MAX,
        ensures
            handle.spec_id() == old(self)@.next_id,
            !old(self)@.parts.contains_key(handle.spec_id()),
            final(self)@ == (PartsView {
                parts: old(self)@.parts.insert(handle.spec_id(), part.deep_view()),
                next_id: (old(self)@.next_id + 1) as u32,
                ref_counts: old(self)@.ref_counts.insert(handle.spec_id(), 1),
            }),
            final(self)@.well_formed(),
    {
        let id = self.insert(part);
        self.ref_counts.insert(id, 1);
        self.handle(id)
    }

    /// Adds a part that stays: it is counted as having one more handle than the
    /// one returned, so dropping every handle never frees it.
    pub fn add_static(&mut self, part: Part) -> (handle: PartHandle)
        requires
            old(self)@.well_formed(),
            old(self)@.next_id < u32::MAX,
        ensures
            handle.spec_id() == old(self)@.next_id,
            !old(self)@.parts.contains_key(handle.spec_id()),
            final(self)@ == (PartsView {
                parts: old(self)@.parts.insert(handle.spec_id(), part.deep_view()),
                next_id: (old(self)@.next_id + 1) as u32,
                ref_counts: old(self)@.ref_counts.insert(handle.spec_id(), 2),
            }),
            final(self)@.well_formed(),
    {
        let id = self.insert(part);
        self.ref_counts.insert(id, 2);
        self.handle(id)
    }

    /// One more handle to `part_id`.
    pub fn get_handle(&mut self, part_id: PartId) -> (handle: PartHandle)
        requires
            old(self)@.well_formed(),
            old(self)@.ref_count(part_id.deep_view()) < usize::MAX,
        ensures
            handle.spec_id() == part_id.deep_view(),
            final(self)@ == (PartsView {
                ref_counts: old(self)@.ref_counts.insert(
                    part_id.deep_view(),
                    (old(self)@.ref_count(part_id.deep_view()) + 1) as usize,
                ),
                ..old(self)@
            }),
            final(self)@.well_formed(),
    {
        let count = match self.ref_counts.get(part_id) {
            Some(count) => count,
            None => 0,
        };
        self.ref_counts.insert(part_id, count + 1);
        proof {
            let counts = self@.ref_counts;
            assert forall|id: u32| #[trigger] counts.contains_key(id) implies counts[id] >= 1 by {
                if id != part_id.deep_view() {
                    assert(old(self)@.ref_counts.contains_key(id));
                }
            }
            assert(self@.parts == old(self)@.parts);
            assert(self@.well_formed());
        }
        self.handle(part_id)
    }

    /// The part stored under `part_id`, if any.
    pub fn get_part_from_id(&self, part_id: PartId) -> (part: Option<&Part>)
        ensures
            self@.parts.contains_key(part_id.deep_view()) ==> part is Some
                && part.unwrap().deep_view() == self@.parts[part_id.deep_view()],
            !self@.parts.contains_key(part_id.deep_view()) ==> part is None,
    {
        self.parts.get(part_id)
    }

    /// The part a handle refers to, if it is stored.
    pub fn get(&self, part_handle: &PartHandle) -> (part: Option<&Part>)
        ensures
            self@.parts.contains_key(part_handle.spec_id()) ==> part is Some
                && part.unwrap().deep_view() == self@.parts[part_handle.spec_id()],
            !self@.parts.contains_key(part_handle.spec_id()) ==> part is None,
    {
        self.parts.get(part_handle.id)
    }

    /// A copy of the part under `parent_part_id` that records it as its parent.
    pub fn clone_part_from_part_id(&self, parent_part_id: PartId) -> (child: Part)
        requires
            self@.parts.contains_key(parent_part_id.deep_view()),
        ensures
            child.deep_view() == (PartView {
                parent_part_id: Some(parent_part_id.deep_view()),
                ..self@.parts[parent_part_id.deep_view()]
            }),
    {
        match self.parts.get(parent_part_id) {
            Some(parent_part) => parent_part.clone_as_child_of(parent_part_id),
            None => {
                proof {
                    assert(false);
                }
                Part::new(0, 0, 0, Vec::new(), None)
            },
        }
    }

    /// Whether the part a handle refers to is a copy of another; nothing when the
    /// part is not stored.
    fn is_child_part(&self, part_handle: &PartHandle) -> (is_child: Option<bool>)
        ensures
            self@.parts.contains_key(part_handle.spec_id()) ==> is_child == Some(
                self@.parts[part_handle.spec_id()].parent_part_id is Some,
            ),
            !self@.parts.contains_key(part_handle.spec_id()) ==> is_child is None,
    {
        match self.parts.get(part_handle.id) {
            Some(part) => Some(part.parent_part_id().is_some()),
            None => None,
        }
    }

    /// The part a handle refers to, to change. A part that is a copy already is
    /// changed in place. A part copied from no other may be shared, so it is left
    /// as it is: a copy of it is stored under the next id, with one handle, and
    /// the handle is moved over to the copy, which is returned.
    pub fn get_mut<'a>(&'a mut self, part_handle: &mut PartHandle) -> (part: Option<&'a mut Part>)
        requires
            old(self)@.well_formed(),
            old(self)@.parts.contains_key(old(part_handle).spec_id())
                && old(self)@.parts[old(part_handle).spec_id()].parent_part_id is None
                ==> old(self)@.next_id < u32::MAX,
        ensures
            !old(self)@.parts.contains_key(old(part_handle).spec_id()) ==> {
                &&& part is None
                &&& final(self)@ == old(self)@
                &&& final(part_handle).spec_id() == old(part_handle).spec_id()
            },
            old(self)@.parts.contains_key(old(part_handle).spec_id())
                && old(self)@.parts[old(part_handle).spec_id()].parent_part_id is Some ==> {
                &&& part is Some
                &&& final(part_handle).spec_id() == old(part_handle).spec_id()
                &&& (*part.unwrap()).deep_view() == old(self)@.parts[old(part_handle).spec_id()]
                &&& final(self)@ == (PartsView {
                    parts: old(self)@.parts.insert(
                        old(part_handle).spec_id(),
                        (*final(part.unwrap())).deep_view(),
                    ),
                    ..old(self)@
                })
            },
            old(self)@.parts.contains_key(old(part_handle).spec_id())
                && old(self)@.parts[old(part_handle).spec_id()].parent_part_id is None ==> {
                &&& part is Some
                &&& final(part_handle).spec_id() == old(self)@.next_id
                &&& (*part.unwrap()).deep_view() == (PartView {
                    parent_part_id: Some(old(part_handle).spec_id()),
                    ..old(self)@.parts[old(part_handle).spec_id()]
                })
                &&& final(self)@ == (PartsView {
                    parts: old(self)@.parts.insert(
                        old(self)@.next_id,
                        (*final(part.unwrap())).deep_view(),
                    ),
                    next_id: (old(self)@.next_id + 1) as u32,
                    ref_counts: old(self)@.ref_counts.insert(old(self)@.next_id, 1),
                })
                &&& final(self)@.parts[old(part_handle).spec_id()] == old(self)@.parts[old(
                    part_handle,
                ).spec_id()]
            },
            final(self)@.well_formed(),
    {
        match self.is_child_part(part_handle) {
            Some(is_child) => {
                if is_child {
                    return self.parts.get_mut(part_handle.id);
                }
            },
            None => {
                return None;
            },
        }
        let new_part = self.clone_part_from_part_id(part_handle.id);
        let ghost copy = new_part.deep_view();
        proof {
            assert(old(part_handle).spec_id() < old(self)@.next_id);
            lemma_insert_again(old(self)@.parts, old(self)@.next_id, copy);
        }
        let id = self.insert(new_part);
        part_handle.id = id;
        self.ref_counts.insert(id, 1);
        self.parts.get_mut(id)
    }

    /// Counts the dropped handles `dropped`, in order, and returns the ids that
    /// were left with no handle, in the order they became so; their counts go.
    pub fn count_dropped_handles(&mut self, dropped: &[PartId]) -> (unused: Vec<PartId>)
        requires
            old(self)@.well_formed(),
        ensures
            ids(unused@) == count_dropped(old(self)@.ref_counts, ids(dropped@)).1,
            final(self)@ == (PartsView {
                ref_counts: count_dropped(old(self)@.ref_counts, ids(dropped@)).0,
                ..old(self)@
            }),
            final(self)@.well_formed(),
    {
        let mut unused: Vec<PartId> = Vec::new();
        let mut i: usize = 0;
        while i < dropped.len()
            invariant
                i <= dropped.len(),
                self@.parts == old(self)@.parts,
                self@.next_id == old(self)@.next_id,
                self@.well_formed(),
                (self@.ref_counts, ids(unused@)) == count_dropped(
                    old(self)@.ref_counts,
                    ids(dropped@).take(i as int),
                ),
            decreases dropped.len() - i,
        {
            let id = dropped[i];
            proof {
                assert(ids(dropped@).take(i + 1).drop_last() =~= ids(dropped@).take(i as int));
                assert(ids(dropped@).take(i + 1).last() == id.deep_view());
            }
            let ghost before = unused@;
            let ghost before_counts = self.ref_counts;
            let left = match self.ref_counts.get(id) {
                Some(count) => count - 1,
                None => 0,
            };
            if left > 0 {
                self.ref_counts.insert(id, left);
            } else {
                unused.push(id);
                self.ref_counts.remove(id);
            }
            proof {
                if left == 0 {
                    assert(ids(unused@) =~= ids(before).push(id.deep_view()));
                } else {
                    assert(ids(unused@) =~= ids(before));
                }
                let counts = self@.ref_counts;
                assert forall|k: u32| #[trigger] counts.contains_key(k) implies counts[k] >= 1 by {
                    if k != id.deep_view() {
                        assert(count_map_contents(before_counts).contains_key(k));
                    }
                }
            }
            i = i + 1;
        }
        proof {
            assert(ids(dropped@).take(i as int) =~= ids(dropped@));
        }
        unused
    }

    /// Counts the dropped handles `dropped` and takes out of the store every
    /// part left with no handle; returns their ids.
    pub fn free_dropped(&mut self, dropped: &[PartId]) -> (freed: FreedParts)
        requires
            old(self)@.well_formed(),
        ensures
            ids(freed.0@) == count_dropped(old(self)@.ref_counts, ids(dropped@)).1,
            final(self)@ == (PartsView {
                parts: old(self)@.parts.remove_keys(
                    count_dropped(old(self)@.ref_counts, ids(dropped@)).1.to_set(),
                ),
                next_id: old(self)@.next_id,
                ref_counts: count_dropped(old(self)@.ref_counts, ids(dropped@)).0,
            }),
            final(self)@.well_formed(),
    {
        let unused = self.count_dropped_handles(dropped);
        let ghost counted = self@;
        proof {
            assert(counted.parts.remove_keys(ids(unused@).take(0).to_set()) =~= counted.parts);
        }
        let mut i: usize = 0;
        while i < unused.len()
            invariant
                i <= unused.len(),
                self@ == (PartsView {
                    parts: counted.parts.remove_keys(ids(unused@).take(i as int).to_set()),
                    ..counted
                }),
                counted.well_formed(),
            decreases unused.len() - i,
        {
            let id = unused[i];
            self.parts.remove(id);
            proof {
                assert(ids(unused@).take(i + 1).to_set() =~= ids(unused@).take(i as int).to_set().insert(
                    id.deep_view(),
                )) by {
                    assert(ids(unused@).take(i + 1) =~= ids(unused@).take(i as int).push(id.deep_view()));
                    ids(unused@).take(i as int).lemma_push_to_set_commute(id.deep_view());
                }
                assert(self@.parts =~= counted.parts.remove_keys(ids(unused@).take(i + 1).to_set()));
            }
            i = i + 1;
        }
        proof {
            assert(ids(unused@).take(i as int) =~= ids(unused@));
        }
        FreedParts(unused)
    }

    /// The ids of the parts left with no handle since the last call; their counts go.
    /// Which handles were dropped is up to the code that held them: the result and
    /// the new counts are what counting some sequence of dropped ids gives.
    fn get_unused_part_ids(&mut self) -> (unused: Vec<PartId>)
        requires
            old(self)@.well_formed(),
        ensures
            final(self)@.parts == old(self)@.parts,
            final(self)@.next_id == old(self)@.next_id,
            final(self)@.well_formed(),
            exists|dropped: Seq<u32>|
                {
                    &&& ids(unused@) == #[trigger] count_dropped(old(self)@.ref_counts, dropped).1
                    &&& final(self)@.ref_counts == count_dropped(old(self)@.ref_counts, dropped).0
                },
    {
        let dropped = take_dropped(&self.receiver);
        let unused = self.count_dropped_handles(dropped.as_slice());
        proof {
            let d = ids(dropped@);
            assert(ids(unused@) == count_dropped(old(self)@.ref_counts, d).1
                && self@.ref_counts == count_dropped(old(self)@.ref_counts, d).0);
        }
        unused
    }

    /// A handle to the part a network form names: the stored part for a predefined
    /// id, or a new part holding a copy of the one sent.
    pub fn handle_from_network_repr(&mut self, repr: &PartNetworkRepr) -> (handle: PartHandle)
        requires
            old(self)@.well_formed(),
            repr matches PartNetworkRepr::Predefined(id) ==> old(self)@.ref_count(id.deep_view())
                < usize::MAX,
            repr is Child ==> old(self)@.next_id < u32::MAX,
        ensures
            final(self)@.well_formed(),
            repr matches PartNetworkRepr::Predefined(id) ==> {
                &&& handle.spec_id() == id.deep_view()
                &&& final(self)@ == (PartsView {
                    ref_counts: old(self)@.ref_counts.insert(
                        id.deep_view(),
                        (old(self)@.ref_count(id.deep_view()) + 1) as usize,
                    ),
                    ..old(self)@
                })
            },
            repr matches PartNetworkRepr::Child(part) ==> {
                &&& handle.spec_id() == old(self)@.next_id
                &&& final(self)@ == (PartsView {
                    parts: old(self)@.parts.insert(handle.spec_id(), part.deep_view()),
                    next_id: (old(self)@.next_id + 1) as u32,
                    ref_counts: old(self)@.ref_counts.insert(handle.spec_id(), 1),
                })
            },
    {
        match repr {
            PartNetworkRepr::Predefined(part_id) => self.get_handle(*part_id),
            PartNetworkRepr::Child(part) => self.add(part.duplicate()),
        }
    }
}

/// Frees every part whose handles have all been dropped since the last call, and
/// returns their ids. Which handles were dropped is up to the code that held them:
/// the store and the result are what `free_dropped` gives for some sequence of
/// dropped ids; only freed parts leave the store, the others stay as they were,
/// and a freed id keeps no count.
pub fn free_parts(parts: &mut Parts) -> (freed: FreedParts)
    requires
        old(parts)@.well_formed(),
    ensures
        final(parts)@.well_formed(),
        final(parts)@.next_id == old(parts)@.next_id,
        forall|id: u32| #[trigger]
            final(parts)@.parts.contains_key(id) ==> old(parts)@.parts.contains_key(id)
                && final(parts)@.parts[id] == old(parts)@.parts[id],
        forall|id: u32|
            old(parts)@.parts.contains_key(id) ==> (#[trigger] final(parts)@.parts.contains_key(id)
                <==> !ids(freed.0@).contains(id)),
        forall|id: u32| #[trigger]
            ids(freed.0@).contains(id) ==> !final(parts)@.ref_counts.contains_key(id),
        exists|dropped: Seq<u32>|
            {
                &&& ids(freed.0@) == #[trigger] count_dropped(old(parts)@.ref_counts, dropped).1
                &&& final(parts)@ == (PartsView {
                    parts: old(parts)@.parts.remove_keys(
                        count_dropped(old(parts)@.ref_counts, dropped).1.to_set(),
                    ),
                    next_id: old(parts)@.next_id,
                    ref_counts: count_dropped(old(parts)@.ref_counts, dropped).0,
                })
            },
{
    let dropped = take_dropped(&parts.receiver);
    let freed = parts.free_dropped(dropped.as_slice());
    proof {
        let d = ids(dropped@);
        assert(ids(freed.0@) == count_dropped(old(parts)@.ref_counts, d).1);
        assert forall|id: u32| #[trigger]
            ids(freed.0@).contains(id) implies !parts@.ref_counts.contains_key(id) by {
            lemma_freed_when_all_dropped(old(parts)@.ref_counts, ids(dropped@), id);
        }
    }
    freed
}

} // verus!
