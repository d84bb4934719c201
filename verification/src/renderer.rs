use vstd::prelude::*;

use crate::buffer::{
    allocator_alloc, allocator_free, chunks_available, first_size, owns, freeable, rounds_without_overflow,
    BufferKind, DeviceAllocator, DeviceSlice,
};
use crate::pipeline::descriptor::{
    has_free, is_first_free, occupancy_bits, occupancy_first_zero, occupancy_repeat, occupancy_set,
    Occupancy,
};
use crate::pipeline::sampler::{Sampler, SamplerKey};
use crate::render_task::{task_key, TaskKind};

verus! {

/// The device buffers of a mesh: one slice per vertex attribute and one for
/// the indices (empty where the mesh has none), and the number of vertices or
/// indices to draw.
#[derive(Copy, Clone, Debug)]
pub struct MeshBuffer {
    pub vertices: DeviceSlice,
    pub normals: DeviceSlice,
    pub tex_coords: DeviceSlice,
    pub indices: DeviceSlice,
    pub count: u32,
}

/// How much of the general purpose allocator is in use.
#[derive(Copy, Clone, Debug, PartialEq, Eq, Structural)]
pub struct AllocatorStats {
    pub size: u64,
    pub available: u64,
    pub used: u64,
    pub alignment: u64,
    pub chunks: u64,
}

/// The statistics of an allocator.
pub fn get_allocator_stats(allocator: &DeviceAllocator) -> (r: AllocatorStats)
    requires
        allocator.wf(),
        chunks_available(allocator@) <= first_size(allocator@),
        chunks_available(allocator@) <= u64::MAX,
    ensures
        r.size == first_size(allocator@),
        r.available == chunks_available(allocator@),
        r.used == first_size(allocator@) - chunks_available(allocator@),
        r.alignment == (if allocator@.len() > 0 {
            allocator@[0].buffer.alignment
        } else {
            0
        }),
        r.chunks == allocator@.len() as u64,
{
    AllocatorStats {
        size: allocator.size(),
        alignment: allocator.alignment(),
        available: allocator.available(),
        used: allocator.used(),
        chunks: allocator.chunks(),
    }
}

/// A slice of `size` bytes from the allocator, or an empty slice for a size
/// of zero. `None` when the allocator has no room.
pub fn alloc_or_empty(allocator: &mut DeviceAllocator, size: u32) -> (r: Option<DeviceSlice>)
    requires
        old(allocator).wf(),
        rounds_without_overflow(old(allocator)@, size as u64),
    ensures
        final(allocator).wf(),
        size > 0 ==> (r, final(allocator)@) == allocator_alloc(old(allocator)@, size as u64),
        size == 0 ==> r == Some(
            DeviceSlice {
                buffer: 0,
                size: 0,
                offset: 0,
                addr: 0,
                device_addr: 0,
                kind: BufferKind::Undefined,
            },
        ) && final(allocator)@ == old(allocator)@,
{
    if size > 0 {
        allocator.allocate(size as u64)
    } else {
        Some(DeviceSlice::empty())
    }
}

/// Gives a slice back to the allocator unless it is empty.
pub fn free_if_not_empty(allocator: &mut DeviceAllocator, slice: DeviceSlice)
    requires
        old(allocator).wf(),
        slice.size > 0 ==> freeable(old(allocator)@, slice),
    ensures
        (slice.size == 0 || owns(old(allocator)@, slice)) ==> final(allocator).wf(),
        final(allocator)@ == (if slice.size > 0 {
            allocator_free(old(allocator)@, slice)
        } else {
            old(allocator)@
        }),
{
    if slice.size > 0 {
        allocator.free(slice);
    }
}

/// Which mesh ids are in use, one bit per id.
pub struct MeshIds {
    occupancy: Occupancy,
}

impl MeshIds {
    /// Number of mesh ids.
    pub const CAPACITY: usize = 1024;

    /// The ids, a bit per id, set when in use.
    pub closed spec fn slots(&self) -> Seq<bool> {
        occupancy_bits(self.occupancy)
    }

    /// Every id free.
    pub fn new() -> (r: Self)
        ensures
            r.slots() == Seq::new(Self::CAPACITY as nat, |i: int| false),
    {
        MeshIds { occupancy: occupancy_repeat(false, Self::CAPACITY) }
    }

    /// Whether some id is free.
    pub fn has_free_id(&self) -> (r: bool)
        ensures
            r == has_free(self.slots()),
    {
        occupancy_first_zero(&self.occupancy).is_some()
    }

    /// Takes the lowest free id; some id must be free.
    pub fn reserve(&mut self) -> (r: u32)
        requires
            has_free(old(self).slots()),
            old(self).slots().len() == Self::CAPACITY,
        ensures
            is_first_free(old(self).slots(), r as int),
            final(self).slots() == old(self).slots().update(r as int, true),
    {
        match occupancy_first_zero(&self.occupancy) {
            Some(i) => {
                occupancy_set(&mut self.occupancy, i, true);
                i as u32
            },
            None => {
                proof {
                    assert(false);
                }
                0
            },
        }
    }

    /// Marks `id` as in use.
    pub fn mark(&mut self, id: u32)
        requires
            id < old(self).slots().len(),
        ensures
            final(self).slots() == old(self).slots().update(id as int, true),
    {
        occupancy_set(&mut self.occupancy, id as usize, true);
    }

    /// Gives `id` back.
    pub fn release(&mut self, id: u32)
        requires
            id < old(self).slots().len(),
        ensures
            final(self).slots() == old(self).slots().update(id as int, false),
    {
        occupancy_set(&mut self.occupancy, id as usize, false);
    }
}

/// Releasing an id while every lower id is in use makes it the lowest free
/// id again: the next reservation takes it back.
pub proof fn lemma_release_then_reserve_same(slots: Seq<bool>, id: u32)
    requires
        id < slots.len(),
        forall|j: int| 0 <= j < id ==> #[trigger] slots[j],
    ensures
        is_first_free(slots.update(id as int, false), id as int),
{
}

/// Releasing the id that a reservation took gives back the ids as they were
/// before it.
pub proof fn lemma_reserve_then_release_restores(slots: Seq<bool>, id: u32)
    requires
        is_first_free(slots, id as int),
    ensures
        slots.update(id as int, true).update(id as int, false) == slots,
{
    assert(slots.update(id as int, true).update(id as int, false) =~= slots);
}

/// The batch of the tasks under `key` in `batches`, empty when there is none.
pub open spec fn batch_of<T>(batches: Seq<(u64, Seq<T>)>, key: u64) -> Seq<T>
    decreases batches.len(),
{
    if batches.len() == 0 {
        Seq::empty()
    } else if batches.last().0 == key {
        batches.last().1
    } else {
        batch_of(batches.drop_last(), key)
    }
}

/// Tasks to draw this frame, in batches by kind and parent.
pub struct TaskBatches<T> {
    batches: Vec<(u64, Vec<T>)>,
}

impl<T> TaskBatches<T> {
    /// The batches, by key.
    pub closed spec fn batches(&self) -> Seq<(u64, Seq<T>)> {
        self.batches@.map_values(|b: (u64, Vec<T>)| (b.0, b.1@))
    }

    /// The tasks under `key`, in the order they were added.
    pub open spec fn batch(&self, key: u64) -> Seq<T> {
        batch_of(self.batches(), key)
    }

    /// Whether some task was ever added under `key`.
    pub open spec fn has_batch(&self, key: u64) -> bool {
        exists|i: int| 0 <= i < self.batches().len() && #[trigger] self.batches()[i].0 == key
    }

    /// The batch under `key`, if some task was ever added under it.
    pub fn get(&self, key: u64) -> (r: Option<&Vec<T>>)
        ensures
            r is Some <==> self.has_batch(key),
            r matches Some(v) ==> v@ == self.batch(key),
    {
        let ghost b = self.batches();
        let mut i = self.batches.len();
        proof {
            assert(b.take(i as int) == b);
        }
        while i > 0
            invariant
                i <= self.batches.len(),
                b == self.batches(),
                batch_of(b, key) == batch_of(b.take(i as int), key),
                forall|j: int| i <= j < b.len() ==> #[trigger] b[j].0 != key,
            decreases i,
        {
            proof {
                assert(b.take(i as int).drop_last() == b.take(i as int - 1));
                assert(b.take(i as int).last() == b[i as int - 1]);
                assert(b[i as int - 1] == (self.batches@[i as int - 1].0, self.batches@[i as int - 1].1@));
            }
            if self.batches[i - 1].0 == key {
                return Some(&self.batches[i - 1].1);
            }
            i = i - 1;
        }
        None
    }

    /// No batch at all.
    pub fn new() -> (r: Self)
        ensures
            forall|key: u64| #[trigger] r.batch(key) == Seq::<T>::empty(),
    {
        TaskBatches { batches: Vec::new() }
    }

    /// Adds `task` at the end of the batch of its kind and parent.
    pub fn add_task_to_queue(&mut self, task: T, kind: TaskKind, parent_id: u32)
        ensures
            final(self).batch(task_key(kind, parent_id) as u64) == old(self).batch(
                task_key(kind, parent_id) as u64,
            ).push(task),
            forall|key: u64|
                key != task_key(kind, parent_id) ==> #[trigger] final(self).batch(key) == old(
                    self,
                ).batch(key),
            forall|key: u64|
                #[trigger] final(self).has_batch(key) == (old(self).has_batch(key) || key
                    == task_key(kind, parent_id)),
    {
        let key = kind.to_key(parent_id);
        self.add_task(task, key);
    }

    fn add_task(&mut self, task: T, key: u64)
        ensures
            final(self).batch(key) == old(self).batch(key).push(task),
            forall|k: u64| k != key ==> #[trigger] final(self).batch(k) == old(self).batch(k),
            forall|k: u64| #[trigger] final(self).has_batch(k) == (old(self).has_batch(k) || k == key),
    {
        let mut i = self.batches.len();
        let ghost b = self.batches();
        let ghost v = self.batches@;
        proof {
            assert(b.take(i as int) == b);
        }
        while i > 0
            invariant
                i <= self.batches.len(),
                self.batches@ == v,
                b == v.map_values(|e: (u64, Vec<T>)| (e.0, e.1@)),
                b == old(self).batches(),
                batch_of(b, key) == batch_of(b.take(i as int), key),
                forall|j: int| i <= j < b.len() ==> #[trigger] b[j].0 != key,
            decreases i,
        {
            proof {
                assert(b.take(i as int).drop_last() == b.take(i as int - 1));
                assert(b.take(i as int).last() == b[i as int - 1]);
                assert(b[i as int - 1] == (v[i as int - 1].0, v[i as int - 1].1@));
            }
            if self.batches[i - 1].0 == key {
                let mut entry = self.batches.remove(i - 1);
                entry.1.push(task);
                let ghost e = entry;
                self.batches.insert(i - 1, entry);
                proof {
                    assert(self.batches@ =~= v.update(i as int - 1, e));
                    let nb = b.update(i as int - 1, (key, b[i as int - 1].1.push(task)));
                    assert(self.batches() =~= nb);
                    lemma_batch_of_update(b, i as int - 1, key, b[i as int - 1].1.push(task));
                    assert forall|k: u64| #[trigger] self.has_batch(k) == (old(self).has_batch(k)
                        || k == key) by {
                        if self.has_batch(k) {
                            let j = choose|j: int|
                                0 <= j < nb.len() && #[trigger] nb[j].0 == k;
                            assert(b[j].0 == k);
                        }
                        if old(self).has_batch(k) {
                            let j = choose|j: int| 0 <= j < b.len() && #[trigger] b[j].0 == k;
                            assert(nb[j].0 == k);
                        }
                        if k == key {
                            assert(nb[i as int - 1].0 == k);
                        }
                    }
                }
                return;
            }
            i = i - 1;
        }
        let mut fresh: Vec<T> = Vec::new();
        fresh.push(task);
        proof {
            assert(fresh@ =~= seq![task]);
        }
        self.batches.push((key, fresh));
        proof {
            assert(self.batches@ == v.push(self.batches@.last()));
            assert(self.batches@.last().1@ == seq![task]);
            assert(self.batches() =~= b.push((key, seq![task])));
            assert(batch_of(b.take(0), key) == Seq::<T>::empty());
            assert(b.push((key, seq![task])).drop_last() == b);
            let nb = b.push((key, seq![task]));
            assert forall|k: u64| #[trigger] self.has_batch(k) == (old(self).has_batch(k) || k == key) by {
                if self.has_batch(k) {
                    let j = choose|j: int| 0 <= j < nb.len() && #[trigger] nb[j].0 == k;
                    if j < b.len() {
                        assert(b[j].0 == k);
                    }
                }
                if old(self).has_batch(k) {
                    let j = choose|j: int| 0 <= j < b.len() && #[trigger] b[j].0 == k;
                    assert(nb[j].0 == k);
                }
                if k == key {
                    assert(nb[b.len() as int].0 == k);
                }
            }
        }
    }

    /// Empties every batch, keeping the batches themselves.
    pub fn clear_batches(&mut self)
        ensures
            forall|key: u64| #[trigger] final(self).batch(key) == Seq::<T>::empty(),
            forall|key: u64| #[trigger] final(self).has_batch(key) == old(self).has_batch(key),
    {
        let mut i: usize = 0;
        while i < self.batches.len()
            invariant
                i <= self.batches.len(),
                self.batches.len() == old(self).batches.len(),
                forall|j: int|
                    0 <= j < self.batches.len() ==> (#[trigger] self.batches@[j]).0
                        == old(self).batches@[j].0,
                forall|j: int| 0 <= j < i ==> (#[trigger] self.batches@[j]).1@ == Seq::<T>::empty(),
            decreases self.batches.len() - i,
        {
            let key = self.batches[i].0;
            self.batches.set(i, (key, Vec::new()));
            i = i + 1;
        }
        proof {
            let b = self.batches();
            assert forall|j: int| 0 <= j < b.len() implies (#[trigger] b[j]).1 == Seq::<T>::empty() by {
                assert(b[j] == (self.batches@[j].0, self.batches@[j].1@));
            }
            assert forall|key: u64| #[trigger] self.batch(key) == Seq::<T>::empty() by {
                lemma_batch_of_empties(b, key);
            }
            let ob = old(self).batches();
            assert forall|key: u64| #[trigger] self.has_batch(key) == old(self).has_batch(key) by {
                if self.has_batch(key) {
                    let j = choose|j: int| 0 <= j < b.len() && #[trigger] b[j].0 == key;
                    assert(b[j].0 == self.batches@[j].0);
                    assert(ob[j].0 == old(self).batches@[j].0);
                }
                if old(self).has_batch(key) {
                    let j = choose|j: int| 0 <= j < ob.len() && #[trigger] ob[j].0 == key;
                    assert(b[j].0 == self.batches@[j].0);
                    assert(ob[j].0 == old(self).batches@[j].0);
                }
            }
        }
    }
}

/// Replacing the batch of one key changes what that key finds and no other.
proof fn lemma_batch_of_update<T>(b: Seq<(u64, Seq<T>)>, i: int, key: u64, s: Seq<T>)
    requires
        0 <= i < b.len(),
        b[i].0 == key,
        forall|j: int| i < j < b.len() ==> #[trigger] b[j].0 != key,
    ensures
        batch_of(b.update(i, (key, s)), key) == s,
        forall|k: u64| k != key ==> #[trigger] batch_of(b.update(i, (key, s)), k) == batch_of(b, k),
    decreases b.len(),
{
    let u = b.update(i, (key, s));
    if i == b.len() - 1 {
        assert(u.drop_last() =~= b.drop_last());
        assert forall|k: u64| k != key implies #[trigger] batch_of(u, k) == batch_of(b, k) by {}
    } else {
        lemma_batch_of_update(b.drop_last(), i, key, s);
        assert(u.drop_last() =~= b.drop_last().update(i, (key, s)));
        assert(u.last() == b.last());
        assert forall|k: u64| k != key implies #[trigger] batch_of(u, k) == batch_of(b, k) by {
            assert(batch_of(u.drop_last(), k) == batch_of(b.drop_last(), k));
        }
    }
}

/// When every batch is empty, every key finds an empty batch.
proof fn lemma_batch_of_empties<T>(b: Seq<(u64, Seq<T>)>, key: u64)
    requires
        forall|j: int| 0 <= j < b.len() ==> (#[trigger] b[j]).1 == Seq::<T>::empty(),
    ensures
        batch_of(b, key) == Seq::<T>::empty(),
    decreases b.len(),
{
    if b.len() > 0 {
        lemma_batch_of_empties(b.drop_last(), key);
    }
}

/// The id of the mesh of the test triangle, made with the renderer.
pub const ID_TEST_TRIANGLE: u32 = 0;

/// Number of samplers the sampler descriptors hold.
pub const MAX_SAMPLERS: u32 = 32;

/// The ids of `s` whose frame is before `counter`, in order.
pub open spec fn finished_ids(s: Seq<(u32, u64)>, counter: u64) -> Seq<u32>
    decreases s.len(),
{
    if s.len() == 0 {
        Seq::empty()
    } else if s.last().1 < counter {
        finished_ids(s.drop_last(), counter).push(s.last().0)
    } else {
        finished_ids(s.drop_last(), counter)
    }
}

/// The entries of `s` whose frame is at or after `counter`, in order.
pub open spec fn pending(s: Seq<(u32, u64)>, counter: u64) -> Seq<(u32, u64)>
    decreases s.len(),
{
    if s.len() == 0 {
        Seq::empty()
    } else if s.last().1 < counter {
        pending(s.drop_last(), counter)
    } else {
        pending(s.drop_last(), counter).push(s.last())
    }
}

/// Once the device has reached past every frame an upload was recorded in,
/// every upload is finished, in the order they were recorded, and none is
/// left pending.
pub proof fn lemma_uploads_finish_when_reached(s: Seq<(u32, u64)>, counter: u64)
    requires
        forall|i: int| 0 <= i < s.len() ==> (#[trigger] s[i]).1 < counter,
    ensures
        finished_ids(s, counter) == s.map_values(|e: (u32, u64)| e.0),
        pending(s, counter) == Seq::<(u32, u64)>::empty(),
    decreases s.len(),
{
    if s.len() > 0 {
        lemma_uploads_finish_when_reached(s.drop_last(), counter);
        assert(s.drop_last().map_values(|e: (u32, u64)| e.0).push(s.last().0) =~= s.map_values(
            |e: (u32, u64)| e.0,
        ));
    }
}

/// Every upload ends up either finished or pending, never both or neither.
pub proof fn lemma_uploads_partition(s: Seq<(u32, u64)>, counter: u64)
    ensures
        finished_ids(s, counter).len() + pending(s, counter).len() == s.len(),
    decreases s.len(),
{
    if s.len() > 0 {
        lemma_uploads_partition(s.drop_last(), counter);
    }
}

/// Textures waiting for their upload to be recorded, and textures whose
/// upload was recorded in a frame, by id.
pub struct UploadTracker {
    pub queue: Vec<u32>,
    pub ongoing: Vec<(u32, u64)>,
}

impl UploadTracker {
    pub fn new() -> (r: Self)
        ensures
            r.queue@ == Seq::<u32>::empty(),
            r.ongoing@ == Seq::<(u32, u64)>::empty(),
    {
        UploadTracker { queue: Vec::new(), ongoing: Vec::new() }
    }

    /// Queues texture `id` for uploading.
    pub fn queue_texture_for_uploading(&mut self, id: u32)
        ensures
            final(self).queue@ == old(self).queue@.push(id),
            final(self).ongoing@ == old(self).ongoing@,
    {
        self.queue.push(id);
    }

    /// Takes the queued textures, in order, for their uploads to be recorded
    /// in frame `current_frame`, and tracks them as ongoing.
    pub fn start_queued(&mut self, current_frame: u64) -> (r: Vec<u32>)
        ensures
            r@ == old(self).queue@,
            final(self).queue@ == Seq::<u32>::empty(),
            final(self).ongoing@ == old(self).ongoing@ + old(self).queue@.map_values(
                |id: u32| (id, current_frame),
            ),
    {
        let mut started: Vec<u32> = Vec::new();
        let mut i: usize = 0;
        let ghost ongoing0 = self.ongoing@;
        while i < self.queue.len()
            invariant
                i <= self.queue.len(),
                self.queue@ == old(self).queue@,
                ongoing0 == old(self).ongoing@,
                started@ == self.queue@.take(i as int),
                self.ongoing@ == ongoing0 + self.queue@.take(i as int).map_values(
                    |id: u32| (id, current_frame),
                ),
            decreases self.queue.len() - i,
        {
            let id = self.queue[i];
            started.push(id);
            self.ongoing.push((id, current_frame));
            proof {
                assert(self.queue@.take(i as int + 1) == self.queue@.take(i as int).push(id));
                assert(self.ongoing@ =~= ongoing0 + self.queue@.take(i as int + 1).map_values(
                    |id: u32| (id, current_frame),
                ));
            }
            i = i + 1;
        }
        proof {
            assert(self.queue@.take(i as int) == self.queue@);
        }
        self.queue.clear();
        started
    }

    /// Stops tracking the uploads recorded before the frame the device has
    /// reached, `counter`, and returns their texture ids, in order.
    pub fn finish_done(&mut self, counter: u64) -> (r: Vec<u32>)
        ensures
            r@ == finished_ids(old(self).ongoing@, counter),
            final(self).ongoing@ == pending(old(self).ongoing@, counter),
            final(self).queue@ == old(self).queue@,
    {
        let mut done: Vec<u32> = Vec::new();
        let mut kept: Vec<(u32, u64)> = Vec::new();
        let mut i: usize = 0;
        while i < self.ongoing.len()
            invariant
                i <= self.ongoing.len(),
                self.ongoing@ == old(self).ongoing@,
                self.queue@ == old(self).queue@,
                done@ == finished_ids(self.ongoing@.take(i as int), counter),
                kept@ == pending(self.ongoing@.take(i as int), counter),
            decreases self.ongoing.len() - i,
        {
            let e = self.ongoing[i];
            proof {
                assert(self.ongoing@.take(i as int + 1).drop_last() == self.ongoing@.take(i as int));
                assert(self.ongoing@.take(i as int + 1).last() == e);
            }
            if e.1 >= counter {
                kept.push(e);
            } else {
                done.push(e.0);
            }
            i = i + 1;
        }
        proof {
            assert(self.ongoing@.take(i as int) == self.ongoing@);
        }
        self.ongoing = kept;
        done
    }
}

/// The position of the sampler of `key` among `entries`, if one was made.
pub open spec fn sampler_position(entries: Seq<(SamplerKey, Sampler)>, key: SamplerKey) -> Option<u8>
    decreases entries.len(),
{
    if entries.len() == 0 {
        None
    } else if entries.last().0 == key {
        Some(entries.last().1.position)
    } else {
        sampler_position(entries.drop_last(), key)
    }
}

/// Once the sampler of a key is recorded, looking the key up finds it, and
/// every other key finds what it found before: asking again for a sampler
/// gives the one made first.
pub proof fn lemma_sampler_found_after_insert(
    entries: Seq<(SamplerKey, Sampler)>,
    key: SamplerKey,
    sampler: Sampler,
    other: SamplerKey,
)
    ensures
        sampler_position(entries.push((key, sampler)), key) == Some(sampler.position),
        other != key ==> sampler_position(entries.push((key, sampler)), other) == sampler_position(
            entries,
            other,
        ),
{
    assert(entries.push((key, sampler)).drop_last() == entries);
}

/// The samplers made so far, by key, in the order they were made.
pub struct SamplerRegistry {
    pub entries: Vec<(SamplerKey, Sampler)>,
}

impl SamplerRegistry {
    pub fn new() -> (r: Self)
        ensures
            r.entries@ == Seq::<(SamplerKey, Sampler)>::empty(),
    {
        SamplerRegistry { entries: Vec::new() }
    }

    /// The position of the sampler of `key`, if one was made.
    pub fn try_get_sampler(&self, key: SamplerKey) -> (r: Option<u8>)
        ensures
            r == sampler_position(self.entries@, key),
    {
        let mut i = self.entries.len();
        proof {
            assert(self.entries@.take(i as int) == self.entries@);
        }
        while i > 0
            invariant
                i <= self.entries.len(),
                sampler_position(self.entries@, key) == sampler_position(
                    self.entries@.take(i as int),
                    key,
                ),
            decreases i,
        {
            proof {
                assert(self.entries@.take(i as int).drop_last() == self.entries@.take(i as int - 1));
                assert(self.entries@.take(i as int).last() == self.entries@[i as int - 1]);
            }
            if self.entries[i - 1].0 == key {
                return Some(self.entries[i - 1].1.position);
            }
            i = i - 1;
        }
        None
    }

    /// The position the next sampler made takes: the number made so far.
    pub fn next_position(&self) -> (r: u32)
        ensures
            r == self.entries@.len() as u32,
    {
        self.entries.len() as u32
    }

    /// Records the sampler made for `key`.
    pub fn insert(&mut self, key: SamplerKey, sampler: Sampler)
        ensures
            final(self).entries@ == old(self).entries@.push((key, sampler)),
    {
        self.entries.push((key, sampler));
    }
}

/// What selection needs to know of a physical device: whether it is a
/// discrete GPU, and the first queue family that supports both graphics and
/// the window's surface, if any.
#[derive(Copy, Clone, Debug, PartialEq, Eq, Structural)]
pub struct DeviceCandidate {
    pub is_discrete: bool,
    pub queue_family: Option<u32>,
}

/// Whether candidate `i` can render to the window and is preferred over
/// every candidate before it: discrete GPUs first, then the others, each in
/// the order the devices were listed.
pub open spec fn is_chosen_device(c: Seq<DeviceCandidate>, i: int) -> bool {
    &&& 0 <= i < c.len()
    &&& c[i].queue_family is Some
    &&& forall|j: int|
        0 <= j < c.len() && #[trigger] c[j].queue_family is Some ==> {
            ||| (c[i].is_discrete && !c[j].is_discrete)
            ||| (c[i].is_discrete == c[j].is_discrete && i <= j)
        }
}

/// The device to use, by position in `candidates`: the first discrete GPU
/// that can render to the window, else the first device that can. `None`
/// when no device can.
pub fn select_physical_device(candidates: &Vec<DeviceCandidate>) -> (r: Option<usize>)
    ensures
        r matches Some(i) ==> is_chosen_device(candidates@, i as int),
        r is None ==> forall|j: int|
            0 <= j < candidates.len() ==> (#[trigger] candidates@[j]).queue_family is None,
{
    let mut first_discrete: Option<usize> = None;
    let mut first_any: Option<usize> = None;
    let mut i: usize = 0;
    while i < candidates.len()
        invariant
            i <= candidates.len(),
            first_discrete matches Some(d) ==> d < i && candidates@[d as int].is_discrete
                && candidates@[d as int].queue_family is Some,
            first_discrete is None ==> forall|j: int|
                0 <= j < i && (#[trigger] candidates@[j]).queue_family is Some
                    ==> !candidates@[j].is_discrete,
            first_discrete matches Some(d) ==> forall|j: int|
                0 <= j < d && (#[trigger] candidates@[j]).queue_family is Some
                    ==> !candidates@[j].is_discrete,
            first_any matches Some(a) ==> a < i && candidates@[a as int].queue_family is Some
                && forall|j: int| 0 <= j < a ==> (#[trigger] candidates@[j]).queue_family is None,
            first_any is None ==> forall|j: int|
                0 <= j < i ==> (#[trigger] candidates@[j]).queue_family is None,
        decreases candidates.len() - i,
    {
        let c = candidates[i];
        if c.queue_family.is_some() {
            if first_any.is_none() {
                first_any = Some(i);
            }
            if c.is_discrete && first_discrete.is_none() {
                first_discrete = Some(i);
            }
        }
        i = i + 1;
    }
    match first_discrete {
        Some(d) => Some(d),
        None => first_any,
    }
}

} // verus!
