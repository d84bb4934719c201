use bitvec::vec::BitVec;
use vstd::prelude::*;

verus! {

/// Which slots of a descriptor group hold a descriptor, one bit per slot,
/// kept in a `bitvec` bit-vector.
#[verifier::external_body]
pub struct Occupancy {
    bits: BitVec,
}

/// The bits of an occupancy, slot by slot.
pub uninterp spec fn occupancy_bits(o: Occupancy) -> Seq<bool>;

/// Number of set bits in `s`.
pub open spec fn count_set(s: Seq<bool>) -> nat
    decreases s.len(),
{
    if s.len() == 0 {
        0
    } else {
        count_set(s.drop_last()) + if s.last() {
            1nat
        } else {
            0nat
        }
    }
}

/// Whether slot `i` is the first free slot of `s`.
pub open spec fn is_first_free(s: Seq<bool>, i: int) -> bool {
    &&& 0 <= i < s.len()
    &&& !s[i]
    &&& forall|j: int| 0 <= j < i ==> #[trigger] s[j]
}

/// Whether `s` has a free slot.
pub open spec fn has_free(s: Seq<bool>) -> bool {
    exists|i: int| 0 <= i < s.len() && !#[trigger] s[i]
}

/// `BitVec::repeat`: `len` bits, each equal to `bit`. The source panics
/// when `len` exceeds the longest encodable bit-span, `usize::MAX >> 3`.
#[verifier::external_body]
pub(crate) fn occupancy_repeat(bit: bool, len: usize) -> (r: Occupancy)
    requires
        len <= usize::MAX / 8,
    ensures
        occupancy_bits(r) == Seq::new(len as nat, |i: int| bit),
{
    Occupancy { bits: BitVec::repeat(bit, len) }
}

/// `BitSlice::set`: writes bit `index`; the source panics out of bounds.
#[verifier::external_body]
pub(crate) fn occupancy_set(o: &mut Occupancy, index: usize, value: bool)
    requires
        index < occupancy_bits(*old(o)).len(),
    ensures
        occupancy_bits(*final(o)) == occupancy_bits(*old(o)).update(index as int, value),
{
    o.bits.set(index, value)
}

/// `BitSlice::count_ones`: the number of set bits.
#[verifier::external_body]
pub(crate) fn occupancy_count_ones(o: &Occupancy) -> (r: usize)
    ensures
        r == count_set(occupancy_bits(*o)),
{
    o.bits.count_ones()
}

/// `BitSlice::first_zero`: the index of the first cleared bit, if any.
#[verifier::external_body]
pub(crate) fn occupancy_first_zero(o: &Occupancy) -> (r: Option<usize>)
    ensures
        match r {
            Some(i) => is_first_free(occupancy_bits(*o), i as int),
            None => !has_free(occupancy_bits(*o)),
        },
{
    o.bits.first_zero()
}

/// Descriptor counts of the pool descriptor groups are allocated from.
pub const MAX_DESCRIPTOR_SETS: u32 = 16;

pub const MAX_DESCRIPTOR_IMAGE: u32 = 2048;

pub const MAX_DESCRIPTOR_IMAGE_SAMPLER: u32 = 64;

pub const MAX_DESCRIPTOR_SAMPLER: u32 = 32;

/// One binding of a descriptor set layout: `count` descriptors at `binding`.
#[derive(Copy, Clone, Debug, PartialEq, Eq, Structural)]
pub struct LayoutBinding {
    pub binding: u32,
    pub count: u32,
}

/// Where a descriptor written into slot `index` of a group goes: the set,
/// the binding and the element of that binding.
#[derive(Copy, Clone, Debug, PartialEq, Eq, Structural)]
pub struct DescriptorWrite {
    pub set: u64,
    pub descriptor_type: i32,
    pub binding: u32,
    pub array_element: u32,
    pub index: u32,
}

/// A descriptor set of `capacity` slots, either one array binding or one
/// binding per slot, and which slots hold a descriptor. `layout` and `set`
/// are raw handles and `descriptor_type` is the raw Vulkan type.
pub struct DescriptorGroup {
    pub name: String,
    pub layout: u64,
    pub set: u64,
    pub descriptor_type: i32,
    pub capacity: u32,
    pub is_array: bool,
    pub occupancy: Occupancy,
}

/// The bindings of the layout of a group: one array of `capacity`
/// descriptors, or `capacity` bindings of one descriptor each.
pub open spec fn bindings_spec(capacity: u32, is_array: bool) -> Seq<LayoutBinding> {
    if is_array {
        seq![LayoutBinding { binding: 0, count: capacity }]
    } else {
        Seq::new(capacity as nat, |i: int| LayoutBinding { binding: i as u32, count: 1 })
    }
}

/// Where the descriptor of slot `index` goes in a group.
pub open spec fn slot_of(g: DescriptorGroup, index: u32) -> DescriptorWrite {
    DescriptorWrite {
        set: g.set,
        descriptor_type: g.descriptor_type,
        binding: if g.is_array {
            0
        } else {
            index
        },
        array_element: if g.is_array {
            index
        } else {
            0
        },
        index,
    }
}

impl DescriptorGroup {
    /// The slots of the group, a bit per slot.
    pub closed spec fn slots(&self) -> Seq<bool> {
        occupancy_bits(self.occupancy)
    }

    /// A group has one bit per slot.
    pub open spec fn wf(&self) -> bool {
        self.slots().len() == self.capacity
    }

    /// A group of `capacity` slots, all free, over a layout and set made for
    /// it. A group cannot be empty, nor hold more slots than a bit-vector can
    /// encode.
    pub fn new(
        name: String,
        layout: u64,
        set: u64,
        descriptor_type: i32,
        capacity: u32,
        is_array: bool,
    ) -> (r: Self)
        requires
            capacity > 0,
            capacity <= usize::MAX / 8,
        ensures
            r.wf(),
            r.name == name,
            r.layout == layout,
            r.set == set,
            r.descriptor_type == descriptor_type,
            r.capacity == capacity,
            r.is_array == is_array,
            r.slots() == Seq::new(capacity as nat, |i: int| false),
    {
        // Every descriptor is initially unoccupied
        let occupancy = occupancy_repeat(false, capacity as usize);
        DescriptorGroup { name, layout, set, descriptor_type, capacity, is_array, occupancy }
    }

    /// The bindings of the layout of a group.
    pub fn layout_bindings(capacity: u32, is_array: bool) -> (r: Vec<LayoutBinding>)
        ensures
            r@ == bindings_spec(capacity, is_array),
    {
        if is_array {
            vec![LayoutBinding { binding: 0, count: capacity }]
        } else {
            let mut r: Vec<LayoutBinding> = Vec::new();
            let mut e: u32 = 0;
            while e < capacity
                invariant
                    e <= capacity,
                    r@ == Seq::new(e as nat, |i: int| LayoutBinding { binding: i as u32, count: 1 }),
                decreases capacity - e,
            {
                r.push(LayoutBinding { binding: e, count: 1 });
                proof {
                    assert(r@ =~= Seq::new(
                        (e + 1) as nat,
                        |i: int| LayoutBinding { binding: i as u32, count: 1 },
                    ));
                }
                e = e + 1;
            }
            r
        }
    }

    /// Number of binding flags the layout of a group takes: one per binding.
    pub fn binding_flags_count(capacity: u32, is_array: bool) -> (r: u32)
        ensures
            r == bindings_spec(capacity, is_array).len(),
    {
        if is_array {
            1
        } else {
            capacity
        }
    }

    /// Number of slots that hold a descriptor.
    pub fn count_active(&self) -> (r: usize)
        ensures
            r == count_set(self.slots()),
    {
        occupancy_count_ones(&self.occupancy)
    }

    /// Whether some slot is free.
    pub fn has_free_slot(&self) -> (r: bool)
        ensures
            r == has_free(self.slots()),
    {
        occupancy_first_zero(&self.occupancy).is_some()
    }

    /// The first free slot; the group must have one.
    pub fn next_free(&self) -> (r: usize)
        requires
            has_free(self.slots()),
        ensures
            is_first_free(self.slots(), r as int),
    {
        match occupancy_first_zero(&self.occupancy) {
            Some(i) => i,
            None => {
                proof {
                    assert(false);
                }
                0
            },
        }
    }

    /// Frees slot `index`.
    pub fn remove_at(&mut self, index: u32)
        requires
            old(self).wf(),
            index < old(self).capacity,
        ensures
            final(self).wf(),
            final(self).slots() == old(self).slots().update(index as int, false),
            count_set(final(self).slots()) == count_set(old(self).slots()) - (if old(self).slots()[index as int] {
                1int
            } else {
                0int
            }),
            final(self).name == old(self).name,
            final(self).layout == old(self).layout,
            final(self).set == old(self).set,
            final(self).descriptor_type == old(self).descriptor_type,
            final(self).capacity == old(self).capacity,
            final(self).is_array == old(self).is_array,
    {
        proof {
            lemma_count_set_update(self.slots(), index as int, false);
        }
        occupancy_set(&mut self.occupancy, index as usize, false);
    }

    /// Marks slot `index` as holding a descriptor and says where the
    /// descriptor is to be written.
    pub fn place_at(&mut self, index: u32) -> (r: DescriptorWrite)
        requires
            old(self).wf(),
            index < old(self).capacity,
        ensures
            final(self).wf(),
            r == slot_of(*old(self), index),
            final(self).slots() == old(self).slots().update(index as int, true),
            count_set(final(self).slots()) == count_set(old(self).slots()) + (if old(self).slots()[index as int] {
                0int
            } else {
                1int
            }),
            final(self).name == old(self).name,
            final(self).layout == old(self).layout,
            final(self).set == old(self).set,
            final(self).descriptor_type == old(self).descriptor_type,
            final(self).capacity == old(self).capacity,
            final(self).is_array == old(self).is_array,
    {
        let (dst_binding, dst_array_element) = if self.is_array {
            (0, index)
        } else {
            (index, 0)
        };
        proof {
            lemma_count_set_update(self.slots(), index as int, true);
        }
        // Mark index slot as occupied and return
        occupancy_set(&mut self.occupancy, index as usize, true);
        DescriptorWrite {
            set: self.set,
            descriptor_type: self.descriptor_type,
            binding: dst_binding,
            array_element: dst_array_element,
            index,
        }
    }

    /// Takes the first free slot, as `place_at` does.
    pub fn place(&mut self) -> (r: DescriptorWrite)
        requires
            old(self).wf(),
            has_free(old(self).slots()),
        ensures
            final(self).wf(),
            is_first_free(old(self).slots(), r.index as int),
            r == slot_of(*old(self), r.index),
            final(self).slots() == old(self).slots().update(r.index as int, true),
            count_set(final(self).slots()) == count_set(old(self).slots()) + 1,
            final(self).name == old(self).name,
            final(self).layout == old(self).layout,
            final(self).set == old(self).set,
            final(self).descriptor_type == old(self).descriptor_type,
            final(self).capacity == old(self).capacity,
            final(self).is_array == old(self).is_array,
    {
        let index = self.next_free() as u32;
        self.place_at(index)
    }
}

/// Writing slot `i` changes the count by the bits that changed.
proof fn lemma_count_set_update(s: Seq<bool>, i: int, v: bool)
    requires
        0 <= i < s.len(),
    ensures
        count_set(s.update(i, v)) + (if s[i] {
            1int
        } else {
            0int
        }) == count_set(s) + (if v {
            1int
        } else {
            0int
        }),
    decreases s.len(),
{
    let u = s.update(i, v);
    if i == s.len() - 1 {
        assert(u.drop_last() =~= s.drop_last());
    } else {
        lemma_count_set_update(s.drop_last(), i, v);
        assert(u.drop_last() =~= s.drop_last().update(i, v));
    }
}

/// Placing a descriptor into a free slot makes one more slot active, and
/// removing it again gives back the slots as they were.
pub proof fn lemma_place_then_remove(g: DescriptorGroup, index: u32)
    requires
        g.wf(),
        index < g.capacity,
        !g.slots()[index as int],
    ensures
        count_set(g.slots().update(index as int, true)) == count_set(g.slots()) + 1,
        g.slots().update(index as int, true).update(index as int, false) == g.slots(),
{
    lemma_count_set_update(g.slots(), index as int, true);
    assert(g.slots().update(index as int, true).update(index as int, false) =~= g.slots());
}

/// Removing the descriptor of an active slot makes one less slot active.
pub proof fn lemma_remove_active(g: DescriptorGroup, index: u32)
    requires
        g.wf(),
        index < g.capacity,
        g.slots()[index as int],
    ensures
        count_set(g.slots().update(index as int, false)) + 1 == count_set(g.slots()),
{
    lemma_count_set_update(g.slots(), index as int, false);
}

} // verus!
