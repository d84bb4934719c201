use vstd::prelude::*;

use crate::span::{
    addresses, count, covers, lemma_count_at_least, lemma_count_at_least_two, lemma_count_nonneg, lemma_sum_concat,
    lemma_sum_insert, lemma_sum_push, lemma_sum_remove, lemma_sum_update, lemma_total_nonneg,
    span_addresses, span_len, sum_of, total, Span,
};

verus! {

/// What a device buffer is used for.
#[derive(Copy, Clone, PartialEq, Eq, Debug, Structural)]
pub enum BufferKind {
    Undefined,
    General,
    Descriptor,
}

/// A piece of a device buffer handed out by a [`DeviceAllocator`].
///
/// `buffer` is the raw handle of the Vulkan buffer, `addr` the host address the
/// slice is mapped at and `device_addr` the address the device sees.
#[derive(Copy, Clone, Debug)]
pub struct DeviceSlice {
    pub buffer: u64,
    pub size: u64,
    pub offset: u64,
    pub addr: u64,
    pub device_addr: u64,
    pub kind: BufferKind,
}

impl DeviceSlice {
    /// A slice that refers to no memory at all.
    pub fn empty() -> (r: Self)
        ensures
            r.buffer == 0,
            r.size == 0,
            r.offset == 0,
            r.addr == 0,
            r.device_addr == 0,
            r.kind == BufferKind::Undefined,
    {
        DeviceSlice { buffer: 0, size: 0, offset: 0, addr: 0, device_addr: 0, kind: BufferKind::Undefined }
    }

    pub fn is_empty(&self) -> (r: bool)
        ensures
            r == (self.size == 0),
    {
        self.size == 0
    }
}

/// A device buffer with host visible memory, as the device created it.
#[derive(Copy, Clone, Debug)]
pub struct DeviceBuffer {
    pub size: u64,
    pub alignment: u64,
    pub device_addr: u64,
    pub buffer: u64,
    pub memory: u64,
    pub addr: u64,
    pub type_index: u32,
    pub kind: BufferKind,
}

/// `base` rounded with the mask that `mul` yields: `(base + mul - 1) & -mul`.
pub open spec fn next_size_spec(base: u64, mul: u64) -> u64 {
    ((base + mul - 1) as u64) & ((!mul) + 1) as u64
}

impl DeviceBuffer {
    /// Max alignment a buffer of any type can have.
    pub const MAX_ALIGNMENT: u64 = 256;

    /// Rounds `base` up with the two's complement mask of `mul`; for a power of
    /// two `mul` this is the next multiple of `mul` (see [`lemma_next_size_rounds_up`]).
    pub fn next_size(base: u64, mul: u64) -> (r: u64)
        requires
            mul > 0,
            base + mul - 1 <= u64::MAX,
        ensures
            r == next_size_spec(base, mul),
    {
        assert(!mul == u64::MAX - mul) by (bit_vector);
        let mask = !mul + 1;
        (base + (mul - 1)) & mask
    }

    /// Whether the buffer's addresses fit the machine and it has an
    /// alignment to round to, as a chunk over it needs.
    pub fn fits(&self) -> (r: bool)
        ensures
            r == buffer_fits(*self),
    {
        self.alignment > 0 && self.addr <= u64::MAX - self.size && self.device_addr <= u64::MAX
            - self.size
    }

    /// The alignment a new buffer gets: descriptor buffers take the wider of the
    /// memory alignment and the descriptor offset alignment.
    pub fn alignment_for(kind: BufferKind, memory_alignment: u64, descriptor_offset_alignment: u64) -> (r: u64)
        ensures
            r == (if kind == BufferKind::Descriptor {
                if memory_alignment >= descriptor_offset_alignment {
                    memory_alignment
                } else {
                    descriptor_offset_alignment
                }
            } else {
                memory_alignment
            }),
    {
        if kind == BufferKind::Descriptor {
            if memory_alignment >= descriptor_offset_alignment {
                memory_alignment
            } else {
                descriptor_offset_alignment
            }
        } else {
            memory_alignment
        }
    }
}

/// A power of two, said with bits.
pub open spec fn is_power_of_two(x: u64) -> bool {
    x > 0 && x & ((x - 1) as u64) == 0
}

/// For a power of two `mul`, `next_size` rounds `base` up to the next multiple
/// of `mul`: the result has no bits below `mul` and lies in `[base, base + mul)`.
pub proof fn lemma_next_size_rounds_up(base: u64, mul: u64)
    requires
        is_power_of_two(mul),
        base + mul - 1 <= u64::MAX,
    ensures
        next_size_spec(base, mul) & ((mul - 1) as u64) == 0,
        base <= next_size_spec(base, mul),
        next_size_spec(base, mul) < base + mul,
{
    let b = (base + mul - 1) as u64;
    let m = (mul - 1) as u64;
    assert(((!mul) + 1) as u64 == !m) by (bit_vector)
        requires
            mul > 0,
            m == mul - 1,
    ;
    let r = b & !m;
    assert(r == next_size_spec(base, mul));
    assert(r & m == 0 && r <= b && b - r == b & m && b & m <= m) by (bit_vector)
        requires
            r == b & !m,
    ;
}

/// A free range `[start, end)` of offsets inside a chunk's buffer.
#[derive(Copy, Clone, Debug)]
struct Range {
    start: u64,
    end: u64,
}

impl Range {
    fn size(&self) -> (r: u64)
        requires
            self.start <= self.end,
        ensures
            r == self.end - self.start,
    {
        self.end - self.start
    }
}

/// The offsets a slice occupies in its buffer.
pub open spec fn slice_span(s: DeviceSlice) -> Span {
    (s.offset as int, s.offset + s.size)
}

/// The spans of a sequence of slices.
pub open spec fn lent_spans(l: Seq<DeviceSlice>) -> Seq<Span> {
    l.map_values(|s: DeviceSlice| slice_span(s))
}

spec fn spans(r: Seq<Range>) -> Seq<Span> {
    r.map_values(|x: Range| (x.start as int, x.end as int))
}

/// What a chunk holds: its buffer, its free spans in order, and the slices it
/// has handed out and not yet taken back.
#[verifier::ext_equal]
pub struct ChunkView {
    pub buffer: DeviceBuffer,
    pub free: Seq<Span>,
    pub lent: Seq<DeviceSlice>,
}

/// The buffer's addresses fit the machine and it has an alignment to round to.
pub open spec fn buffer_fits(b: DeviceBuffer) -> bool {
    &&& b.alignment > 0
    &&& b.addr + b.size <= u64::MAX
    &&& b.device_addr + b.size <= u64::MAX
}

/// The slice lies inside `b` and its addresses agree with its offset.
pub open spec fn placed_in(s: DeviceSlice, b: DeviceBuffer) -> bool {
    &&& s.offset + s.size <= b.size
    &&& s.addr == b.addr + s.offset
    &&& s.device_addr == b.device_addr + s.offset
    &&& s.buffer == b.buffer
    &&& s.kind == b.kind
}

/// A chunk is well formed when its free spans and lent slices together cover
/// every offset of the buffer exactly once.
pub open spec fn chunk_wf(c: ChunkView) -> bool {
    &&& buffer_fits(c.buffer)
    &&& forall|i: int|
        0 <= i < c.free.len() ==> 0 <= #[trigger] c.free[i].0 <= c.free[i].1 <= c.buffer.size
    &&& forall|i: int| 0 <= i < c.lent.len() ==> placed_in(#[trigger] c.lent[i], c.buffer)
    &&& forall|x: int|
        #[trigger] count(c.free + lent_spans(c.lent), x) == (if 0 <= x < c.buffer.size {
            1int
        } else {
            0int
        })
    &&& total(c.free) + total(lent_spans(c.lent)) == c.buffer.size
}

/// A fresh chunk over `b`: everything is free.
pub open spec fn fresh_chunk(b: DeviceBuffer) -> ChunkView {
    ChunkView { buffer: b, free: seq![(0int, b.size as int)], lent: Seq::empty() }
}

/// Index of the first free span, from `i` on, that holds at least `a` bytes.
pub open spec fn first_fit(free: Seq<Span>, a: int, i: int) -> int
    decreases free.len() - i,
{
    if i < 0 || i >= free.len() {
        free.len() as int
    } else if free[i].1 - free[i].0 >= a {
        i
    } else {
        first_fit(free, a, i + 1)
    }
}

/// The slice of `a` bytes at offset `st` of `b`.
pub open spec fn slice_at(b: DeviceBuffer, st: int, a: u64) -> DeviceSlice {
    DeviceSlice {
        buffer: b.buffer,
        size: a,
        offset: st as u64,
        addr: (b.addr + st) as u64,
        device_addr: (b.device_addr + st) as u64,
        kind: b.kind,
    }
}

/// Allocating `size` bytes from a chunk: the size is rounded with the buffer's
/// alignment and carved from the front of the first free span that holds it.
pub open spec fn chunk_alloc(c: ChunkView, size: u64) -> (Option<DeviceSlice>, ChunkView) {
    let a = next_size_spec(size, c.buffer.alignment);
    let k = first_fit(c.free, a as int, 0);
    if k >= c.free.len() {
        (None, c)
    } else {
        let st = c.free[k].0;
        let end = c.free[k].1;
        let s = slice_at(c.buffer, st, a);
        let free = if st + a == end {
            c.free.remove(k)
        } else {
            c.free.update(k, (st + a, end))
        };
        (Some(s), ChunkView { buffer: c.buffer, free, lent: c.lent.push(s) })
    }
}

/// Index of the first free span, from `i` on, that starts after offset `s`.
pub open spec fn first_after(free: Seq<Span>, s: int, i: int) -> int
    decreases free.len() - i,
{
    if i < 0 || i >= free.len() {
        free.len() as int
    } else if free[i].0 > s {
        i
    } else {
        first_after(free, s, i + 1)
    }
}

/// The free spans after giving back `[s, e)`: it is merged into the free span
/// that starts at `e` (and the one before it when that one ends at `s`), or
/// into the span before when that one ends at `s`, or inserted as a span of its
/// own before the first span that starts after `s`. When no span starts after
/// `s`, it is inserted before the last span.
pub open spec fn free_spans_after(free: Seq<Span>, s: int, e: int) -> Seq<Span> {
    let k = first_after(free, s, 0);
    if k < free.len() && free[k].0 == e {
        if k > 0 && free[k - 1].1 == s {
            free.remove(k - 1).update(k - 1, (free[k - 1].0, free[k].1))
        } else {
            free.update(k, (s, free[k].1))
        }
    } else if k < free.len() && k > 0 && free[k - 1].1 == s {
        free.update(k - 1, (free[k - 1].0, e))
    } else if k < free.len() {
        free.insert(k, (s, e))
    } else if free.len() == 0 {
        free.insert(0, (s, e))
    } else {
        free.insert(free.len() - 1, (s, e))
    }
}

/// Where a slice starts in buffer `b`, counted from the host addresses and
/// wrapping around as the machine's pointer arithmetic does.
pub open spec fn start_in(b: DeviceBuffer, s: DeviceSlice) -> int {
    if s.addr >= b.addr {
        s.addr - b.addr
    } else {
        s.addr - b.addr + 0x1_0000_0000_0000_0000
    }
}

/// The offsets computed for giving `s` back to `b` fit the machine.
pub open spec fn frees_without_overflow(b: DeviceBuffer, s: DeviceSlice) -> bool {
    start_in(b, s) + s.size <= u64::MAX
}

/// Giving a slice back to a chunk: its offsets, taken from its host address,
/// go back to the free spans, and the chunk no longer counts it as lent.
pub open spec fn chunk_free(c: ChunkView, s: DeviceSlice) -> ChunkView {
    let st = start_in(c.buffer, s);
    ChunkView {
        buffer: c.buffer,
        free: free_spans_after(c.free, st, st + s.size),
        lent: c.lent.remove_value(s),
    }
}

proof fn lemma_lent_spans_push(l: Seq<DeviceSlice>, s: DeviceSlice)
    ensures
        lent_spans(l.push(s)) == lent_spans(l).push(slice_span(s)),
{
    assert(lent_spans(l.push(s)) =~= lent_spans(l).push(slice_span(s)));
}

proof fn lemma_lent_spans_remove(l: Seq<DeviceSlice>, j: int)
    requires
        0 <= j < l.len(),
    ensures
        lent_spans(l.remove(j)) == lent_spans(l).remove(j),
{
    assert(lent_spans(l.remove(j)) =~= lent_spans(l).remove(j));
}

/// In a well formed chunk no free offset is covered twice.
proof fn lemma_free_count_at_most_one(c: ChunkView, x: int)
    requires
        chunk_wf(c),
    ensures
        count(c.free, x) <= 1,
        count(lent_spans(c.lent), x) <= 1,
{
    lemma_sum_concat(c.free, lent_spans(c.lent), covers(x));
    assert(count(c.free + lent_spans(c.lent), x) == (if 0 <= x < c.buffer.size {
        1int
    } else {
        0int
    }));
    lemma_count_nonneg(c.free, x);
    lemma_count_nonneg(lent_spans(c.lent), x);
}

/// Allocation keeps a chunk well formed, takes the slice's bytes out of the
/// free space and adds them to what is lent.
proof fn lemma_chunk_alloc(c: ChunkView, size: u64)
    requires
        chunk_wf(c),
        size + c.buffer.alignment - 1 <= u64::MAX,
    ensures
        chunk_wf(chunk_alloc(c, size).1),
        chunk_alloc(c, size).0 matches Some(s) ==> {
            &&& total(chunk_alloc(c, size).1.free) == total(c.free) - s.size
            &&& addresses(chunk_alloc(c, size).1.free) == addresses(c.free).difference(
                span_addresses(slice_span(s)),
            )
        },
{
    let a = next_size_spec(size, c.buffer.alignment);
    let k = first_fit(c.free, a as int, 0);
    if k < c.free.len() {
        lemma_first_fit_fits(c.free, a as int, 0);
        let (r, c2) = chunk_alloc(c, size);
        let s = r->0;
        let st = c.free[k].0;
        let end = c.free[k].1;
        assert(end - st >= a) by {
            lemma_first_fit_fits(c.free, a as int, 0);
        }
        assert(slice_span(s) == (st, st + a));
        lemma_lent_spans_push(c.lent, s);
        let old_all = c.free + lent_spans(c.lent);
        let new_all = c2.free + lent_spans(c2.lent);
        assert forall|x: int| #[trigger] count(new_all, x) == count(old_all, x) by {
            lemma_sum_concat(c.free, lent_spans(c.lent), covers(x));
            lemma_sum_concat(c2.free, lent_spans(c2.lent), covers(x));
            lemma_sum_push(lent_spans(c.lent), (st, st + a), covers(x));
            if st + a == end {
                lemma_sum_remove(c.free, k, covers(x));
            } else {
                lemma_sum_update(c.free, k, (st + a, end), covers(x));
            }
        }
        lemma_sum_push(lent_spans(c.lent), (st, st + a), span_len());
        if st + a == end {
            lemma_sum_remove(c.free, k, span_len());
        } else {
            lemma_sum_update(c.free, k, (st + a, end), span_len());
        }
        assert forall|i: int| 0 <= i < c2.lent.len() implies placed_in(#[trigger] c2.lent[i], c2.buffer) by {
            if i < c.lent.len() {
                assert(c2.lent[i] == c.lent[i]);
            }
        }
        assert forall|i: int| 0 <= i < c2.free.len() implies 0 <= #[trigger] c2.free[i].0 <= c2.free[i].1
            <= c2.buffer.size by {
            if st + a == end {
                if i >= k {
                    assert(c2.free[i] == c.free[i + 1]);
                }
            }
        }
        assert forall|x: int| #[trigger] addresses(c2.free).contains(x) == addresses(c.free).difference(
            span_addresses(slice_span(s)),
        ).contains(x) by {
            lemma_free_count_at_most_one(c, x);
            lemma_count_nonneg(c.free, x);
            if st + a == end {
                lemma_sum_remove(c.free, k, covers(x));
            } else {
                lemma_sum_update(c.free, k, (st + a, end), covers(x));
            }
            if st <= x < st + a {
                lemma_count_at_least(c.free, k, x);
            }
        }
        assert(addresses(c2.free) =~= addresses(c.free).difference(span_addresses(slice_span(s))));
    }
}

proof fn lemma_first_fit_fits(free: Seq<Span>, a: int, i: int)
    requires
        0 <= i,
        first_fit(free, a, i) < free.len(),
    ensures
        free[first_fit(free, a, i)].1 - free[first_fit(free, a, i)].0 >= a,
        i <= first_fit(free, a, i),
    decreases free.len() - i,
{
    if i < free.len() && free[i].1 - free[i].0 < a {
        lemma_first_fit_fits(free, a, i + 1);
    }
}

proof fn lemma_first_after_bound(free: Seq<Span>, s: int, i: int)
    requires
        0 <= i,
    ensures
        i <= first_after(free, s, i) <= free.len() || (i > free.len() && first_after(free, s, i)
            == free.len()),
        first_after(free, s, i) < free.len() ==> free[first_after(free, s, i)].0 > s,
    decreases free.len() - i,
{
    if i < free.len() && free[i].0 <= s {
        lemma_first_after_bound(free, s, i + 1);
    }
}

/// Giving a lent slice back keeps a chunk well formed and returns the slice's
/// bytes to the free space.
#[verifier::spinoff_prover]
proof fn lemma_chunk_free(c: ChunkView, s: DeviceSlice)
    requires
        chunk_wf(c),
        c.lent.contains(s),
    ensures
        chunk_wf(chunk_free(c, s)),
        total(chunk_free(c, s).free) == total(c.free) + s.size,
        addresses(chunk_free(c, s).free) == addresses(c.free).union(span_addresses(slice_span(s))),
{
    let c2 = chunk_free(c, s);
    let free = c.free;
    let st = s.offset as int;
    let e = s.offset + s.size;
    let j = c.lent.index_of_first(s)->0;
    c.lent.index_of_first_ensures(s);
    assert(c.lent.remove_value(s) == c.lent.remove(j));
    lemma_lent_spans_remove(c.lent, j);
    assert(lent_spans(c.lent)[j] == (st, e));
    assert(placed_in(c.lent[j], c.buffer));
    assert(start_in(c.buffer, s) == st);
    let k = first_after(free, st, 0);
    lemma_first_after_bound(free, st, 0);
    // How the free spans change, for any sum.
    assert forall|f: spec_fn(Span) -> int| #[trigger] sum_of(c2.free, f) == sum_of(free, f) + (if k < free.len() && free[k].0 == e && k > 0 && free[k - 1].1 == st {
        f((free[k - 1].0, free[k].1)) - f(free[k - 1]) - f(free[k])
    } else if k < free.len() && free[k].0 == e {
        f((st, free[k].1)) - f(free[k])
    } else if k < free.len() && k > 0 && free[k - 1].1 == st {
        f((free[k - 1].0, e)) - f(free[k - 1])
    } else {
        f((st, e))
    }) by {
        if k < free.len() && free[k].0 == e {
            if k > 0 && free[k - 1].1 == st {
                lemma_sum_remove(free, k - 1, f);
                let r = free.remove(k - 1);
                assert(r[k - 1] == free[k]);
                lemma_sum_update(r, k - 1, (free[k - 1].0, free[k].1), f);
            } else {
                lemma_sum_update(free, k, (st, free[k].1), f);
            }
        } else if k < free.len() && k > 0 && free[k - 1].1 == st {
            lemma_sum_update(free, k - 1, (free[k - 1].0, e), f);
        } else if k < free.len() {
            lemma_sum_insert(free, k, (st, e), f);
        } else if free.len() == 0 {
            lemma_sum_insert(free, 0, (st, e), f);
        } else {
            lemma_sum_insert(free, free.len() - 1, (st, e), f);
        }
    }
    assert forall|x: int| #[trigger] count(c2.free, x) == count(free, x) + covers(x)((st, e)) by {
        assert(sum_of(c2.free, covers(x)) == sum_of(free, covers(x)) + (if k < free.len() && free[k].0 == e && k > 0 && free[k - 1].1 == st {
            covers(x)((free[k - 1].0, free[k].1)) - covers(x)(free[k - 1]) - covers(x)(free[k])
        } else if k < free.len() && free[k].0 == e {
            covers(x)((st, free[k].1)) - covers(x)(free[k])
        } else if k < free.len() && k > 0 && free[k - 1].1 == st {
            covers(x)((free[k - 1].0, e)) - covers(x)(free[k - 1])
        } else {
            covers(x)((st, e))
        }));
    }
    assert(sum_of(c2.free, span_len()) == sum_of(free, span_len()) + (if k < free.len() && free[k].0 == e && k > 0 && free[k - 1].1 == st {
        span_len()((free[k - 1].0, free[k].1)) - span_len()(free[k - 1]) - span_len()(free[k])
    } else if k < free.len() && free[k].0 == e {
        span_len()((st, free[k].1)) - span_len()(free[k])
    } else if k < free.len() && k > 0 && free[k - 1].1 == st {
        span_len()((free[k - 1].0, e)) - span_len()(free[k - 1])
    } else {
        span_len()((st, e))
    }));
    lemma_sum_remove(lent_spans(c.lent), j, span_len());
    assert forall|x: int| #[trigger] count(c2.free + lent_spans(c2.lent), x) == count(
        free + lent_spans(c.lent),
        x,
    ) by {
        lemma_sum_concat(c2.free, lent_spans(c2.lent), covers(x));
        lemma_sum_concat(free, lent_spans(c.lent), covers(x));
        lemma_sum_remove(lent_spans(c.lent), j, covers(x));
    }
    assert forall|i: int| 0 <= i < c2.lent.len() implies placed_in(#[trigger] c2.lent[i], c2.buffer) by {
        if i < j {
            assert(c2.lent[i] == c.lent[i]);
        } else {
            assert(c2.lent[i] == c.lent[i + 1]);
        }
    }
    assert(0 <= st <= e <= c.buffer.size);
    assert forall|i: int| 0 <= i < c2.free.len() implies 0 <= #[trigger] c2.free[i].0 <= c2.free[i].1
        <= c2.buffer.size by {
        if k < free.len() && free[k].0 == e {
            if k > 0 && free[k - 1].1 == st {
                if i >= k {
                    assert(c2.free[i] == free[i + 1]);
                } else if i < k - 1 {
                    assert(c2.free[i] == free[i]);
                } else {
                    assert(c2.free[i] == (free[k - 1].0, free[k].1));
                }
            } else {
                if i != k {
                    assert(c2.free[i] == free[i]);
                }
            }
        } else if k < free.len() && k > 0 && free[k - 1].1 == st {
            if i != k - 1 {
                assert(c2.free[i] == free[i]);
            }
        } else {
            let p = if k < free.len() {
                k
            } else if free.len() == 0 {
                0
            } else {
                free.len() - 1
            };
            if i > p {
                assert(c2.free[i] == free[i - 1]);
            } else if i < p {
                assert(c2.free[i] == free[i]);
            } else {
                assert(c2.free[i] == (st, e));
            }
        }
    }
    assert forall|x: int| #[trigger] addresses(c2.free).contains(x) == addresses(free).union(
        span_addresses(slice_span(s)),
    ).contains(x) by {
        lemma_count_nonneg(free, x);
    }
    assert(addresses(c2.free) =~= addresses(free).union(span_addresses(slice_span(s))));
}

/// A contiguous piece of a device buffer whose free space is handed out in slices.
struct Chunk {
    buffer: DeviceBuffer,
    ranges: Vec<Range>,
    lent: Ghost<Seq<DeviceSlice>>,
}

impl View for Chunk {
    type V = ChunkView;

    closed spec fn view(&self) -> ChunkView {
        ChunkView { buffer: self.buffer, free: spans(self.ranges@), lent: self.lent@ }
    }
}

impl Chunk {
    fn wrap(buffer: DeviceBuffer) -> (r: Self)
        requires
            buffer_fits(buffer),
        ensures
            r@ == fresh_chunk(buffer),
            chunk_wf(r@),
    {
        let ranges = vec![Range { start: 0, end: buffer.size }];
        let r = Chunk { buffer, ranges, lent: Ghost(Seq::empty()) };
        proof {
            assert(spans(r.ranges@) =~= seq![(0int, buffer.size as int)]);
            assert(lent_spans(Seq::<DeviceSlice>::empty()) =~= Seq::<Span>::empty());
            assert forall|x: int| #[trigger] count(r@.free + lent_spans(r@.lent), x) == (if 0 <= x
                < buffer.size {
                1int
            } else {
                0int
            }) by {
                assert(r@.free + lent_spans(r@.lent) =~= seq![(0int, buffer.size as int)]);
                let s = seq![(0int, buffer.size as int)];
                assert(s.drop_last() =~= Seq::<Span>::empty());
                assert(sum_of(Seq::<Span>::empty(), covers(x)) == 0);
            }
            let s = seq![(0int, buffer.size as int)];
            assert(s.drop_last() =~= Seq::<Span>::empty());
            assert(sum_of(Seq::<Span>::empty(), span_len()) == 0);
            assert(total(Seq::<Span>::empty()) == 0);
        }
        r
    }

    fn allocate(&mut self, size: u64) -> (r: Option<DeviceSlice>)
        requires
            chunk_wf(old(self)@),
            size + old(self).buffer.alignment - 1 <= u64::MAX,
        ensures
            chunk_wf(final(self)@),
            (r, final(self)@) == chunk_alloc(old(self)@, size),
    {
        let aligned = DeviceBuffer::next_size(size, self.buffer.alignment);
        let mut i: usize = 0;
        while i < self.ranges.len()
            invariant
                self@ == old(self)@,
                chunk_wf(self@),
                aligned == next_size_spec(size, old(self)@.buffer.alignment),
                size + old(self).buffer.alignment - 1 <= u64::MAX,
                0 <= i <= self.ranges@.len(),
                first_fit(self@.free, aligned as int, 0) == first_fit(self@.free, aligned as int, i as int),
            decreases self.ranges@.len() - i,
        {
            let range = self.ranges[i];
            assert(self@.free[i as int] == (range.start as int, range.end as int));
            let range_size = range.size();
            if range_size < aligned {
                i += 1;
                continue;
            }
            assert(first_fit(self@.free, aligned as int, i as int) == i as int);
            let old_start = range.start;
            let new_start = old_start + aligned;
            if new_start == range.end {
                // Took the entire range
                self.ranges.remove(i);
            } else {
                // Update the existing range
                self.ranges[i] = Range { start: new_start, end: range.end };
            }
            let offset = old_start;
            let addr = self.buffer.addr + old_start;
            let device_addr = self.buffer.device_addr + offset;
            let slice = DeviceSlice {
                buffer: self.buffer.buffer,
                addr,
                size: aligned,
                offset,
                device_addr,
                kind: self.buffer.kind,
            };
            self.lent = Ghost(self.lent@.push(slice));
            proof {
                let ghost free = old(self)@.free;
                if new_start == range.end {
                    assert(spans(self.ranges@) =~= free.remove(i as int));
                } else {
                    assert(spans(self.ranges@) =~= free.update(
                        i as int,
                        (new_start as int, range.end as int),
                    ));
                }
                assert(slice == slice_at(old(self)@.buffer, old_start as int, aligned));
                assert(self@ =~= chunk_alloc(old(self)@, size).1);
                lemma_chunk_alloc(old(self)@, size);
            }
            return Some(slice);
        }
        None
    }

    fn free(&mut self, slice: DeviceSlice)
        requires
            frees_without_overflow(old(self)@.buffer, slice),
        ensures
            final(self)@ == chunk_free(old(self)@, slice),
            chunk_wf(old(self)@) && old(self)@.lent.contains(slice) ==> chunk_wf(final(self)@),
    {
        proof {
            if chunk_wf(self@) && self@.lent.contains(slice) {
                lemma_chunk_free(self@, slice);
            }
        }
        let ghost free = self@.free;
        let slice_start = slice.addr.wrapping_sub(self.buffer.addr);
        assert(slice_start == start_in(self.buffer, slice));
        let slice_end = slice_start + slice.size;
        // Find the first free range that starts after the slice.
        let mut i: usize = 0;
        while i < self.ranges.len() && self.ranges[i].start <= slice_start
            invariant
                self@ == old(self)@,
                spans(self.ranges@) == free,
                0 <= i <= self.ranges@.len(),
                first_after(free, slice_start as int, 0) == first_after(
                    free,
                    slice_start as int,
                    i as int,
                ),
            decreases self.ranges@.len() - i,
        {
            assert(free[i as int].0 == self.ranges@[i as int].start);
            i += 1;
        }
        let len = self.ranges.len();
        if i < len {
            assert(free[i as int].0 == self.ranges@[i as int].start);
            assert(first_after(free, slice_start as int, i as int) == i);
        }
        if i < len && self.ranges[i].start == slice_end {
            let range = self.ranges[i];
            if i > 0 && self.ranges[i - 1].end == slice_start {
                //  . <- remove
                // |f|f|o|o|
                let prev_range = self.ranges[i - 1];
                self.ranges.remove(i - 1);
                self.ranges[i - 1] = Range { start: prev_range.start, end: range.end };
                proof {
                    assert(spans(self.ranges@) =~= free.remove(i - 1).update(
                        i - 1,
                        (free[i - 1].0, free[i as int].1),
                    ));
                }
            } else {
                //  . <- extend backwards
                // |f|o|o|
                self.ranges[i] = Range { start: slice_start, end: range.end };
                proof {
                    assert(spans(self.ranges@) =~= free.update(
                        i as int,
                        (slice_start as int, free[i as int].1),
                    ));
                }
            }
        } else if i < len && i > 0 && self.ranges[i - 1].end == slice_start {
            //  . <- extend forwards
            // |f|o|o|
            let prev_range = self.ranges[i - 1];
            self.ranges[i - 1] = Range { start: prev_range.start, end: slice_end };
            proof {
                assert(spans(self.ranges@) =~= free.update(
                    i - 1,
                    (free[i - 1].0, slice_end as int),
                ));
            }
        } else {
            // . <- insert
            let idx = if i < len {
                i
            } else if len == 0 {
                0
            } else {
                len - 1
            };
            self.ranges.insert(idx, Range { start: slice_start, end: slice_end });
            proof {
                assert(spans(self.ranges@) =~= free.insert(
                    idx as int,
                    (slice_start as int, slice_end as int),
                ));
            }
        }
        self.lent = Ghost(self.lent@.remove_value(slice));
    }

    fn available(&self) -> (r: u64)
        requires
            chunk_wf(self@),
        ensures
            r == total(self@.free),
    {
        let mut acc: u64 = 0;
        let mut i: usize = 0;
        proof {
            let l = lent_spans(self@.lent);
            assert forall|i: int| 0 <= i < l.len() implies l[i].0 <= l[i].1 by {
                assert(placed_in(self@.lent[i], self.buffer));
            }
            lemma_total_nonneg(l);
        }
        while i < self.ranges.len()
            invariant
                chunk_wf(self@),
                0 <= i <= self.ranges@.len(),
                acc == total(self@.free.subrange(0, i as int)),
                total(self@.free) <= self.buffer.size,
            decreases self.ranges@.len() - i,
        {
            let r = self.ranges[i];
            proof {
                let free = self@.free;
                assert(free[i as int] == (r.start as int, r.end as int));
                assert(free.subrange(0, i + 1).drop_last() =~= free.subrange(0, i as int));
                lemma_sum_concat(free.subrange(0, i + 1), free.subrange(i + 1, free.len() as int), span_len());
                assert(free =~= free.subrange(0, i + 1) + free.subrange(i + 1, free.len() as int));
                let rest = free.subrange(i + 1, free.len() as int);
                assert forall|k: int| 0 <= k < rest.len() implies rest[k].0 <= rest[k].1 by {
                    assert(rest[k] == free[i + 1 + k]);
                }
                lemma_total_nonneg(rest);
            }
            acc = acc + r.size();
            i += 1;
        }
        proof {
            assert(self@.free.subrange(0, i as int) =~= self@.free);
        }
        acc
    }

    fn address_range_contains(&self, device_addr: u64) -> (r: bool)
        requires
            buffer_fits(self.buffer),
        ensures
            r == (self.buffer.device_addr <= device_addr < self.buffer.device_addr + self.buffer.size),
    {
        self.buffer.device_addr <= device_addr && device_addr < self.buffer.device_addr + self.buffer.size
    }
}

/// The free bytes of all chunks together.
pub open spec fn chunks_available(v: Seq<ChunkView>) -> int
    decreases v.len(),
{
    if v.len() == 0 {
        0
    } else {
        chunks_available(v.drop_last()) + total(v.last().free)
    }
}

/// Index of the first chunk, from `i` on, that can hand out `size` bytes.
pub open spec fn first_chunk_fit(v: Seq<ChunkView>, size: u64, i: int) -> int
    decreases v.len() - i,
{
    if i < 0 || i >= v.len() {
        v.len() as int
    } else if chunk_alloc(v[i], size).0 is Some {
        i
    } else {
        first_chunk_fit(v, size, i + 1)
    }
}

/// Allocating from the first chunk that has room; nothing changes when none has.
pub open spec fn allocator_alloc(v: Seq<ChunkView>, size: u64) -> (Option<DeviceSlice>, Seq<ChunkView>) {
    let c = first_chunk_fit(v, size, 0);
    if c >= v.len() {
        (None, v)
    } else {
        (chunk_alloc(v[c], size).0, v.update(c, chunk_alloc(v[c], size).1))
    }
}

/// Index of the first chunk, from `i` on, whose device addresses hold `device_addr`.
pub open spec fn chunk_holding(v: Seq<ChunkView>, device_addr: u64, i: int) -> int
    decreases v.len() - i,
{
    if i < 0 || i >= v.len() {
        v.len() as int
    } else if v[i].buffer.device_addr <= device_addr < v[i].buffer.device_addr + v[i].buffer.size {
        i
    } else {
        chunk_holding(v, device_addr, i + 1)
    }
}

/// The slice is one that the chunk holding its device address has lent and not taken back.
pub open spec fn owns(v: Seq<ChunkView>, s: DeviceSlice) -> bool {
    let c = chunk_holding(v, s.device_addr, 0);
    c < v.len() && v[c].lent.contains(s)
}

/// Some chunk holds the slice's device address, and the offsets of giving it
/// back there fit the machine.
pub open spec fn freeable(v: Seq<ChunkView>, s: DeviceSlice) -> bool {
    let c = chunk_holding(v, s.device_addr, 0);
    c < v.len() && frees_without_overflow(v[c].buffer, s)
}

/// Giving a slice back to the chunk holding its device address.
pub open spec fn allocator_free(v: Seq<ChunkView>, s: DeviceSlice) -> Seq<ChunkView> {
    let c = chunk_holding(v, s.device_addr, 0);
    v.update(c, chunk_free(v[c], s))
}

/// The device addresses of two buffers do not overlap.
pub open spec fn buffers_apart(a: DeviceBuffer, b: DeviceBuffer) -> bool {
    a.device_addr + a.size <= b.device_addr || b.device_addr + b.size <= a.device_addr
}

/// Every chunk is well formed and no two chunks share device addresses.
pub open spec fn allocator_wf(v: Seq<ChunkView>) -> bool {
    &&& forall|i: int| 0 <= i < v.len() ==> chunk_wf(#[trigger] v[i])
    &&& forall|i: int, j: int|
        0 <= i < v.len() && 0 <= j < v.len() && i != j ==> buffers_apart(
            #[trigger] v[i].buffer,
            #[trigger] v[j].buffer,
        )
}

/// Every chunk can round `size` with its alignment without overflowing.
pub open spec fn rounds_without_overflow(v: Seq<ChunkView>, size: u64) -> bool {
    forall|i: int| 0 <= i < v.len() ==> size + (#[trigger] v[i]).buffer.alignment - 1 <= u64::MAX
}

/// Hands out slices of device buffers. Each buffer is a chunk; when none has
/// room, the caller creates a new buffer and hands it to `allocate_in_new_chunk`.
pub struct DeviceAllocator {
    chunks: Vec<Chunk>,
}

impl View for DeviceAllocator {
    type V = Seq<ChunkView>;

    closed spec fn view(&self) -> Seq<ChunkView> {
        self.chunks@.map_values(|c: Chunk| c@)
    }
}

impl DeviceAllocator {
    /// Size of each chunk added once the first one is full.
    pub const CHUNK_SIZE: u64 = 32 * 1024 * 1024;

    pub open spec fn wf(&self) -> bool {
        allocator_wf(self@)
    }

    /// An allocator whose only chunk is `buffer`, entirely free.
    pub fn new(buffer: DeviceBuffer) -> (r: Self)
        requires
            buffer_fits(buffer),
        ensures
            r.wf(),
            r@ == seq![fresh_chunk(buffer)],
    {
        let chunk = Chunk::wrap(buffer);
        let r = DeviceAllocator { chunks: vec![chunk] };
        proof {
            assert(r@ =~= seq![fresh_chunk(buffer)]);
        }
        r
    }

    /// Tries every chunk in order and allocates from the first that has room.
    /// `None` means that a new chunk is needed.
    pub fn allocate(&mut self, size: u64) -> (r: Option<DeviceSlice>)
        requires
            old(self).wf(),
            rounds_without_overflow(old(self)@, size),
        ensures
            final(self).wf(),
            (r, final(self)@) == allocator_alloc(old(self)@, size),
    {
        let mut i: usize = 0;
        while i < self.chunks.len()
            invariant
                self@ == old(self)@,
                self.wf(),
                rounds_without_overflow(self@, size),
                0 <= i <= self@.len(),
                first_chunk_fit(self@, size, 0) == first_chunk_fit(self@, size, i as int),
            decreases self@.len() - i,
        {
            assert(self@[i as int] == self.chunks@[i as int]@);
            let r = self.chunks[i].allocate(size);
            if r.is_some() {
                proof {
                    assert(first_chunk_fit(old(self)@, size, i as int) == i);
                    assert(self@ =~= old(self)@.update(i as int, chunk_alloc(old(self)@[i as int], size).1));
                }
                return r;
            }
            assert(self@ =~= old(self)@);
            i += 1;
        }
        None
    }

    /// Wraps `buffer` into a new chunk and allocates from it; the chunk joins
    /// the allocator only when it could hand out the slice.
    pub fn allocate_in_new_chunk(&mut self, buffer: DeviceBuffer, size: u64) -> (r: Option<DeviceSlice>)
        requires
            old(self).wf(),
            buffer_fits(buffer),
            size + buffer.alignment - 1 <= u64::MAX,
            forall|i: int| 0 <= i < old(self)@.len() ==> buffers_apart(#[trigger] old(self)@[i].buffer, buffer),
        ensures
            final(self).wf(),
            r == chunk_alloc(fresh_chunk(buffer), size).0,
            final(self)@ == (if r is Some {
                old(self)@.push(chunk_alloc(fresh_chunk(buffer), size).1)
            } else {
                old(self)@
            }),
    {
        let mut chunk = Chunk::wrap(buffer);
        let r = chunk.allocate(size);
        if r.is_some() {
            self.chunks.push(chunk);
            proof {
                assert(self@ =~= old(self)@.push(chunk_alloc(fresh_chunk(buffer), size).1));
            }
        }
        r
    }

    /// Whether every chunk can round `size` with its alignment, as
    /// `allocate` needs.
    pub fn can_allocate(&self, size: u64) -> (r: bool)
        requires
            self.wf(),
        ensures
            r == rounds_without_overflow(self@, size),
    {
        let mut i: usize = 0;
        while i < self.chunks.len()
            invariant
                self.wf(),
                0 <= i <= self@.len(),
                forall|j: int| 0 <= j < i ==> size + (#[trigger] self@[j]).buffer.alignment - 1 <= u64::MAX,
            decreases self@.len() - i,
        {
            assert(self@[i as int] == self.chunks@[i as int]@);
            let align = self.chunks[i].buffer.alignment;
            if size > u64::MAX - (align - 1) {
                return false;
            }
            i += 1;
        }
        true
    }

    /// Whether `buffer` can join the allocator as a new chunk and round
    /// `size`, as `allocate_in_new_chunk` needs: its addresses fit the
    /// machine and overlap no chunk's.
    pub fn can_take(&self, buffer: DeviceBuffer, size: u64) -> (r: bool)
        requires
            self.wf(),
        ensures
            r == (buffer_fits(buffer) && size + buffer.alignment - 1 <= u64::MAX && forall|i: int|
                0 <= i < self@.len() ==> buffers_apart(#[trigger] self@[i].buffer, buffer)),
    {
        if buffer.alignment == 0 || buffer.addr > u64::MAX - buffer.size || buffer.device_addr > u64::MAX
            - buffer.size || size > u64::MAX - (buffer.alignment - 1) {
            return false;
        }
        let mut i: usize = 0;
        while i < self.chunks.len()
            invariant
                self.wf(),
                buffer_fits(buffer),
                0 <= i <= self@.len(),
                forall|j: int| 0 <= j < i ==> buffers_apart(#[trigger] self@[j].buffer, buffer),
            decreases self@.len() - i,
        {
            assert(self@[i as int] == self.chunks@[i as int]@);
            let b = self.chunks[i].buffer;
            if !(b.device_addr + b.size <= buffer.device_addr || buffer.device_addr + buffer.size
                <= b.device_addr) {
                return false;
            }
            i += 1;
        }
        true
    }

    /// Whether the statistics can be computed: the free bytes of all chunks
    /// fit `u64` and do not exceed the first chunk's size.
    pub fn stats_fit(&self) -> (r: bool)
        requires
            self.wf(),
        ensures
            r == (chunks_available(self@) <= u64::MAX && chunks_available(self@) <= first_size(self@)),
    {
        let mut acc: u64 = 0;
        let mut i: usize = 0;
        while i < self.chunks.len()
            invariant
                self.wf(),
                0 <= i <= self@.len(),
                acc == chunks_available(self@.subrange(0, i as int)),
            decreases self@.len() - i,
        {
            assert(self@[i as int] == self.chunks@[i as int]@);
            proof {
                let v = self@;
                assert(v.subrange(0, i + 1).drop_last() =~= v.subrange(0, i as int));
                lemma_chunks_available_prefix(v, i + 1);
            }
            let a = self.chunks[i].available();
            match acc.checked_add(a) {
                Some(n) => {
                    acc = n;
                },
                None => {
                    return false;
                },
            }
            i += 1;
        }
        proof {
            assert(self@.subrange(0, i as int) =~= self@);
        }
        acc <= self.size()
    }

    /// Whether some chunk's device addresses hold `slice`, so that `free`
    /// can give it back there.
    pub fn can_free(&self, slice: &DeviceSlice) -> (r: bool)
        requires
            self.wf(),
        ensures
            r == freeable(self@, *slice),
    {
        let mut i: usize = 0;
        while i < self.chunks.len()
            invariant
                self.wf(),
                0 <= i <= self@.len(),
                chunk_holding(self@, slice.device_addr, 0) == chunk_holding(
                    self@,
                    slice.device_addr,
                    i as int,
                ),
            decreases self@.len() - i,
        {
            assert(self@[i as int] == self.chunks@[i as int]@);
            if self.chunks[i].address_range_contains(slice.device_addr) {
                assert(chunk_holding(self@, slice.device_addr, i as int) == i);
                let b = self.chunks[i].buffer;
                let start = slice.addr.wrapping_sub(b.addr);
                return start <= u64::MAX - slice.size;
            }
            i += 1;
        }
        false
    }

    /// Gives a slice back to the chunk whose device addresses hold it; some
    /// chunk must hold it. A slice that chunk lent keeps the allocator well
    /// formed.
    pub fn free(&mut self, slice: DeviceSlice)
        requires
            old(self).wf(),
            freeable(old(self)@, slice),
        ensures
            final(self)@ == allocator_free(old(self)@, slice),
            owns(old(self)@, slice) ==> final(self).wf(),
    {
        let mut i: usize = 0;
        while i < self.chunks.len()
            invariant
                self@ == old(self)@,
                self.wf(),
                freeable(self@, slice),
                0 <= i <= self@.len(),
                chunk_holding(self@, slice.device_addr, 0) == chunk_holding(
                    self@,
                    slice.device_addr,
                    i as int,
                ),
            decreases self@.len() - i,
        {
            assert(self@[i as int] == self.chunks@[i as int]@);
            if self.chunks[i].address_range_contains(slice.device_addr) {
                assert(chunk_holding(self@, slice.device_addr, i as int) == i);
                self.chunks[i].free(slice);
                proof {
                    assert(self@ =~= allocator_free(old(self)@, slice));
                    if owns(old(self)@, slice) {
                        lemma_free_returns_bytes(old(self)@, slice);
                    }
                }
                return;
            }
            i += 1;
        }
    }

    /// Empties the allocator and returns the buffers of its chunks, in order,
    /// for the caller to destroy.
    pub fn take_buffers(&mut self) -> (r: Vec<DeviceBuffer>)
        ensures
            final(self).wf(),
            final(self)@ == Seq::<ChunkView>::empty(),
            r@ == old(self)@.map_values(|c: ChunkView| c.buffer),
    {
        let mut r: Vec<DeviceBuffer> = Vec::new();
        let mut i: usize = 0;
        while i < self.chunks.len()
            invariant
                self@ == old(self)@,
                0 <= i <= self@.len(),
                r@ == self@.subrange(0, i as int).map_values(|c: ChunkView| c.buffer),
            decreases self@.len() - i,
        {
            assert(self@[i as int] == self.chunks@[i as int]@);
            r.push(self.chunks[i].buffer);
            i += 1;
            assert(r@ =~= self@.subrange(0, i as int).map_values(|c: ChunkView| c.buffer));
        }
        self.chunks.clear();
        proof {
            assert(self@ =~= Seq::<ChunkView>::empty());
            assert(old(self)@.subrange(0, old(self)@.len() as int) =~= old(self)@);
        }
        r
    }

    /// Free bytes over all chunks.
    pub fn available(&self) -> (r: u64)
        requires
            self.wf(),
            chunks_available(self@) <= u64::MAX,
        ensures
            r == chunks_available(self@),
    {
        let mut acc: u64 = 0;
        let mut i: usize = 0;
        while i < self.chunks.len()
            invariant
                self.wf(),
                chunks_available(self@) <= u64::MAX,
                0 <= i <= self@.len(),
                acc == chunks_available(self@.subrange(0, i as int)),
            decreases self@.len() - i,
        {
            assert(self@[i as int] == self.chunks@[i as int]@);
            proof {
                let v = self@;
                assert(v.subrange(0, i + 1).drop_last() =~= v.subrange(0, i as int));
                lemma_chunks_available_prefix(v, i + 1);
            }
            let a = self.chunks[i].available();
            acc = acc + a;
            i += 1;
        }
        proof {
            assert(self@.subrange(0, i as int) =~= self@);
        }
        acc
    }

    /// Bytes in use: the size of the first chunk less what is free in all
    /// chunks.
    pub fn used(&self) -> (r: u64)
        requires
            self.wf(),
            chunks_available(self@) <= u64::MAX,
            chunks_available(self@) <= first_size(self@),
        ensures
            r == first_size(self@) - chunks_available(self@),
    {
        self.size() - self.available()
    }

    /// Number of chunks.
    pub fn chunks(&self) -> (r: u64)
        ensures
            r == self@.len() as u64,
    {
        self.chunks.len() as u64
    }

    /// Alignment of the first chunk's buffer, or 0 without chunks.
    pub fn alignment(&self) -> (r: u64)
        ensures
            r == (if self@.len() > 0 {
                self@[0].buffer.alignment
            } else {
                0
            }),
    {
        if self.chunks.len() > 0 {
            self.chunks[0].buffer.alignment
        } else {
            0
        }
    }

    /// Size of the first chunk's buffer, or 0 without chunks.
    pub fn size(&self) -> (r: u64)
        ensures
            r == first_size(self@),
    {
        if self.chunks.len() > 0 {
            self.chunks[0].buffer.size
        } else {
            0
        }
    }

    /// Kind of the first chunk's buffer, or `Undefined` without chunks.
    pub fn kind(&self) -> (r: BufferKind)
        ensures
            r == (if self@.len() > 0 {
                self@[0].buffer.kind
            } else {
                BufferKind::Undefined
            }),
    {
        if self.chunks.len() > 0 {
            self.chunks[0].buffer.kind
        } else {
            BufferKind::Undefined
        }
    }
}

/// Size of the first chunk's buffer, or 0 without chunks.
pub open spec fn first_size(v: Seq<ChunkView>) -> int {
    if v.len() > 0 {
        v[0].buffer.size as int
    } else {
        0
    }
}

/// The free bytes of a prefix of the chunks never exceed those of all chunks.
proof fn lemma_chunks_available_prefix(v: Seq<ChunkView>, n: int)
    requires
        allocator_wf(v),
        0 <= n <= v.len(),
    ensures
        0 <= chunks_available(v.subrange(0, n)) <= chunks_available(v),
    decreases v.len() - n,
{
    if n < v.len() {
        lemma_chunks_available_prefix(v, n + 1);
        assert(v.subrange(0, n + 1).drop_last() =~= v.subrange(0, n));
        assert(v.subrange(0, n + 1).last() == v[n]);
        lemma_chunk_total_nonneg(v[n]);
        let p = v.subrange(0, n);
        assert forall|i: int| 0 <= i < p.len() implies chunk_wf(#[trigger] p[i]) by {
            assert(p[i] == v[i]);
        }
        lemma_chunks_available_nonneg(p);
    } else {
        assert(v.subrange(0, n) =~= v);
        lemma_chunks_available_nonneg(v);
    }
}

proof fn lemma_chunks_available_nonneg(v: Seq<ChunkView>)
    requires
        allocator_wf(v),
    ensures
        chunks_available(v) >= 0,
    decreases v.len(),
{
    if v.len() > 0 {
        lemma_chunks_available_nonneg(v.drop_last());
        lemma_chunk_total_nonneg(v.last());
    }
}

proof fn lemma_chunk_total_nonneg(c: ChunkView)
    requires
        chunk_wf(c),
    ensures
        0 <= total(c.free) <= c.buffer.size,
{
    lemma_total_nonneg(c.free);
    let l = lent_spans(c.lent);
    assert forall|i: int| 0 <= i < l.len() implies l[i].0 <= l[i].1 by {
        assert(placed_in(c.lent[i], c.buffer));
    }
    lemma_total_nonneg(l);
}

proof fn lemma_chunks_available_update(v: Seq<ChunkView>, c: int, x: ChunkView)
    requires
        0 <= c < v.len(),
    ensures
        chunks_available(v.update(c, x)) == chunks_available(v) - total(v[c].free) + total(x.free),
    decreases v.len(),
{
    let w = v.update(c, x);
    if c == v.len() - 1 {
        assert(w.drop_last() =~= v.drop_last());
    } else {
        lemma_chunks_available_update(v.drop_last(), c, x);
        assert(w.drop_last() =~= v.drop_last().update(c, x));
    }
}

proof fn lemma_chunk_holding_is(v: Seq<ChunkView>, d: u64, c: int, i: int)
    requires
        allocator_wf(v),
        0 <= i <= c < v.len(),
        v[c].buffer.device_addr <= d < v[c].buffer.device_addr + v[c].buffer.size,
    ensures
        chunk_holding(v, d, i) == c,
    decreases c - i,
{
    if i < c {
        assert(buffers_apart(v[i].buffer, v[c].buffer));
        lemma_chunk_holding_is(v, d, c, i + 1);
    }
}

proof fn lemma_chunk_holding_bound(v: Seq<ChunkView>, d: u64, i: int)
    requires
        0 <= i <= v.len(),
    ensures
        i <= chunk_holding(v, d, i) <= v.len(),
    decreases v.len() - i,
{
    if i < v.len() && !(v[i].buffer.device_addr <= d < v[i].buffer.device_addr + v[i].buffer.size) {
        lemma_chunk_holding_bound(v, d, i + 1);
    }
}

proof fn lemma_first_chunk_fit_bound(v: Seq<ChunkView>, size: u64, i: int)
    requires
        0 <= i,
    ensures
        first_chunk_fit(v, size, i) < v.len() ==> i <= first_chunk_fit(v, size, i) && chunk_alloc(
            v[first_chunk_fit(v, size, i)],
            size,
        ).0 is Some,
    decreases v.len() - i,
{
    if i < v.len() && chunk_alloc(v[i], size).0 is None {
        lemma_first_chunk_fit_bound(v, size, i + 1);
    }
}

/// Allocation keeps the allocator well formed. When it hands out a slice, the
/// slice's bytes were free in its chunk and no longer are, the free bytes of
/// the allocator drop by the slice's size, and the allocator owns the slice;
/// when it hands out none, nothing changes.
pub proof fn lemma_allocate_takes_free_bytes(v: Seq<ChunkView>, size: u64)
    requires
        allocator_wf(v),
        rounds_without_overflow(v, size),
    ensures
        allocator_wf(allocator_alloc(v, size).1),
        allocator_alloc(v, size).0 is None ==> allocator_alloc(v, size).1 == v,
        allocator_alloc(v, size).0 matches Some(s) ==> {
            let c = first_chunk_fit(v, size, 0);
            let w = allocator_alloc(v, size).1;
            &&& 0 <= c < v.len()
            &&& span_addresses(slice_span(s)).subset_of(addresses(v[c].free))
            &&& addresses(w[c].free) == addresses(v[c].free).difference(span_addresses(slice_span(s)))
            &&& chunks_available(w) == chunks_available(v) - s.size
            &&& (s.size > 0 ==> owns(w, s))
        },
{
    let c = first_chunk_fit(v, size, 0);
    lemma_first_chunk_fit_bound(v, size, 0);
    if c < v.len() {
        let (r, x) = chunk_alloc(v[c], size);
        let s = r->0;
        let w = v.update(c, x);
        lemma_chunk_alloc(v[c], size);
        lemma_chunks_available_update(v, c, x);
        assert(allocator_wf(w)) by {
            assert forall|i: int| 0 <= i < w.len() implies chunk_wf(#[trigger] w[i]) by {
                if i != c {
                    assert(w[i] == v[i]);
                }
            }
            assert forall|i: int, j: int|
                0 <= i < w.len() && 0 <= j < w.len() && i != j implies buffers_apart(
                #[trigger] w[i].buffer,
                #[trigger] w[j].buffer,
            ) by {
                assert(w[i].buffer == v[i].buffer);
                assert(w[j].buffer == v[j].buffer);
            }
        }
        assert forall|y: int| span_addresses(slice_span(s)).contains(y) implies addresses(
            v[c].free,
        ).contains(y) by {
            let k = first_fit(v[c].free, s.size as int, 0);
            lemma_first_fit_fits(v[c].free, s.size as int, 0);
            lemma_count_at_least(v[c].free, k, y);
        }
        if s.size > 0 {
            assert(placed_in(x.lent.last(), x.buffer));
            lemma_chunk_holding_is(w, s.device_addr, c, 0);
            assert(x.lent.contains(s)) by {
                assert(x.lent[x.lent.len() - 1] == s);
            }
        }
    }
}

/// Giving back an owned slice keeps the allocator well formed, returns the
/// slice's bytes to its chunk's free space and raises the free bytes of the
/// allocator by the slice's size.
pub proof fn lemma_free_returns_bytes(v: Seq<ChunkView>, s: DeviceSlice)
    requires
        allocator_wf(v),
        owns(v, s),
    ensures
        allocator_wf(allocator_free(v, s)),
        addresses(allocator_free(v, s)[chunk_holding(v, s.device_addr, 0)].free) == addresses(
            v[chunk_holding(v, s.device_addr, 0)].free,
        ).union(span_addresses(slice_span(s))),
        chunks_available(allocator_free(v, s)) == chunks_available(v) + s.size,
{
    let c = chunk_holding(v, s.device_addr, 0);
    lemma_chunk_holding_bound(v, s.device_addr, 0);
    let x = chunk_free(v[c], s);
    let w = v.update(c, x);
    lemma_chunk_free(v[c], s);
    lemma_chunks_available_update(v, c, x);
    assert(allocator_wf(w)) by {
        assert forall|i: int| 0 <= i < w.len() implies chunk_wf(#[trigger] w[i]) by {
            if i != c {
                assert(w[i] == v[i]);
            }
        }
        assert forall|i: int, j: int|
            0 <= i < w.len() && 0 <= j < w.len() && i != j implies buffers_apart(
            #[trigger] w[i].buffer,
            #[trigger] w[j].buffer,
        ) by {
            assert(w[i].buffer == v[i].buffer);
            assert(w[j].buffer == v[j].buffer);
        }
    }
}

/// Giving back a slice right after allocating it restores the free bytes and
/// the free addresses of every chunk.
pub proof fn lemma_allocate_then_free_restores(v: Seq<ChunkView>, size: u64)
    requires
        allocator_wf(v),
        rounds_without_overflow(v, size),
        allocator_alloc(v, size).0 matches Some(s) && s.size > 0,
    ensures
        ({
            let s = allocator_alloc(v, size).0->0;
            let u = allocator_free(allocator_alloc(v, size).1, s);
            &&& u.len() == v.len()
            &&& chunks_available(u) == chunks_available(v)
            &&& forall|i: int| 0 <= i < v.len() ==> addresses(#[trigger] u[i].free) == addresses(v[i].free)
        }),
{
    let s = allocator_alloc(v, size).0->0;
    let w = allocator_alloc(v, size).1;
    let c = first_chunk_fit(v, size, 0);
    lemma_allocate_takes_free_bytes(v, size);
    lemma_free_returns_bytes(w, s);
    let u = allocator_free(w, s);
    assert(placed_in(w[c].lent.last(), w[c].buffer));
    lemma_chunk_holding_is(w, s.device_addr, c, 0);
    assert forall|i: int| 0 <= i < v.len() implies addresses(#[trigger] u[i].free) == addresses(v[i].free) by {
        if i == c {
            assert(addresses(u[i].free) =~= addresses(v[i].free));
        }
    }
}

/// No two slices lent by one chunk share a byte.
pub proof fn lemma_lent_slices_apart(v: Seq<ChunkView>, c: int, i: int, j: int, x: int)
    requires
        allocator_wf(v),
        0 <= c < v.len(),
        0 <= i < v[c].lent.len(),
        0 <= j < v[c].lent.len(),
        i != j,
    ensures
        !(span_addresses(slice_span(v[c].lent[i])).contains(x) && span_addresses(
            slice_span(v[c].lent[j]),
        ).contains(x)),
{
    let ch = v[c];
    let l = lent_spans(ch.lent);
    if span_addresses(slice_span(ch.lent[i])).contains(x) && span_addresses(
        slice_span(ch.lent[j]),
    ).contains(x) {
        lemma_free_count_at_most_one(ch, x);
        if i < j {
            lemma_count_at_least_two(l, i, j, x);
        } else {
            lemma_count_at_least_two(l, j, i, x);
        }
    }
}

/// The free spans are each non-empty, in order of their offsets, and apart:
/// between two of them lies at least one byte that is not free.
pub open spec fn spans_sorted(free: Seq<Span>) -> bool {
    &&& forall|i: int| 0 <= i < free.len() ==> (#[trigger] free[i]).0 < free[i].1
    &&& forall|i: int, j: int| 0 <= i < j < free.len() ==> (#[trigger] free[i]).1 < (#[trigger] free[j]).0
}

/// The spans before `first_after(free, s, i)`, from `i` on, start at or before `s`.
proof fn lemma_first_after_before(free: Seq<Span>, s: int, i: int, j: int)
    requires
        0 <= i <= j < first_after(free, s, i),
    ensures
        free[j].0 <= s,
    decreases free.len() - i,
{
    lemma_first_after_bound(free, s, i);
    if i < j {
        lemma_first_after_before(free, s, i + 1, j);
    }
}

/// `first_after` finds `k` when every span before `k` starts at or before `s`
/// and span `k`, if any, starts after it.
proof fn lemma_first_after_is(free: Seq<Span>, s: int, k: int, i: int)
    requires
        0 <= i <= k <= free.len(),
        forall|j: int| 0 <= j < k ==> (#[trigger] free[j]).0 <= s,
        k < free.len() ==> free[k].0 > s,
    ensures
        first_after(free, s, i) == k,
    decreases k - i,
{
    if i < k {
        lemma_first_after_is(free, s, k, i + 1);
    }
}

/// The bytes of a lent slice are covered by no free span.
proof fn lemma_lent_not_free(c: ChunkView, j: int, x: int, i: int)
    requires
        chunk_wf(c),
        0 <= j < c.lent.len(),
        slice_span(c.lent[j]).0 <= x < slice_span(c.lent[j]).1,
        0 <= i < c.free.len(),
    ensures
        !(c.free[i].0 <= x < c.free[i].1),
{
    assert(lent_spans(c.lent)[j] == slice_span(c.lent[j]));
    lemma_count_at_least(lent_spans(c.lent), j, x);
    lemma_sum_concat(c.free, lent_spans(c.lent), covers(x));
    assert(placed_in(c.lent[j], c.buffer));
    assert(count(c.free + lent_spans(c.lent), x) == 1);
    lemma_count_nonneg(c.free, x);
    if c.free[i].0 <= x < c.free[i].1 {
        lemma_count_at_least(c.free, i, x);
    }
}

/// Giving back a non-empty lent slice keeps the free spans non-empty, in
/// order and apart, merging the slice with the free spans it touches, as
/// long as some free span starts after the slice or none is left. (When
/// spans remain but all start at or before the slice, the slice goes in
/// before the last span, out of order.)
pub proof fn lemma_free_keeps_spans_sorted(c: ChunkView, s: DeviceSlice)
    requires
        chunk_wf(c),
        spans_sorted(c.free),
        c.lent.contains(s),
        s.size > 0,
        first_after(c.free, s.offset as int, 0) < c.free.len() || c.free.len() == 0,
    ensures
        spans_sorted(chunk_free(c, s).free),
        addresses(chunk_free(c, s).free) == addresses(c.free).union(span_addresses(slice_span(s))),
        total(chunk_free(c, s).free) == total(c.free) + s.size,
{
    lemma_chunk_free(c, s);
    let free = c.free;
    let st = s.offset as int;
    let e = s.offset + s.size;
    let j = c.lent.index_of_first(s)->0;
    c.lent.index_of_first_ensures(s);
    assert(placed_in(c.lent[j], c.buffer));
    assert(start_in(c.buffer, s) == st);
    let k = first_after(free, st, 0);
    lemma_first_after_bound(free, st, 0);
    // Spans before `k` end at or before the slice.
    assert forall|i: int| 0 <= i < k implies (#[trigger] free[i]).1 <= st by {
        lemma_first_after_before(free, st, 0, i);
        lemma_lent_not_free(c, j, st, i);
    }
    // Spans from `k` on start at or after the slice's end.
    assert forall|i: int| k <= i < free.len() implies (#[trigger] free[i]).0 >= e by {
        if i > k {
            assert(free[k].1 < free[i].0);
        }
        if free[i].0 < e {
            lemma_lent_not_free(c, j, free[i].0, i);
        }
    }
    lemma_sorted_after_free(free, st, e);
}

/// Putting `[st, e)` back among free spans that are in order and apart keeps
/// them so, when it lies between the spans before the first one starting
/// after `st` and that one, and some span starts after `st` or none is left.
proof fn lemma_sorted_after_free(free: Seq<Span>, st: int, e: int)
    requires
        spans_sorted(free),
        st < e,
        first_after(free, st, 0) < free.len() || free.len() == 0,
        forall|i: int| 0 <= i < first_after(free, st, 0) ==> (#[trigger] free[i]).1 <= st,
        forall|i: int| first_after(free, st, 0) <= i < free.len() ==> (#[trigger] free[i]).0 >= e,
    ensures
        spans_sorted(free_spans_after(free, st, e)),
{
    let r = free_spans_after(free, st, e);
    let k = first_after(free, st, 0);
    if k < free.len() && free[k].0 == e {
        if k > 0 && free[k - 1].1 == st {
            assert forall|a: int, b: int| 0 <= a < b < r.len() implies (#[trigger] r[a]).1 < (#[trigger] r[b]).0 by {
                let oa = if a < k - 1 { a } else if a == k - 1 { k } else { a + 1 };
                let ob = if b < k - 1 { b } else if b == k - 1 { k } else { b + 1 };
                assert(r[a].1 == free[oa].1);
                if a == k - 1 {
                    assert(r[b] == free[ob]);
                } else if b == k - 1 {
                    assert(r[b].0 == free[k - 1].0);
                    assert(r[a] == free[oa]);
                    if a < k - 2 || a == k - 2 {
                        assert(free[a].1 < free[k - 1].0);
                    }
                } else {
                    assert(r[a] == free[oa]);
                    assert(r[b] == free[ob]);
                }
            }
            assert forall|a: int| 0 <= a < r.len() implies (#[trigger] r[a]).0 < r[a].1 by {
                if a < k - 1 {
                    assert(r[a] == free[a]);
                } else if a > k - 1 {
                    assert(r[a] == free[a + 1]);
                }
            }
        } else {
            if k > 0 {
                assert(free[k - 1].1 < st);
            }
            assert forall|a: int, b: int| 0 <= a < b < r.len() implies (#[trigger] r[a]).1 < (#[trigger] r[b]).0 by {
                if b == k && a < k {
                    assert(free[a].1 <= free[k - 1].1 || a == k - 1);
                    if a < k - 1 {
                        assert(free[a].1 < free[k - 1].0);
                    }
                }
            }
        }
    } else if k < free.len() && k > 0 && free[k - 1].1 == st {
        assert(e < free[k].0);
        assert forall|a: int, b: int| 0 <= a < b < r.len() implies (#[trigger] r[a]).1 < (#[trigger] r[b]).0 by {
            if a == k - 1 && b > k {
                assert(free[k].1 < free[b].0);
            }
        }
    } else if k < free.len() {
        if k > 0 {
            assert(free[k - 1].1 < st);
        }
        assert(e < free[k].0);
        assert forall|a: int, b: int| 0 <= a < b < r.len() implies (#[trigger] r[a]).1 < (#[trigger] r[b]).0 by {
            let oa = if a < k { a } else { a - 1 };
            let ob = if b < k { b } else { b - 1 };
            if a == k {
                assert(r[b] == free[ob]);
                if ob > k {
                    assert(free[k].1 < free[ob].0);
                }
            } else if b == k {
                assert(r[a] == free[a]);
                if a < k - 1 {
                    assert(free[a].1 < free[k - 1].0);
                }
            } else {
                assert(r[a] == free[oa]);
                assert(r[b] == free[ob]);
            }
        }
        assert forall|a: int| 0 <= a < r.len() implies (#[trigger] r[a]).0 < r[a].1 by {
            if a < k {
                assert(r[a] == free[a]);
            } else if a > k {
                assert(r[a] == free[a - 1]);
            }
        }
    } else {
        assert(r =~= seq![(st, e)]);
    }
}

/// Giving back a non-empty slice right after allocating it leaves the chunk
/// as it was before the allocation: the same free spans, the same lent
/// slices, and so the same free bytes, when the free spans were in order
/// and apart, unless the allocation used up the last of several free spans.
/// (Then the slice goes back in before the last span.)
pub proof fn lemma_free_undoes_allocate(c: ChunkView, size: u64)
    requires
        chunk_wf(c),
        spans_sorted(c.free),
        size + c.buffer.alignment - 1 <= u64::MAX,
        chunk_alloc(c, size).0 matches Some(s) && s.size > 0,
        !({
            let a = next_size_spec(size, c.buffer.alignment);
            let k = first_fit(c.free, a as int, 0);
            &&& c.free.len() > 1
            &&& k == c.free.len() - 1
            &&& c.free[k].1 - c.free[k].0 == a
        }),
    ensures
        chunk_free(chunk_alloc(c, size).1, chunk_alloc(c, size).0->0) == c,
{
    let a = next_size_spec(size, c.buffer.alignment);
    let free = c.free;
    let k = first_fit(free, a as int, 0);
    lemma_first_fit_fits(free, a as int, 0);
    let (r, c2) = chunk_alloc(c, size);
    let s = r->0;
    let st = free[k].0;
    let end = free[k].1;
    let e = st + a;
    lemma_chunk_alloc(c, size);
    assert(c2.lent.last() == s);
    assert(placed_in(c2.lent.last(), c2.buffer));
    assert(start_in(c2.buffer, s) == st);
    // The slice was not lent before: its first byte was free.
    assert(!c.lent.contains(s)) by {
        if c.lent.contains(s) {
            let j = choose|j: int| 0 <= j < c.lent.len() && c.lent[j] == s;
            lemma_lent_not_free(c, j, st, k);
        }
    }
    c2.lent.index_of_first_ensures(s);
    assert(c2.lent.index_of_first(s) == Some((c2.lent.len() - 1) as int)) by {
        let i = c2.lent.index_of_first(s)->0;
        if i < c2.lent.len() - 1 {
            assert(c.lent[i] == s);
        }
    }
    assert(c2.lent.remove_value(s) =~= c.lent);
    assert forall|j: int| 0 <= j < k implies (#[trigger] free[j]).0 < st by {
        assert(free[j].1 < free[k].0);
    }
    let f2 = c2.free;
    if e == end {
        // The whole span was taken.
        assert(f2 == free.remove(k));
        if k < free.len() - 1 {
            assert(free[k + 1].0 > end);
            lemma_first_after_is(f2, st, k, 0);
            assert(f2[k] == free[k + 1]);
            if k > 0 {
                assert(f2[k - 1].1 < st);
            }
            assert(free_spans_after(f2, st, e) =~= free);
        } else {
            assert(free.len() == 1);
            assert(f2.len() == 0);
            assert(free_spans_after(f2, st, e) =~= free);
        }
    } else {
        assert(f2 == free.update(k, (e, end)));
        lemma_first_after_is(f2, st, k, 0);
        if k > 0 {
            assert(f2[k - 1].1 < st);
        }
        assert(free_spans_after(f2, st, e) =~= free);
    }
    assert(chunk_free(c2, s) =~= c);
}

/// Allocating keeps the free spans non-empty, in order and apart; a fresh
/// chunk of a non-empty buffer starts so.
pub proof fn lemma_allocate_keeps_spans_sorted(c: ChunkView, size: u64)
    requires
        spans_sorted(c.free),
        size + c.buffer.alignment - 1 <= u64::MAX,
    ensures
        spans_sorted(chunk_alloc(c, size).1.free),
        c.buffer.size > 0 ==> spans_sorted(fresh_chunk(c.buffer).free),
{
    let a = next_size_spec(size, c.buffer.alignment);
    let free = c.free;
    let k = first_fit(free, a as int, 0);
    if k < free.len() {
        lemma_first_fit_fits(free, a as int, 0);
        let st = free[k].0;
        let end = free[k].1;
        let r = chunk_alloc(c, size).1.free;
        if st + a == end {
            assert(r == free.remove(k));
            assert forall|i: int, j: int| 0 <= i < j < r.len() implies (#[trigger] r[i]).1 < (#[trigger] r[j]).0 by {
                let oi = if i < k { i } else { i + 1 };
                let oj = if j < k { j } else { j + 1 };
                assert(r[i] == free[oi]);
                assert(r[j] == free[oj]);
            }
            assert forall|i: int| 0 <= i < r.len() implies (#[trigger] r[i]).0 < r[i].1 by {
                if i < k {
                    assert(r[i] == free[i]);
                } else {
                    assert(r[i] == free[i + 1]);
                }
            }
        } else {
            assert(r == free.update(k, (st + a, end)));
            assert forall|i: int, j: int| 0 <= i < j < r.len() implies (#[trigger] r[i]).1 < (#[trigger] r[j]).0 by {
                if j == k {
                    assert(free[i].1 < free[k].0);
                }
            }
        }
    }
}

} // verus!
