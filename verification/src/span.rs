use vstd::prelude::*;

verus! {

/// A half-open span of addresses `[start, end)`.
pub type Span = (int, int);

/// Sum of `f` over every span of `s`.
pub open spec fn sum_of(s: Seq<Span>, f: spec_fn(Span) -> int) -> int
    decreases s.len(),
{
    if s.len() == 0 {
        0
    } else {
        sum_of(s.drop_last(), f) + f(s.last())
    }
}

/// The number of bytes a span covers.
pub open spec fn span_len() -> spec_fn(Span) -> int {
    |r: Span| r.1 - r.0
}

/// 1 when the span covers address `x`, else 0.
pub open spec fn covers(x: int) -> spec_fn(Span) -> int {
    |r: Span| if r.0 <= x < r.1 { 1int } else { 0int }
}

/// Total number of bytes that the spans of `s` cover, counting overlaps twice.
pub open spec fn total(s: Seq<Span>) -> int {
    sum_of(s, span_len())
}

/// How many spans of `s` cover address `x`.
pub open spec fn count(s: Seq<Span>, x: int) -> int {
    sum_of(s, covers(x))
}

/// The addresses that at least one span of `s` covers.
pub open spec fn addresses(s: Seq<Span>) -> Set<int> {
    Set::new(|x: int| count(s, x) > 0)
}

/// The addresses of a single span.
pub open spec fn span_addresses(r: Span) -> Set<int> {
    Set::new(|x: int| r.0 <= x < r.1)
}

pub proof fn lemma_sum_concat(a: Seq<Span>, b: Seq<Span>, f: spec_fn(Span) -> int)
    ensures
        sum_of(a + b, f) == sum_of(a, f) + sum_of(b, f),
    decreases b.len(),
{
    if b.len() == 0 {
        assert(a + b =~= a);
    } else {
        lemma_sum_concat(a, b.drop_last(), f);
        assert((a + b).drop_last() =~= a + b.drop_last());
        assert((a + b).last() == b.last());
    }
}

proof fn lemma_sum_single(x: Span, f: spec_fn(Span) -> int)
    ensures
        sum_of(seq![x], f) == f(x),
{
    assert(seq![x].drop_last() =~= Seq::<Span>::empty());
    assert(sum_of(Seq::<Span>::empty(), f) == 0);
    assert(seq![x].last() == x);
}

proof fn lemma_sum_split(s: Seq<Span>, i: int, f: spec_fn(Span) -> int)
    requires
        0 <= i < s.len(),
    ensures
        sum_of(s, f) == sum_of(s.subrange(0, i), f) + f(s[i]) + sum_of(
            s.subrange(i + 1, s.len() as int),
            f,
        ),
{
    let a = s.subrange(0, i);
    let b = s.subrange(i + 1, s.len() as int);
    assert(s =~= a + seq![s[i]] + b);
    lemma_sum_concat(a + seq![s[i]], b, f);
    lemma_sum_concat(a, seq![s[i]], f);
    lemma_sum_single(s[i], f);
}

pub proof fn lemma_sum_update(s: Seq<Span>, i: int, v: Span, f: spec_fn(Span) -> int)
    requires
        0 <= i < s.len(),
    ensures
        sum_of(s.update(i, v), f) == sum_of(s, f) - f(s[i]) + f(v),
{
    let t = s.update(i, v);
    lemma_sum_split(s, i, f);
    lemma_sum_split(t, i, f);
    assert(t.subrange(0, i) =~= s.subrange(0, i));
    assert(t.subrange(i + 1, t.len() as int) =~= s.subrange(i + 1, s.len() as int));
}

pub proof fn lemma_sum_remove(s: Seq<Span>, i: int, f: spec_fn(Span) -> int)
    requires
        0 <= i < s.len(),
    ensures
        sum_of(s.remove(i), f) == sum_of(s, f) - f(s[i]),
{
    lemma_sum_split(s, i, f);
    lemma_sum_concat(s.subrange(0, i), s.subrange(i + 1, s.len() as int), f);
}

pub proof fn lemma_sum_insert(s: Seq<Span>, i: int, v: Span, f: spec_fn(Span) -> int)
    requires
        0 <= i <= s.len(),
    ensures
        sum_of(s.insert(i, v), f) == sum_of(s, f) + f(v),
{
    let a = s.subrange(0, i);
    let b = s.subrange(i, s.len() as int);
    assert(s =~= a + b);
    lemma_sum_concat(a, b, f);
    assert(s.insert(i, v) =~= a + seq![v] + b);
    lemma_sum_concat(a + seq![v], b, f);
    lemma_sum_concat(a, seq![v], f);
    lemma_sum_single(v, f);
}

pub proof fn lemma_sum_push(s: Seq<Span>, v: Span, f: spec_fn(Span) -> int)
    ensures
        sum_of(s.push(v), f) == sum_of(s, f) + f(v),
{
    assert(s.push(v).drop_last() =~= s);
}

/// A covering count is never negative.
pub proof fn lemma_count_nonneg(s: Seq<Span>, x: int)
    ensures
        count(s, x) >= 0,
    decreases s.len(),
{
    if s.len() > 0 {
        lemma_count_nonneg(s.drop_last(), x);
    }
}

/// A span of `s` that covers `x` contributes to the count of `x`.
pub proof fn lemma_count_at_least(s: Seq<Span>, i: int, x: int)
    requires
        0 <= i < s.len(),
        s[i].0 <= x < s[i].1,
    ensures
        count(s, x) >= 1,
{
    lemma_sum_split(s, i, covers(x));
    lemma_count_nonneg(s.subrange(0, i), x);
    lemma_count_nonneg(s.subrange(i + 1, s.len() as int), x);
}

/// Two distinct spans of `s` that both cover `x` make its count at least two.
pub proof fn lemma_count_at_least_two(s: Seq<Span>, i: int, j: int, x: int)
    requires
        0 <= i < j < s.len(),
        s[i].0 <= x < s[i].1,
        s[j].0 <= x < s[j].1,
    ensures
        count(s, x) >= 2,
{
    lemma_sum_split(s, j, covers(x));
    let a = s.subrange(0, j);
    assert(a[i] == s[i]);
    lemma_count_at_least(a, i, x);
    lemma_count_nonneg(s.subrange(j + 1, s.len() as int), x);
}

/// Spans that all lie inside `[0, bound]` with well-ordered ends have a non-negative total.
pub proof fn lemma_total_nonneg(s: Seq<Span>)
    requires
        forall|i: int| 0 <= i < s.len() ==> s[i].0 <= s[i].1,
    ensures
        total(s) >= 0,
    decreases s.len(),
{
    if s.len() > 0 {
        lemma_total_nonneg(s.drop_last());
    }
}

} // verus!
