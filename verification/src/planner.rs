//! Range planning: pure arithmetic on chunk boundaries.
//!
//! A plan for the byte range `[start, end)` with a positive `chunk_size` is
//! the ascending sequence of boundary pairs `(offset_start, offset_end)`,
//! each of length `chunk_size` except possibly a shorter final pair, that
//! together cover the range exactly.

use vstd::arithmetic::div_mod::{
    lemma_basic_div, lemma_div_is_ordered, lemma_div_plus_one, lemma_div_pos_is_pos,
    lemma_fundamental_div_mod, lemma_fundamental_div_mod_converse_div,
    lemma_mod_division_less_than_divisor,
};
use vstd::arithmetic::mul::{
    lemma_mul_inequality, lemma_mul_is_distributive_add_other_way, lemma_mul_nonnegative,
};
use vstd::prelude::*;

verus! {

/// The end of the chunk that begins at `cursor`:
/// `min(cursor + chunk_size, range_end)`.
pub open spec fn spec_chunk_end(cursor: int, chunk_size: int, range_end: int) -> int {
    if cursor + chunk_size < range_end {
        cursor + chunk_size
    } else {
        range_end
    }
}

/// The plan for `[start, end)`: the boundary pairs of every chunk, in the
/// order they are uploaded.
pub open spec fn spec_plan(start: int, end: int, chunk_size: int) -> Seq<(int, int)>
    decreases end - start,
{
    if chunk_size <= 0 || start >= end {
        Seq::empty()
    } else {
        seq![(start, spec_chunk_end(start, chunk_size, end))] + spec_plan(
            spec_chunk_end(start, chunk_size, end),
            end,
            chunk_size,
        )
    }
}

/// How many chunks the plan for `[start, end)` holds.
pub open spec fn spec_chunk_count(start: int, end: int, chunk_size: int) -> int {
    (end - start + chunk_size - 1) / chunk_size
}

/// The boundaries of the `i`-th chunk of the plan for `[start, end)`.
pub open spec fn spec_chunk_at(start: int, end: int, chunk_size: int, i: int) -> (int, int) {
    (start + i * chunk_size, spec_chunk_end(start + i * chunk_size, chunk_size, end))
}

/// The index of the chunk that carries byte `x` of the range.
pub open spec fn spec_chunk_index_of(start: int, chunk_size: int, x: int) -> int {
    (x - start) / chunk_size
}

/// Every chunk of the plan starts at `start + i * chunk_size`, and the plan
/// holds exactly `spec_chunk_count` chunks.
pub proof fn lemma_plan_index(start: int, end: int, chunk_size: int)
    requires
        0 < chunk_size,
        start <= end,
    ensures
        spec_plan(start, end, chunk_size).len() == spec_chunk_count(start, end, chunk_size),
        forall|i: int|
            0 <= i < spec_plan(start, end, chunk_size).len() ==> #[trigger] spec_plan(
                start,
                end,
                chunk_size,
            )[i] == spec_chunk_at(start, end, chunk_size, i),
    decreases end - start,
{
    let p = spec_plan(start, end, chunk_size);
    let c = chunk_size;
    if start >= end {
        lemma_basic_div(c - 1, c);
        assert(p.len() == 0);
    } else {
        let e = spec_chunk_end(start, c, end);
        let rec = spec_plan(e, end, c);
        lemma_plan_index(e, end, c);
        if start + c < end {
            // e == start + c; one full chunk, then the plan for [e, end).
            lemma_div_plus_one(end - e + c - 1, c);
            assert(p.len() == spec_chunk_count(start, end, c));
        } else {
            // e == end; the single final chunk.
            lemma_fundamental_div_mod_converse_div(end - start + c - 1, c, 1, end - start - 1);
            assert(p.len() == 1);
        }
        assert forall|i: int| 0 <= i < p.len() implies p[i] == spec_chunk_at(start, end, c, i) by {
            if i == 0 {
                assert(0 * c == 0);
                assert(p[0] == (start, e));
            } else {
                assert(p[i] == rec[i - 1]);
                assert(rec[i - 1] == spec_chunk_at(e, end, c, i - 1));
                assert(e == start + c);
                lemma_mul_is_distributive_add_other_way(c, i - 1, 1);
                assert((i - 1) * c + 1 * c == i * c);
                assert(e + (i - 1) * c == start + i * c);
            }
        }
    }
}

/// A chunk index within the plan begins strictly before the range's end.
pub proof fn lemma_chunk_start_in_range(start: int, end: int, chunk_size: int, i: int)
    requires
        0 < chunk_size,
        start <= end,
        0 <= i < spec_chunk_count(start, end, chunk_size),
    ensures
        0 <= i * chunk_size,
        start + i * chunk_size < end,
{
    let c = chunk_size;
    let n = end - start;
    let q = spec_chunk_count(start, end, c);
    lemma_mul_nonnegative(i, c);
    lemma_fundamental_div_mod(n + c - 1, c);
    lemma_mod_division_less_than_divisor(n + c - 1, c);
    assert(q * c <= n + c - 1) by {
        assert(n + c - 1 == c * q + (n + c - 1) % c);
        assert(c * q == q * c) by { vstd::arithmetic::mul::lemma_mul_is_commutative(c, q); }
    }
    lemma_mul_inequality(i + 1, q, c);
    lemma_mul_is_distributive_add_other_way(c, i, 1);
    assert(i * c + c == (i + 1) * c);
    assert(i * c + c <= q * c);
}

/// The planned chunks are non-empty, lie inside `[start, end)`, are
/// contiguous and strictly increasing, begin at `start`, end at `end`, and
/// every byte of the range falls into exactly the chunk
/// `spec_chunk_index_of` names: the plan's union is exactly `[start, end)`.
pub proof fn lemma_plan_covers_range(start: int, end: int, chunk_size: int)
    requires
        0 < chunk_size,
        start <= end,
    ensures
        forall|i: int|
            0 <= i < spec_plan(start, end, chunk_size).len() ==> (#[trigger] spec_plan(
                start,
                end,
                chunk_size,
            )[i]).0 < spec_plan(start, end, chunk_size)[i].1,
        forall|i: int|
            0 <= i < spec_plan(start, end, chunk_size).len() ==> start <= (#[trigger] spec_plan(
                start,
                end,
                chunk_size,
            )[i]).0 && spec_plan(start, end, chunk_size)[i].1 <= end,
        forall|i: int|
            0 <= i && i + 1 < spec_plan(start, end, chunk_size).len() ==> (#[trigger] spec_plan(
                start,
                end,
                chunk_size,
            )[i]).1 == spec_plan(start, end, chunk_size)[i + 1].0,
        forall|i: int, j: int|
            0 <= i < j < spec_plan(start, end, chunk_size).len() ==> (#[trigger] spec_plan(
                start,
                end,
                chunk_size,
            )[i]).1 <= (#[trigger] spec_plan(start, end, chunk_size)[j]).0,
        spec_plan(start, end, chunk_size).len() > 0 ==> spec_plan(start, end, chunk_size)[0].0
            == start,
        spec_plan(start, end, chunk_size).len() > 0 ==> spec_plan(start, end, chunk_size)[spec_plan(
            start,
            end,
            chunk_size,
        ).len() - 1].1 == end,
        forall|x: int|
            #![trigger spec_chunk_index_of(start, chunk_size, x)]
            start <= x < end ==> {
                let i = spec_chunk_index_of(start, chunk_size, x);
                &&& 0 <= i < spec_plan(start, end, chunk_size).len()
                &&& spec_plan(start, end, chunk_size)[i].0 <= x
                &&& x < spec_plan(start, end, chunk_size)[i].1
            },
{
    let p = spec_plan(start, end, chunk_size);
    let c = chunk_size;
    let n = end - start;
    lemma_plan_index(start, end, c);
    assert forall|i: int| 0 <= i < p.len() implies p[i].0 < p[i].1 && start <= p[i].0 && p[i].1
        <= end by {
        lemma_chunk_start_in_range(start, end, c, i);
    }
    assert forall|i: int| 0 <= i && i + 1 < p.len() implies p[i].1 == p[i + 1].0 by {
        lemma_chunk_start_in_range(start, end, c, i + 1);
        lemma_mul_is_distributive_add_other_way(c, i, 1);
        assert(i * c + 1 * c == (i + 1) * c);
        // The chunk after `i` still starts before `end`, so chunk `i` is full.
        assert(start + i * c + c == start + (i + 1) * c < end);
    }
    assert forall|i: int, j: int| 0 <= i < j < p.len() implies p[i].1 <= p[j].0 by {
        lemma_chunk_start_in_range(start, end, c, j);
        lemma_mul_is_distributive_add_other_way(c, i, 1);
        assert(i * c + 1 * c == (i + 1) * c);
        lemma_mul_inequality(i + 1, j, c);
        assert(start + i * c + c == start + (i + 1) * c <= start + j * c);
    }
    if p.len() > 0 {
        assert(0 * c == 0);
        lemma_chunk_start_in_range(start, end, c, p.len() - 1);
        // The last chunk reaches `end`: `spec_chunk_count * c >= n`.
        lemma_fundamental_div_mod(n + c - 1, c);
        lemma_mod_division_less_than_divisor(n + c - 1, c);
        assert(p.len() * c >= n) by {
            assert(n + c - 1 == c * p.len() + (n + c - 1) % c);
            vstd::arithmetic::mul::lemma_mul_is_commutative(c, p.len() as int);
        }
        lemma_mul_is_distributive_add_other_way(c, p.len() - 1, 1);
        assert((p.len() - 1) * c + 1 * c == p.len() * c);
        assert(start + (p.len() - 1) * c + c >= end);
    }
    assert forall|x: int|
        #![trigger spec_chunk_index_of(start, c, x)]
        start <= x < end implies {
        let i = spec_chunk_index_of(start, c, x);
        &&& 0 <= i < p.len()
        &&& p[i].0 <= x
        &&& x < p[i].1
    } by {
        let y = x - start;
        let i = y / c;
        lemma_div_pos_is_pos(y, c);
        lemma_fundamental_div_mod(y, c);
        lemma_mod_division_less_than_divisor(y, c);
        assert(y == c * i + y % c);
        vstd::arithmetic::mul::lemma_mul_is_commutative(c, i);
        // x sits inside chunk i.
        assert(start + i * c <= x < start + i * c + c);
        // i is a valid plan index.
        lemma_div_is_ordered(y, n - 1, c);
        lemma_div_plus_one(n - 1, c);
        assert(i <= (n - 1) / c);
        assert(spec_chunk_count(start, end, c) == 1 + (n - 1) / c);
    }
}

/// An empty range plans zero chunks.
pub proof fn lemma_plan_empty_range(start: int, chunk_size: int)
    ensures
        spec_plan(start, start, chunk_size) == Seq::<(int, int)>::empty(),
{
}

/// When the range's length is an exact multiple of `chunk_size`, the plan
/// holds `(end - start) / chunk_size` chunks and every one is full-size: no
/// short final chunk occurs.
pub proof fn lemma_plan_exact_multiple(start: int, end: int, chunk_size: int)
    requires
        0 < chunk_size,
        start <= end,
        (end - start) % chunk_size == 0,
    ensures
        spec_plan(start, end, chunk_size).len() == (end - start) / chunk_size,
        forall|i: int|
            0 <= i < spec_plan(start, end, chunk_size).len() ==> (#[trigger] spec_plan(
                start,
                end,
                chunk_size,
            )[i]).1 - spec_plan(start, end, chunk_size)[i].0 == chunk_size,
{
    let p = spec_plan(start, end, chunk_size);
    let c = chunk_size;
    let n = end - start;
    let k = n / c;
    lemma_plan_index(start, end, c);
    lemma_fundamental_div_mod(n, c);
    assert(n == k * c) by {
        vstd::arithmetic::mul::lemma_mul_is_commutative(c, k);
    }
    lemma_div_pos_is_pos(n, c);
    if n == 0 {
        lemma_basic_div(c - 1, c);
        assert(p.len() == 0);
    } else {
        lemma_fundamental_div_mod_converse_div(n + c - 1, c, k, c - 1);
        assert(p.len() == k);
    }
    assert forall|i: int| 0 <= i < p.len() implies (#[trigger] p[i]).1 - p[i].0 == c by {
        lemma_chunk_start_in_range(start, end, c, i);
        lemma_mul_is_distributive_add_other_way(c, i, 1);
        assert(i * c + 1 * c == (i + 1) * c);
        lemma_mul_inequality(i + 1, k, c);
        assert(start + i * c + c == start + (i + 1) * c <= start + k * c == end);
    }
}

/// When the range's length is not a multiple of `chunk_size`, every chunk but
/// the last is full-size and exactly one short final chunk, of size
/// `(end - start) % chunk_size`, occurs last.
pub proof fn lemma_plan_remainder(start: int, end: int, chunk_size: int)
    requires
        0 < chunk_size,
        start <= end,
        (end - start) % chunk_size != 0,
    ensures
        spec_plan(start, end, chunk_size).len() == (end - start) / chunk_size + 1,
        forall|i: int|
            0 <= i < spec_plan(start, end, chunk_size).len() - 1 ==> (#[trigger] spec_plan(
                start,
                end,
                chunk_size,
            )[i]).1 - spec_plan(start, end, chunk_size)[i].0 == chunk_size,
        spec_plan(start, end, chunk_size).len() > 0,
        spec_plan(start, end, chunk_size)[spec_plan(start, end, chunk_size).len() - 1].1
            - spec_plan(start, end, chunk_size)[spec_plan(start, end, chunk_size).len() - 1].0 == (
        end - start) % chunk_size,
{
    let p = spec_plan(start, end, chunk_size);
    let c = chunk_size;
    let n = end - start;
    let k = n / c;
    let r = n % c;
    lemma_plan_index(start, end, c);
    lemma_fundamental_div_mod(n, c);
    lemma_mod_division_less_than_divisor(n, c);
    assert(n == k * c + r) by {
        vstd::arithmetic::mul::lemma_mul_is_commutative(c, k);
    }
    lemma_div_pos_is_pos(n, c);
    assert(p.len() == k + 1) by {
        lemma_mul_is_distributive_add_other_way(c, k, 1);
        assert(k * c + 1 * c == (k + 1) * c);
        lemma_fundamental_div_mod_converse_div(n + c - 1, c, k + 1, r - 1);
    }
    assert forall|i: int| 0 <= i < p.len() - 1 implies (#[trigger] p[i]).1 - p[i].0 == c by {
        lemma_chunk_start_in_range(start, end, c, i);
        lemma_mul_is_distributive_add_other_way(c, i, 1);
        assert(i * c + 1 * c == (i + 1) * c);
        lemma_mul_inequality(i + 1, k, c);
        assert(start + i * c + c == start + (i + 1) * c <= start + k * c < end);
    }
    lemma_chunk_start_in_range(start, end, c, k);
    assert(p[k as int].0 == start + k * c);
    assert(end - (start + k * c) == r);
}

/// Computes `spec_chunk_end` without overflow.
pub fn next_chunk_end(cursor: u64, chunk_size: u64, range_end: u64) -> (r: u64)
    requires
        cursor <= range_end,
    ensures
        r == spec_chunk_end(cursor as int, chunk_size as int, range_end as int),
{
    if chunk_size < range_end - cursor {
        cursor + chunk_size
    } else {
        range_end
    }
}

/// Computes the whole plan as a vector of `(offset_start, offset_end)` pairs,
/// in upload order.
pub fn plan_chunks(start: u64, end: u64, chunk_size: u64) -> (r: Vec<(u64, u64)>)
    requires
        0 < chunk_size,
        start <= end,
    ensures
        r@.len() == spec_plan(start as int, end as int, chunk_size as int).len(),
        forall|i: int|
            0 <= i < r@.len() ==> ((#[trigger] r@[i]).0 as int, r@[i].1 as int) == spec_plan(
                start as int,
                end as int,
                chunk_size as int,
            )[i],
{
    let ghost p = spec_plan(start as int, end as int, chunk_size as int);
    proof {
        lemma_plan_index(start as int, end as int, chunk_size as int);
        lemma_plan_covers_range(start as int, end as int, chunk_size as int);
    }
    let mut r: Vec<(u64, u64)> = Vec::new();
    let mut cursor: u64 = start;
    while cursor < end
        invariant
            0 < chunk_size,
            start <= cursor <= end,
            r@.len() <= p.len(),
            forall|i: int| 0 <= i < r@.len() ==> ((#[trigger] r@[i]).0 as int, r@[i].1 as int) == p[i],
            r@.len() < p.len() ==> cursor == p[r@.len() as int].0,
            r@.len() == p.len() ==> cursor == end,
            p == spec_plan(start as int, end as int, chunk_size as int),
            spec_plan(start as int, end as int, chunk_size as int).len() == spec_chunk_count(
                start as int,
                end as int,
                chunk_size as int,
            ),
            forall|i: int|
                0 <= i < p.len() ==> #[trigger] p[i] == spec_chunk_at(
                    start as int,
                    end as int,
                    chunk_size as int,
                    i,
                ),
            forall|i: int| 0 <= i < p.len() ==> (#[trigger] p[i]).0 < p[i].1 && p[i].1 <= end,
            p.len() > 0 ==> p[p.len() - 1].1 == end,
        decreases end - cursor,
    {
        let chunk_end = next_chunk_end(cursor, chunk_size, end);
        proof {
            let j = r@.len() as int;
            assert(j < p.len());
            assert(p[j].0 == cursor);
            assert(p[j].1 == spec_chunk_end(cursor as int, chunk_size as int, end as int));
            if j + 1 < p.len() {
                lemma_chunk_start_in_range(start as int, end as int, chunk_size as int, j + 1);
                lemma_mul_is_distributive_add_other_way(chunk_size as int, j, 1);
                assert(j * chunk_size + 1 * chunk_size == (j + 1) * chunk_size);
                // The next chunk still starts before `end`, so this one is full.
                assert(p[j + 1].0 == cursor + chunk_size < end);
            }
        }
        r.push((cursor, chunk_end));
        cursor = chunk_end;
    }
    proof {
        if r@.len() < p.len() {
            lemma_chunk_start_in_range(
                start as int,
                end as int,
                chunk_size as int,
                r@.len() as int,
            );
        }
    }
    r
}

} // verus!
