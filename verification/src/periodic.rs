//! Periodic columns: the repeating sequences of flags and values that select
//! which constraints are active on a row.
//!
//! A constraint system is put together from gadgets that each bring their own
//! periodic columns. [`stitch`] places the columns of one gadget among those
//! of the whole program.

use crate::field::Felt;
use vstd::prelude::*;

verus! {

/// The view of a table of columns.
pub open spec fn columns_view(columns: Seq<Vec<Felt>>) -> Seq<Seq<Felt>> {
    Seq::new(columns.len(), |j: int| columns[j]@)
}

/// Every pair of the map names a column of `additions` and one of `columns`.
pub open spec fn spec_map_in_range(map: Seq<(usize, usize)>, additions: nat, columns: nat) -> bool {
    forall|k: int| 0 <= k < map.len() ==> (#[trigger] map[k]).0 < additions && map[k].1 < columns
}

/// The columns after, for each pair `(from, to)` of the map in turn, column
/// `from` of `additions` was appended to column `to`.
pub open spec fn spec_stitch(
    columns: Seq<Seq<Felt>>,
    additions: Seq<Seq<Felt>>,
    map: Seq<(usize, usize)>,
) -> Seq<Seq<Felt>>
    decreases map.len(),
{
    if map.len() == 0 {
        columns
    } else {
        let before = spec_stitch(columns, additions, map.drop_last());
        let from = map.last().0 as int;
        let to = map.last().1 as int;
        before.update(to, before[to] + additions[from])
    }
}

/// Appends, for each pair `(from, to)` of the map in turn, column `from` of
/// `additions` to column `to` of `columns`.
pub fn stitch(columns: &mut Vec<Vec<Felt>>, additions: &Vec<Vec<Felt>>, map: &Vec<(usize, usize)>)
    requires
        spec_map_in_range(map@, additions.len() as nat, old(columns).len() as nat),
    ensures
        columns_view(final(columns)@) == spec_stitch(
            columns_view(old(columns)@),
            columns_view(additions@),
            map@,
        ),
        final(columns).len() == old(columns).len(),
{
    let n = map.len();
    let mut k: usize = 0;
    assert(map@.subrange(0, 0) =~= Seq::<(usize, usize)>::empty());
    while k < n
        invariant
            n == map.len(),
            k <= n,
            columns.len() == old(columns).len(),
            spec_map_in_range(map@, additions.len() as nat, columns.len() as nat),
            columns_view(columns@) == spec_stitch(
                columns_view(old(columns)@),
                columns_view(additions@),
                map@.subrange(0, k as int),
            ),
        decreases n - k,
    {
        let from = map[k].0;
        let to = map[k].1;
        let ghost before = columns_view(columns@);
        let mut column: Vec<Felt> = Vec::new();
        column.extend_from_slice(columns[to].as_slice());
        column.extend_from_slice(additions[from].as_slice());
        columns[to] = column;
        proof {
            let prefix = map@.subrange(0, k + 1);
            assert(prefix.drop_last() =~= map@.subrange(0, k as int));
            assert(prefix.last() == map@[k as int]);
            assert(columns_view(columns@) =~~= before.update(
                to as int,
                before[to as int] + columns_view(additions@)[from as int],
            ));
        }
        k += 1;
    }
    assert(map@.subrange(0, n as int) =~= map@);
}

/// The value of a periodic column on row `step`.
pub open spec fn spec_value_at(column: Seq<Felt>, step: int) -> Felt {
    column[step % (column.len() as int)]
}

/// The values of periodic columns on row `step`.
pub open spec fn spec_values_at(columns: Seq<Seq<Felt>>, step: int) -> Seq<Felt> {
    Seq::new(columns.len(), |c: int| spec_value_at(columns[c], step))
}

/// The value of a periodic column on row `step`.
pub fn value_at(column: &[Felt], step: usize) -> (r: Felt)
    requires
        column.len() > 0,
    ensures
        r == spec_value_at(column@, step as int),
{
    column[step % column.len()]
}

/// No two pairs of the map name the same column of `columns`.
pub open spec fn spec_targets_distinct(map: Seq<(usize, usize)>) -> bool {
    forall|i: int, j: int| 0 <= i < j < map.len() ==> (#[trigger] map[i]).1 != (#[trigger] map[j]).1
}

/// Some pair of the map names column `c` of `columns`.
pub open spec fn spec_is_target(map: Seq<(usize, usize)>, c: int) -> bool {
    exists|k: int| 0 <= k < map.len() && (#[trigger] map[k]).1 == c
}

/// Stitching into empty columns places the additions: where the map names
/// each target once and every target is empty, each target ends up as the
/// column that the map assigns to it, and every other column stays as it
/// was.
pub proof fn lemma_stitch_into_empty(
    columns: Seq<Seq<Felt>>,
    additions: Seq<Seq<Felt>>,
    map: Seq<(usize, usize)>,
)
    requires
        spec_map_in_range(map, additions.len(), columns.len()),
        spec_targets_distinct(map),
        forall|k: int| 0 <= k < map.len() ==> columns[(#[trigger] map[k]).1 as int].len() == 0,
    ensures
        spec_stitch(columns, additions, map).len() == columns.len(),
        forall|k: int|
            0 <= k < map.len() ==> spec_stitch(columns, additions, map)[(#[trigger] map[k]).1 as int]
                == additions[map[k].0 as int],
        forall|c: int|
            0 <= c < columns.len() && !spec_is_target(map, c) ==> #[trigger] spec_stitch(
                columns,
                additions,
                map,
            )[c] == columns[c],
    decreases map.len(),
{
    if map.len() > 0 {
        let prefix = map.drop_last();
        let before = spec_stitch(columns, additions, prefix);
        let from = map.last().0 as int;
        let to = map.last().1 as int;
        let after = spec_stitch(columns, additions, map);
        assert forall|k: int| 0 <= k < prefix.len() implies (#[trigger] prefix[k]).0
            < additions.len() && prefix[k].1 < columns.len() && columns[prefix[k].1 as int].len()
            == 0 by {
            assert(prefix[k] == map[k]);
        }
        assert forall|i: int, j: int| 0 <= i < j < prefix.len() implies (#[trigger] prefix[i]).1 != (
        #[trigger] prefix[j]).1 by {
            assert(prefix[i] == map[i]);
            assert(prefix[j] == map[j]);
        }
        lemma_stitch_into_empty(columns, additions, prefix);
        assert(!spec_is_target(prefix, to)) by {
            if spec_is_target(prefix, to) {
                let k = choose|k: int| 0 <= k < prefix.len() && (#[trigger] prefix[k]).1 == to;
                assert(prefix[k] == map[k]);
                assert(map[map.len() - 1].1 == to);
            }
        }
        assert(map[map.len() - 1] == map.last());
        assert(before[to] == columns[to]);
        assert(columns[to] =~= Seq::<Felt>::empty());
        assert(before[to] + additions[from] =~= additions[from]);
        assert forall|k: int| 0 <= k < map.len() implies after[(#[trigger] map[k]).1 as int]
            == additions[map[k].0 as int] by {
            if k < map.len() - 1 {
                assert(prefix[k] == map[k]);
            }
        }
        assert forall|c: int|
            0 <= c < columns.len() && !spec_is_target(map, c) implies #[trigger] after[c]
            == columns[c] by {
            assert(c != to);
            assert(!spec_is_target(prefix, c)) by {
                if spec_is_target(prefix, c) {
                    let k = choose|k: int| 0 <= k < prefix.len() && (#[trigger] prefix[k]).1 == c;
                    assert(prefix[k] == map[k]);
                }
            }
        }
    }
}

/// The map that sends column `k` of the additions to column `first + k`.
pub open spec fn spec_index_map(first: int, count: nat) -> Seq<(usize, usize)> {
    Seq::new(count, |k: int| (k as usize, (first + k) as usize))
}

/// The map that sends column `k` of the additions to column `first + k`,
/// for each `k` below `count`.
pub fn index_map(first: usize, count: usize) -> (r: Vec<(usize, usize)>)
    requires
        first + count <= usize::MAX,
    ensures
        r@ == spec_index_map(first as int, count as nat),
{
    let mut r: Vec<(usize, usize)> = Vec::with_capacity(count);
    let mut k: usize = 0;
    while k < count
        invariant
            first + count <= usize::MAX,
            k <= count,
            r.len() == k,
            forall|j: int| 0 <= j < k ==> r@[j] == (j as usize, (first + j) as usize),
        decreases count - k,
    {
        r.push((k, first + k));
        k += 1;
    }
    assert(r@ =~= spec_index_map(first as int, count as nat));
    r
}

/// A column of `len` flags: one on the rows `i` of `start..end` with
/// `i % modulus < threshold`, zero elsewhere.
pub open spec fn spec_flag_column(
    len: nat,
    start: int,
    end: int,
    modulus: int,
    threshold: int,
) -> Seq<Felt> {
    Seq::new(len, |i: int| Felt::spec_from_bool(start <= i < end && i % modulus < threshold))
}

/// A column of `len` flags: one on the rows `i` of `start..end` with
/// `i % modulus < threshold`, zero elsewhere.
pub fn flag_column(len: usize, start: usize, end: usize, modulus: usize, threshold: usize) -> (r: Vec<
    Felt,
>)
    requires
        modulus > 0,
    ensures
        r@ == spec_flag_column(
            len as nat,
            start as int,
            end as int,
            modulus as int,
            threshold as int,
        ),
{
    let mut r: Vec<Felt> = Vec::with_capacity(len);
    let mut i: usize = 0;
    while i < len
        invariant
            modulus > 0,
            i <= len,
            r.len() == i,
            forall|j: int|
                0 <= j < i ==> r@[j] == Felt::spec_from_bool(
                    start <= j < end && j % (modulus as int) < threshold,
                ),
        decreases len - i,
    {
        r.push(Felt::from_bool(start <= i && i < end && i % modulus < threshold));
        i += 1;
    }
    assert(r@ =~= spec_flag_column(
        len as nat,
        start as int,
        end as int,
        modulus as int,
        threshold as int,
    ));
    r
}

/// Column `i` of a table with one row for each item, held over the cycle of
/// the item.
pub open spec fn spec_spread_column(table: Seq<Seq<Felt>>, i: int, cycle: nat) -> Seq<Felt> {
    Seq::new((table.len() * cycle) as nat, |r: int| table[r / (cycle as int)][i])
}

/// Column `i` of a table with one row for each item, as a column of the
/// trace: the value of each item is held over the `cycle` rows of the item.
pub fn spread_column(table: &Vec<Vec<Felt>>, i: usize, cycle: usize) -> (r: Vec<Felt>)
    requires
        cycle > 0,
        table.len() * cycle <= usize::MAX,
        forall|k: int| 0 <= k < table.len() ==> i < (#[trigger] table@[k]).len(),
    ensures
        r@ == spec_spread_column(columns_view(table@), i as int, cycle as nat),
{
    let n = table.len();
    let mut r: Vec<Felt> = Vec::new();
    let mut k: usize = 0;
    while k < n
        invariant
            n == table.len(),
            cycle > 0,
            n * cycle <= usize::MAX,
            forall|k: int| 0 <= k < table.len() ==> i < (#[trigger] table@[k]).len(),
            k <= n,
            r.len() == k * cycle,
            forall|j: int| 0 <= j < r.len() ==> r@[j] == table@[j / (cycle as int)]@[i as int],
        decreases n - k,
    {
        let value = table[k][i];
        let mut step: usize = 0;
        while step < cycle
            invariant
                n == table.len(),
                cycle > 0,
                n * cycle <= usize::MAX,
                k < n,
                step <= cycle,
                value == table@[k as int]@[i as int],
                r.len() == k * cycle + step,
                forall|j: int| 0 <= j < r.len() ==> r@[j] == table@[j / (cycle as int)]@[i as int],
            decreases cycle - step,
        {
            proof {
                crate::air::lemma_row_of_cycle(k as int, cycle as int, step as int);
                assert((k + 1) * cycle <= n * cycle) by (nonlinear_arith)
                    requires
                        k < n,
                        cycle > 0,
                ;
            }
            r.push(value);
            step += 1;
        }
        proof {
            assert((k + 1) * cycle == k * cycle + cycle) by (nonlinear_arith);
        }
        k += 1;
    }
    proof {
        let expected = spec_spread_column(columns_view(table@), i as int, cycle as nat);
        assert forall|j: int| 0 <= j < r.len() implies r@[j] == expected[j] by {
            assert(cycle * n == n * cycle) by (nonlinear_arith);
            vstd::arithmetic::div_mod::lemma_multiply_divide_lt(j, cycle as int, n as int);
            vstd::arithmetic::div_mod::lemma_div_pos_is_pos(j, cycle as int);
        }
        assert(r@ =~= expected);
    }
    r
}

/// The first `width` columns of a table with one row for each item, each as
/// a column of the trace.
pub fn columns_of(table: &Vec<Vec<Felt>>, width: usize, cycle: usize) -> (r: Vec<Vec<Felt>>)
    requires
        cycle > 0,
        table.len() * cycle <= usize::MAX,
        forall|k: int| 0 <= k < table.len() ==> (#[trigger] table@[k]).len() == width,
    ensures
        r.len() == width,
        forall|i: int|
            0 <= i < width ==> (#[trigger] r@[i])@ == spec_spread_column(
                columns_view(table@),
                i,
                cycle as nat,
            ),
{
    let mut r: Vec<Vec<Felt>> = Vec::with_capacity(width);
    let mut i: usize = 0;
    while i < width
        invariant
            cycle > 0,
            table.len() * cycle <= usize::MAX,
            forall|k: int| 0 <= k < table.len() ==> (#[trigger] table@[k]).len() == width,
            i <= width,
            r.len() == i,
            forall|j: int|
                0 <= j < i ==> (#[trigger] r@[j])@ == spec_spread_column(
                    columns_view(table@),
                    j,
                    cycle as nat,
                ),
        decreases width - i,
    {
        r.push(spread_column(table, i, cycle));
        i += 1;
    }
    r
}

} // verus!
