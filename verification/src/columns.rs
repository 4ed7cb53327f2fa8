//! Row groups and column projection. Records are chunked into bounded row
//! groups, and each group is projected into one column chunk per schema
//! column: the values of that column down the group, with definition
//! levels for OPTIONAL columns. Everything here is stated over the cell
//! representation of records, so the file content is pinned down as a
//! function of the input rows alone.

use vstd::prelude::*;
use vstd::pervasive::unreached;
use crate::schema_decl::col_required;

verus! {

/// One column chunk of one row group: the column's present values down the
/// group and, for an OPTIONAL column, one definition level per row (1 where
/// the row has a value, 0 where it is null). A REQUIRED column has no
/// levels.
#[derive(Debug, Clone)]
pub struct ColumnChunk {
    pub values: Vec<String>,
    pub def_levels: Option<Vec<i16>>,
}

/// The mathematical content of a column chunk.
pub open spec fn chunk_view(c: ColumnChunk) -> (Seq<Seq<char>>, Option<Seq<i16>>) {
    (
        c.values.deep_view(),
        match c.def_levels {
            Some(v) => Some(v@),
            None => None,
        },
    )
}

pub open spec fn chunks_view(cs: Seq<ColumnChunk>) -> Seq<(Seq<Seq<char>>, Option<Seq<i16>>)> {
    cs.map_values(|c: ColumnChunk| chunk_view(c))
}

/// A cell row fit for projection: 17 cells with every REQUIRED one present.
pub open spec fn cells_wf(row: Seq<Option<Seq<char>>>) -> bool {
    &&& row.len() == 17
    &&& forall|j: int| 0 <= j < 17 && col_required(j) ==> (#[trigger] row[j]) is Some
}

/// The present values of column j down a group, in row order.
pub open spec fn col_values(group: Seq<Seq<Option<Seq<char>>>>, j: int) -> Seq<Seq<char>>
    decreases group.len(),
{
    if group.len() == 0 {
        Seq::empty()
    } else {
        col_values(group.drop_last(), j) + (match group.last()[j] {
            Some(s) => seq![s],
            None => Seq::empty(),
        })
    }
}

/// The definition levels of column j down a group: 1 where present, 0
/// where null.
pub open spec fn col_levels(group: Seq<Seq<Option<Seq<char>>>>, j: int) -> Seq<i16> {
    group.map_values(|row: Seq<Option<Seq<char>>>| if row[j] is Some { 1i16 } else { 0i16 })
}

/// What column j of a group must hold: values only for a REQUIRED column,
/// values plus levels for an OPTIONAL one.
pub open spec fn column_cells(group: Seq<Seq<Option<Seq<char>>>>, j: int) -> (
    Seq<Seq<char>>,
    Option<Seq<i16>>,
) {
    if col_required(j) {
        (col_values(group, j), None)
    } else {
        (col_values(group, j), Some(col_levels(group, j)))
    }
}

/// All 17 column chunks of one row group.
pub open spec fn columns_of_group(group: Seq<Seq<Option<Seq<char>>>>) -> Seq<
    (Seq<Seq<char>>, Option<Seq<i16>>),
> {
    Seq::new(17, |j: int| column_cells(group, j))
}

/// s cut into consecutive groups of g, the last group possibly shorter;
/// empty input gives no groups.
pub open spec fn chunk_spec<A>(s: Seq<A>, g: int) -> Seq<Seq<A>>
    decreases s.len(),
{
    if g < 1 || s.len() == 0 {
        Seq::empty()
    } else if s.len() <= g {
        seq![s]
    } else {
        seq![s.take(g)] + chunk_spec(s.skip(g), g)
    }
}

/// The groups laid back to back.
pub open spec fn concat_groups<A>(gs: Seq<Seq<A>>) -> Seq<A>
    decreases gs.len(),
{
    if gs.len() == 0 {
        Seq::empty()
    } else {
        gs.first() + concat_groups(gs.drop_first())
    }
}

/// Law: chunking loses and reorders nothing — the groups laid back to back
/// are exactly the input sequence.
pub proof fn lemma_chunk_concat<A>(s: Seq<A>, g: int)
    requires
        g >= 1,
    ensures
        concat_groups(chunk_spec(s, g)) == s,
    decreases s.len(),
{
    if s.len() == 0 {
        assert(concat_groups(chunk_spec(s, g)) =~= s);
    } else if s.len() <= g {
        let cs = chunk_spec(s, g);
        assert(cs == seq![s]);
        assert(cs.first() == s);
        assert(cs.drop_first() =~= Seq::<Seq<A>>::empty());
        assert(concat_groups(Seq::<Seq<A>>::empty()) == Seq::<A>::empty());
        assert(concat_groups(cs) =~= s);
    } else {
        lemma_chunk_concat(s.skip(g), g);
        let cs = chunk_spec(s, g);
        assert(cs.first() == s.take(g));
        assert(cs.drop_first() =~= chunk_spec(s.skip(g), g));
        assert(s.take(g) + s.skip(g) =~= s);
    }
}

/// Law (row-group bound): every group chunking produces is non-empty and
/// no larger than the configured group size.
pub proof fn lemma_chunk_bounds<A>(s: Seq<A>, g: int, k: int)
    requires
        g >= 1,
        0 <= k < chunk_spec(s, g).len(),
    ensures
        0 < chunk_spec(s, g)[k].len() <= g,
    decreases s.len(),
{
    if s.len() == 0 {
    } else if s.len() <= g {
    } else {
        if k > 0 {
            lemma_chunk_bounds(s.skip(g), g, k - 1);
        }
    }
}

/// Law (row-group boundary): one row more than the group size gives exactly
/// two groups, a full one and one of a single row.
pub proof fn lemma_row_group_boundary<A>(s: Seq<A>, g: int)
    requires
        g >= 1,
        s.len() == g + 1,
    ensures
        chunk_spec(s, g).len() == 2,
        chunk_spec(s, g)[0].len() == g,
        chunk_spec(s, g)[1].len() == 1,
{
    assert(s.skip(g).len() == 1);
    assert(chunk_spec(s.skip(g), g) == seq![s.skip(g)]);
}

/// How many of an optional column's definition levels mark a present value.
pub open spec fn level_count(levels: Seq<i16>) -> int
    decreases levels.len(),
{
    if levels.len() == 0 {
        0
    } else {
        level_count(levels.drop_last()) + (if levels.last() == 1i16 {
            1int
        } else {
            0int
        })
    }
}

/// A column chunk consistent with a row group of n rows at position j: a
/// REQUIRED column has one value per row and no levels; an OPTIONAL column
/// has one level (0 or 1) per row and exactly one value per 1-level. These
/// are the conditions under which parquet's write_batch accepts the chunk.
pub open spec fn chunk_ok(c: (Seq<Seq<char>>, Option<Seq<i16>>), j: int, n: int) -> bool {
    if col_required(j) {
        c.1 is None && c.0.len() == n
    } else {
        match c.1 {
            Some(l) => l.len() == n && c.0.len() == level_count(l) && (forall|i: int|
                0 <= i < l.len() ==> l[i] == 0i16 || l[i] == 1i16),
            None => false,
        }
    }
}

/// A full row group's chunks, consistent with one row count n.
pub open spec fn chunks_ok(cs: Seq<(Seq<Seq<char>>, Option<Seq<i16>>)>, n: int) -> bool {
    cs.len() == 17 && n >= 0 && (forall|j: int| 0 <= j < 17 ==> chunk_ok(#[trigger] cs[j], j, n))
}

/// An optional column holds exactly one value per 1-level.
proof fn lemma_opt_col_count(g: Seq<Seq<Option<Seq<char>>>>, j: int)
    ensures
        col_values(g, j).len() == level_count(col_levels(g, j)),
    decreases g.len(),
{
    if g.len() == 0 {
    } else {
        lemma_opt_col_count(g.drop_last(), j);
        let l = col_levels(g, j);
        assert(l.drop_last() =~= col_levels(g.drop_last(), j));
        assert(l.last() == (if g.last()[j] is Some {
            1i16
        } else {
            0i16
        }));
    }
}

/// The projection of a well-formed row group always yields chunks that the
/// columnar writer accepts.
pub proof fn lemma_columns_ok(g: Seq<Seq<Option<Seq<char>>>>)
    requires
        forall|i: int| 0 <= i < g.len() ==> cells_wf(#[trigger] g[i]),
    ensures
        chunks_ok(columns_of_group(g), g.len() as int),
{
    assert forall|j: int| 0 <= j < 17 implies chunk_ok(
        #[trigger] columns_of_group(g)[j],
        j,
        g.len() as int,
    ) by {
        assert(columns_of_group(g)[j] == column_cells(g, j));
        if col_required(j) {
            lemma_req_col_values(g, j);
        } else {
            lemma_opt_col_count(g, j);
            let l = col_levels(g, j);
            assert(l.len() == g.len());
            assert forall|i: int| 0 <= i < l.len() implies l[i] == 0i16 || l[i] == 1i16 by {
                assert(l[i] == (if g[i][j] is Some {
                    1i16
                } else {
                    0i16
                }));
            }
        }
    }
}

/// Chunking a sequence whose first part is whole groups chunks each part
/// on its own.
pub proof fn lemma_chunk_aligned<A>(a: Seq<A>, b: Seq<A>, g: int)
    requires
        g >= 1,
        a.len() as int % g == 0,
    ensures
        chunk_spec(a + b, g) == chunk_spec(a, g) + chunk_spec(b, g),
    decreases a.len(),
{
    if a.len() == 0 {
        assert(a + b =~= b);
        assert(chunk_spec(a, g) + chunk_spec(b, g) =~= chunk_spec(b, g));
    } else {
        assert(a.len() >= g) by (nonlinear_arith)
            requires a.len() as int % g == 0 && a.len() > 0 && g >= 1;
        assert((a.len() - g) % g == 0) by (nonlinear_arith)
            requires a.len() as int % g == 0 && g >= 1 && a.len() >= g;
        lemma_chunk_aligned(a.skip(g), b, g);
        let ab = a + b;
        if ab.len() <= g {
            assert(b.len() == 0 && a.len() == g);
            assert(ab =~= a);
            assert(a.take(g) =~= a);
            assert(a.skip(g) =~= Seq::<A>::empty());
            assert(chunk_spec(b, g) =~= Seq::<Seq<A>>::empty());
            assert(chunk_spec(a + b, g) =~= chunk_spec(a, g) + chunk_spec(b, g));
        } else {
            assert(ab.take(g) =~= a.take(g));
            assert(ab.skip(g) =~= a.skip(g) + b);
            if a.len() == g {
                assert(a.take(g) =~= a);
                assert(a.skip(g) =~= Seq::<A>::empty());
                assert(chunk_spec(a, g) == seq![a]);
                assert(chunk_spec(a.skip(g), g) =~= Seq::<Seq<A>>::empty());
                assert(chunk_spec(a, g) =~= seq![a.take(g)] + chunk_spec(a.skip(g), g));
            } else {
                assert(chunk_spec(a, g) == seq![a.take(g)] + chunk_spec(a.skip(g), g));
            }
            assert(chunk_spec(a + b, g) =~= chunk_spec(a, g) + chunk_spec(b, g));
        }
    }
}

/// Chunking never yields more groups than elements.
pub proof fn lemma_chunk_count_le<A>(s: Seq<A>, g: int)
    requires
        g >= 1,
    ensures
        chunk_spec(s, g).len() <= s.len(),
    decreases s.len(),
{
    if s.len() == 0 {
    } else if s.len() <= g {
    } else {
        lemma_chunk_count_le(s.skip(g), g);
    }
}

/// Every element of every chunk is an element of the input sequence.
pub proof fn lemma_chunk_element<A>(s: Seq<A>, g: int, k: int, i: int)
    requires
        g >= 1,
        0 <= k < chunk_spec(s, g).len(),
        0 <= i < chunk_spec(s, g)[k].len(),
    ensures
        exists|n: int| 0 <= n < s.len() && chunk_spec(s, g)[k][i] == s[n],
    decreases s.len(),
{
    if s.len() == 0 {
    } else if s.len() <= g {
        assert(chunk_spec(s, g)[k][i] == s[i]);
    } else {
        if k == 0 {
            assert(chunk_spec(s, g)[0][i] == s[i]);
        } else {
            lemma_chunk_element(s.skip(g), g, k - 1, i);
            let n0 = choose|n: int|
                0 <= n < s.skip(g).len() && chunk_spec(s.skip(g), g)[k - 1][i] == s.skip(g)[n];
            assert(chunk_spec(s, g)[k][i] == s[n0 + g]);
        }
    }
}

/// The cells of any record are well formed for projection: 17 of them, the
/// REQUIRED ones present.
pub proof fn lemma_post_repr_wf(p: crate::record::FirehosePost)
    ensures
        cells_wf(crate::record::post_repr(p)),
{
    let row = crate::record::post_repr(p);
    assert forall|j: int| 0 <= j < 17 && col_required(j) implies (#[trigger] row[j]) is Some by {
        if j == 0 {
            assert(row[j] is Some);
        } else if j == 1 {
            assert(row[j] is Some);
        } else if j == 2 {
            assert(row[j] is Some);
        } else if j == 3 {
            assert(row[j] is Some);
        } else if j == 12 {
            assert(row[j] is Some);
        } else if j == 13 {
            assert(row[j] is Some);
        } else if j == 14 {
            assert(row[j] is Some);
        } else if j == 15 {
            assert(row[j] is Some);
        } else {
            assert(j == 16);
            assert(row[j] is Some);
        }
    }
}

/// For a REQUIRED column every cell is present, so the chunk has one value
/// per row: the cell's content.
proof fn lemma_req_col_values(g: Seq<Seq<Option<Seq<char>>>>, j: int)
    requires
        0 <= j < 17,
        col_required(j),
        forall|i: int| 0 <= i < g.len() ==> cells_wf(#[trigger] g[i]),
    ensures
        col_values(g, j).len() == g.len(),
        forall|i: int| 0 <= i < g.len() ==> col_values(g, j)[i] == (#[trigger] g[i][j]).unwrap(),
    decreases g.len(),
{
    if g.len() == 0 {
    } else {
        lemma_req_col_values(g.drop_last(), j);
        assert(cells_wf(g[g.len() - 1]));
        assert(g.last()[j] is Some);
        assert forall|i: int| 0 <= i < g.len() implies col_values(g, j)[i] == (
        #[trigger] g[i][j]).unwrap() by {
            if i < g.len() - 1 {
                assert(g.drop_last()[i] == g[i]);
                assert(col_values(g, j)[i] == col_values(g.drop_last(), j)[i]);
            }
        }
    }
}

/// For an OPTIONAL column, the values and definition levels of the chunk
/// together determine every cell of the column.
proof fn lemma_opt_col_inverse(
    g1: Seq<Seq<Option<Seq<char>>>>,
    g2: Seq<Seq<Option<Seq<char>>>>,
    j: int,
)
    requires
        g1.len() == g2.len(),
        col_values(g1, j) == col_values(g2, j),
        col_levels(g1, j) == col_levels(g2, j),
    ensures
        forall|i: int| 0 <= i < g1.len() ==> #[trigger] g1[i][j] == g2[i][j],
    decreases g1.len(),
{
    if g1.len() == 0 {
    } else {
        let d1 = g1.drop_last();
        let d2 = g2.drop_last();
        let n = g1.len() - 1;
        assert(g1.last() == g1[n]);
        assert(g2.last() == g2[n]);
        assert(col_levels(g1, j)[n] == (if g1[n][j] is Some { 1i16 } else { 0i16 }));
        assert(col_levels(g2, j)[n] == (if g2[n][j] is Some { 1i16 } else { 0i16 }));
        assert(col_levels(g1, j)[n] == col_levels(g2, j)[n]);
        assert(col_levels(d1, j) =~= col_levels(g1, j).take(n));
        assert(col_levels(d2, j) =~= col_levels(g2, j).take(n));
        if g1.last()[j] is Some {
            assert(g2.last()[j] is Some);
            let v1 = col_values(g1, j);
            let v2 = col_values(g2, j);
            assert(v1 == col_values(d1, j) + seq![g1.last()[j].unwrap()]);
            assert(v2 == col_values(d2, j) + seq![g2.last()[j].unwrap()]);
            assert(col_values(d1, j) =~= v1.drop_last());
            assert(col_values(d2, j) =~= v2.drop_last());
            assert(g1.last()[j].unwrap() == v1.last());
            assert(g1[n][j] == g2[n][j]);
            lemma_opt_col_inverse(d1, d2, j);
            assert forall|i: int| 0 <= i < g1.len() implies #[trigger] g1[i][j] == g2[i][j] by {
                if i < n {
                    assert(d1[i] == g1[i]);
                    assert(d2[i] == g2[i]);
                }
            }
        } else {
            assert(g2.last()[j] is None);
            assert(col_values(g1, j) == col_values(d1, j) + Seq::<Seq<char>>::empty());
            assert(col_values(g2, j) == col_values(d2, j) + Seq::<Seq<char>>::empty());
            assert(col_values(d1, j) =~= col_values(g1, j));
            assert(col_values(d2, j) =~= col_values(g2, j));
            lemma_opt_col_inverse(d1, d2, j);
            assert forall|i: int| 0 <= i < g1.len() implies #[trigger] g1[i][j] == g2[i][j] by {
                if i < n {
                    assert(d1[i] == g1[i]);
                    assert(d2[i] == g2[i]);
                }
            }
        }
    }
}

/// Law (the file loses nothing): two well-formed row groups with the same
/// column chunks hold the same cells row by row — the columnar projection
/// is injective, so what is written determines what was exported.
pub proof fn lemma_columns_determine_group(
    g1: Seq<Seq<Option<Seq<char>>>>,
    g2: Seq<Seq<Option<Seq<char>>>>,
)
    requires
        forall|i: int| 0 <= i < g1.len() ==> cells_wf(#[trigger] g1[i]),
        forall|i: int| 0 <= i < g2.len() ==> cells_wf(#[trigger] g2[i]),
        g1.len() == g2.len(),
        columns_of_group(g1) == columns_of_group(g2),
    ensures
        g1 == g2,
{
    assert forall|i: int| 0 <= i < g1.len() implies g1[i] == g2[i] by {
        assert forall|j: int| 0 <= j < 17 implies #[trigger] g1[i][j] == g2[i][j] by {
            assert(columns_of_group(g1)[j] == columns_of_group(g2)[j]);
            assert(column_cells(g1, j) == column_cells(g2, j));
            if col_required(j) {
                lemma_req_col_values(g1, j);
                lemma_req_col_values(g2, j);
                assert(g1[i][j] is Some && g2[i][j] is Some);
                assert(col_values(g1, j)[i] == col_values(g2, j)[i]);
                assert(g1[i][j].unwrap() == g2[i][j].unwrap());
            } else {
                lemma_opt_col_inverse(g1, g2, j);
            }
        }
        assert(g1[i] =~= g2[i]);
    }
    assert(g1 =~= g2);
}

fn clone_opt_string(o: &Option<String>) -> (r: Option<String>)
    ensures
        r == *o,
{
    match o {
        Some(s) => Some(s.clone()),
        None => None,
    }
}

fn clone_cells(row: &Vec<Option<String>>) -> (r: Vec<Option<String>>)
    ensures
        r@ == row@,
{
    let mut out: Vec<Option<String>> = Vec::new();
    let mut i: usize = 0;
    while i < row.len()
        invariant
            0 <= i <= row@.len(),
            out@ == row@.take(i as int),
        decreases row@.len() - i,
    {
        out.push(clone_opt_string(&row[i]));
        proof {
            assert(out@ =~= row@.take(i + 1));
        }
        i = i + 1;
    }
    proof {
        assert(row@.take(row@.len() as int) =~= row@);
    }
    out
}

/// Cuts the cell rows into consecutive row groups of at most g rows each,
/// so the sink's peak buffer is bounded by the group size.
pub fn chunk_rows(rows: &Vec<Vec<Option<String>>>, g: usize) -> (r: Vec<Vec<Vec<Option<String>>>>)
    requires
        g >= 1,
    ensures
        r.deep_view() == chunk_spec(rows.deep_view(), g as int),
{
    let ghost dv = rows.deep_view();
    let mut out: Vec<Vec<Vec<Option<String>>>> = Vec::new();
    let mut cur: Vec<Vec<Option<String>>> = Vec::new();
    let mut i: usize = 0;
    proof {
        assert(dv.skip(0) =~= dv);
        assert(cur.deep_view() =~= dv.subrange(0, 0));
        assert(out.deep_view() + chunk_spec(dv, g as int) =~= chunk_spec(dv, g as int));
    }
    while i < rows.len()
        invariant
            0 <= i <= rows@.len(),
            g >= 1,
            dv == rows.deep_view(),
            dv.len() == rows@.len(),
            cur@.len() < g,
            i - cur@.len() >= 0,
            cur.deep_view() =~= dv.subrange(i - cur@.len(), i as int),
            chunk_spec(dv, g as int) == out.deep_view() + chunk_spec(
                dv.skip(i - cur@.len()),
                g as int,
            ),
        decreases rows@.len() - i,
    {
        let ghost i0 = i - cur@.len();
        cur.push(clone_cells(&rows[i]));
        proof {
            assert(dv[i as int] == rows@[i as int].deep_view());
            assert(cur.deep_view() =~= dv.subrange(i0, i + 1));
        }
        i = i + 1;
        if cur.len() == g {
            proof {
                let rest = dv.skip(i0);
                assert(rest.len() >= g);
                assert(rest.take(g as int) =~= dv.subrange(i0, i0 + g));
                if rest.len() > g {
                    assert(chunk_spec(rest, g as int) == seq![rest.take(g as int)] + chunk_spec(
                        rest.skip(g as int),
                        g as int,
                    ));
                } else {
                    assert(rest.take(g as int) =~= rest);
                    assert(rest.skip(g as int) =~= Seq::<Seq<Option<Seq<char>>>>::empty());
                    assert(chunk_spec(rest, g as int) =~= seq![rest.take(g as int)] + chunk_spec(
                        rest.skip(g as int),
                        g as int,
                    ));
                }
                assert(rest.skip(g as int) =~= dv.skip(i0 + g));
                assert(cur.deep_view() =~= rest.take(g as int));
            }
            let full = cur;
            cur = Vec::new();
            out.push(full);
            proof {
                assert(chunk_spec(dv, g as int) =~= out.deep_view() + chunk_spec(
                    dv.skip(i as int),
                    g as int,
                ));
            }
        }
    }
    if cur.len() > 0 {
        proof {
            let ghost i0 = i - cur@.len();
            let rest = dv.skip(i0);
            assert(rest =~= cur.deep_view());
            assert(0 < rest.len() <= g);
            assert(chunk_spec(rest, g as int) == seq![rest]);
        }
        let last = cur;
        cur = Vec::new();
        out.push(last);
    }
    proof {
        assert(chunk_spec(dv.skip(rows@.len() - 0), g as int) =~= Seq::<
            Seq<Seq<Option<Seq<char>>>>,
        >::empty());
        assert(out.deep_view() =~= chunk_spec(dv, g as int));
    }
    out
}

/// Projects one row group into its 17 column chunks, values in row order
/// and definition levels for the OPTIONAL columns.
pub fn group_columns(group: &Vec<Vec<Option<String>>>) -> (r: Vec<ColumnChunk>)
    requires
        forall|i: int| 0 <= i < group@.len() ==> cells_wf(#[trigger] group.deep_view()[i]),
    ensures
        chunks_view(r@) == columns_of_group(group.deep_view()),
{
    let ghost gdv = group.deep_view();
    let mut out: Vec<ColumnChunk> = Vec::new();
    let mut j: usize = 0;
    while j < 17
        invariant
            0 <= j <= 17,
            gdv == group.deep_view(),
            gdv.len() == group@.len(),
            forall|i: int| 0 <= i < gdv.len() ==> cells_wf(#[trigger] gdv[i]),
            out@.len() == j,
            forall|k: int| 0 <= k < j ==> chunk_view(#[trigger] out@[k]) == column_cells(gdv, k),
        decreases 17 - j,
    {
        let required = j < 4 || j >= 12;
        proof {
            assert(required == col_required(j as int));
        }
        let mut values: Vec<String> = Vec::new();
        let mut levels: Vec<i16> = Vec::new();
        let mut i: usize = 0;
        while i < group.len()
            invariant
                0 <= i <= group@.len(),
                j < 17,
                required == col_required(j as int),
                gdv == group.deep_view(),
                gdv.len() == group@.len(),
                forall|k: int| 0 <= k < gdv.len() ==> cells_wf(#[trigger] gdv[k]),
                values.deep_view() == col_values(gdv.take(i as int), j as int),
                levels@ == col_levels(gdv.take(i as int), j as int),
            decreases group@.len() - i,
        {
            proof {
                assert(cells_wf(gdv[i as int]));
                assert(gdv[i as int] == group@[i as int].deep_view());
                assert(group@[i as int].deep_view().len() == group@[i as int]@.len());
            }
            let row = &group[i];
            match &row[j] {
                Some(s) => {
                    proof {
                        assert(row.deep_view()[j as int] == row@[j as int].deep_view());
                        assert(gdv[i as int][j as int] == row@[j as int].deep_view());
                    }
                    values.push(s.clone());
                    levels.push(1);
                },
                None => {
                    proof {
                        assert(row.deep_view()[j as int] == row@[j as int].deep_view());
                        assert(gdv[i as int][j as int] == row@[j as int].deep_view());
                    }
                    if required {
                        proof {
                            assert(gdv[i as int][j as int] is Some);
                            assert(false);
                        }
                        unreached::<()>();
                    }
                    levels.push(0);
                },
            }
            proof {
                let t1 = gdv.take(i + 1);
                assert(t1.drop_last() =~= gdv.take(i as int));
                assert(t1.last() == gdv[i as int]);
                assert(values.deep_view() =~= col_values(t1, j as int));
                assert(levels@ =~= col_levels(t1, j as int));
            }
            i = i + 1;
        }
        proof {
            assert(gdv.take(gdv.len() as int) =~= gdv);
        }
        let chunk = if required {
            ColumnChunk { values, def_levels: None }
        } else {
            ColumnChunk { values, def_levels: Some(levels) }
        };
        out.push(chunk);
        j = j + 1;
    }
    proof {
        assert(chunks_view(out@) =~= columns_of_group(gdv));
    }
    out
}

} // verus!
