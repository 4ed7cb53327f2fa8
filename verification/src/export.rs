//! Orchestration: one export run, from raw rows to the columnar file image.
//! The caller owns all I/O: it queries the store, says whether the
//! destination already exists, and writes the returned bytes; everything
//! the run decides and computes is here, verified.

use vstd::prelude::*;
use vstd::pervasive::unreached;
use vstd::multiset::Multiset;
use crate::{ExportError, ExportReport};
use crate::window::{ExportWindow, window_valid, in_window};
use crate::record::{FirehosePost, post_valid, post_repr, posts_cells, posts_filter, raw_row_ok,
    row_ts, decode_rows, select_in_window};

use crate::columns::{chunk_spec, concat_groups, lemma_chunk_concat};
use crate::schema_decl::col_required;
use crate::record::req_cell_ok;
use crate::sink::{write_to_parquet, export_bytes};

verus! {

/// The cell rows an export of these raw rows keeps: exactly the rows whose
/// indexing timestamp falls in the window, unchanged and in input order.
pub open spec fn selected_cells(rows: Seq<Seq<Option<Seq<char>>>>, w: ExportWindow) -> Seq<
    Seq<Option<Seq<char>>>,
>
    decreases rows.len(),
{
    if rows.len() == 0 {
        Seq::empty()
    } else {
        selected_cells(rows.drop_last(), w) + (if in_window(w, row_ts(rows.last())) {
            seq![rows.last()]
        } else {
            Seq::empty()
        })
    }
}

/// Filtering the decoded records and selecting the raw rows agree: the
/// cells of the in-window records are the selected rows.
proof fn lemma_filter_cells(
    posts: Seq<FirehosePost>,
    rows: Seq<Seq<Option<Seq<char>>>>,
    w: ExportWindow,
)
    requires
        posts.len() == rows.len(),
        forall|i: int|
            0 <= i < rows.len() ==> post_repr(#[trigger] posts[i]) == rows[i]
                && posts[i].indexed_at == row_ts(rows[i]),
    ensures
        posts_cells(posts_filter(posts, w)) == selected_cells(rows, w),
    decreases posts.len(),
{
    if posts.len() == 0 {
        assert(posts_cells(posts_filter(posts, w)) =~= selected_cells(rows, w));
    } else {
        lemma_filter_cells(posts.drop_last(), rows.drop_last(), w);
        let a = posts_filter(posts.drop_last(), w);
        let b = if in_window(w, posts.last().indexed_at) {
            seq![posts.last()]
        } else {
            Seq::<FirehosePost>::empty()
        };
        assert(posts_filter(posts, w) == a + b);
        assert(posts_cells(a + b) =~= posts_cells(a) + posts_cells(b));
        assert(posts.last().indexed_at == row_ts(rows.last()));
        if in_window(w, row_ts(rows.last())) {
            assert(posts_cells(b) =~= seq![rows.last()]);
        } else {
            assert(posts_cells(b) =~= Seq::<Seq<Option<Seq<char>>>>::empty());
        }
        assert(posts_cells(posts_filter(posts, w)) =~= selected_cells(rows, w));
    }
}

/// The window filter never keeps more records than it was given.
proof fn lemma_posts_filter_len(ps: Seq<FirehosePost>, w: ExportWindow)
    ensures
        posts_filter(ps, w).len() <= ps.len(),
    decreases ps.len(),
{
    if ps.len() == 0 {
    } else {
        lemma_posts_filter_len(ps.drop_last(), w);
    }
}

/// Every record the window filter keeps is one of the input records, and
/// its timestamp lies in the window.
proof fn lemma_posts_filter_element(ps: Seq<FirehosePost>, w: ExportWindow, k: int)
    requires
        0 <= k < posts_filter(ps, w).len(),
    ensures
        exists|i: int|
            0 <= i < ps.len() && posts_filter(ps, w)[k] == ps[i] && in_window(
                w,
                ps[i].indexed_at,
            ),
    decreases ps.len(),
{
    if ps.len() == 0 {
    } else {
        let a = posts_filter(ps.drop_last(), w);
        if k < a.len() {
            lemma_posts_filter_element(ps.drop_last(), w, k);
            let i0 = choose|i: int|
                0 <= i < ps.drop_last().len() && a[k] == ps.drop_last()[i] && in_window(
                    w,
                    ps.drop_last()[i].indexed_at,
                );
            assert(posts_filter(ps, w)[k] == ps[i0]);
        } else {
            assert(in_window(w, ps.last().indexed_at));
            assert(posts_filter(ps, w)[k] == ps[ps.len() - 1]);
        }
    }
}

/// Runs one export over the raw rows the caller's range query returned.
/// The caller says whether the destination file already exists; nothing is
/// overwritten. When the destination is free, every row decodes and the
/// input respects the format's 2^31 row-group limit, the run succeeds: the
/// returned bytes are exactly the columnar file image of the in-window
/// rows, grouped by group_size, and the report counts them; every failure
/// is the error the taxonomy prescribes.
pub fn run_export(
    raw_rows: &Vec<Vec<Option<String>>>,
    window: &ExportWindow,
    group_size: usize,
    dest_exists: bool,
) -> (r: Result<(Vec<u8>, ExportReport), ExportError>)
    requires
        window_valid(*window),
        group_size >= 1,
    ensures
        dest_exists <==> (r matches Err(e) && e is DestinationExists),
        r matches Err(ExportError::RowDecodeError(i)) ==> 0 <= i < raw_rows@.len()
            && !raw_row_ok(raw_rows.deep_view()[i as int]) && (forall|j: int|
            0 <= j < i ==> raw_row_ok(#[trigger] raw_rows.deep_view()[j])),
        (r matches Err(e) && e is RowDecodeError) <==> (!dest_exists && exists|i: int|
            0 <= i < raw_rows@.len() && !raw_row_ok(#[trigger] raw_rows.deep_view()[i])),
        r matches Err(e) ==> (e is DestinationExists || e is RowDecodeError || e is WriteError),
        r matches Ok(out) ==> {
            &&& !dest_exists
            &&& forall|i: int|
                0 <= i < raw_rows@.len() ==> raw_row_ok(#[trigger] raw_rows.deep_view()[i])
            &&& out.1.rows == selected_cells(raw_rows.deep_view(), *window).len()
            &&& out.1.groups == chunk_spec(
                selected_cells(raw_rows.deep_view(), *window),
                group_size as int,
            ).len()
            &&& out.1.elapsed_millis == 0
            &&& out.0@ == export_bytes(
                selected_cells(raw_rows.deep_view(), *window),
                group_size as int,
            )
        },
        (!dest_exists && raw_rows@.len() < 0x7fff_ffff && (forall|i: int|
            0 <= i < raw_rows@.len() ==> raw_row_ok(#[trigger] raw_rows.deep_view()[i])))
            ==> r is Ok,
{
    let ghost dv = raw_rows.deep_view();
    if dest_exists {
        return Err(ExportError::DestinationExists);
    }
    let posts = match decode_rows(raw_rows) {
        Ok(ps) => ps,
        Err(e) => { return Err(e); },
    };
    let sel = select_in_window(&posts, window);
    proof {
        lemma_filter_cells(posts@, dv, *window);
        lemma_posts_filter_len(posts@, *window);
        assert forall|k: int| 0 <= k < sel@.len() implies post_valid(#[trigger] sel@[k]) by {
            lemma_posts_filter_element(posts@, *window, k);
        }
    }
    match write_to_parquet(&sel, group_size) {
        Ok(out) => {
            proof {
                assert(posts_cells(sel@) == selected_cells(dv, *window));
                assert(posts_cells(sel@).len() == sel@.len());
            }
            Ok(out)
        },
        Err(e) => {
            match e {
                ExportError::WriteError(m) => Err(ExportError::WriteError(m)),
                _ => {
                    proof {
                        assert(false);
                    }
                    unreached()
                },
            }
        },
    }
}

/// The multiset of cell rows whose timestamps fall in the window.
pub open spec fn window_rows_multiset(
    rows: Seq<Seq<Option<Seq<char>>>>,
    w: ExportWindow,
) -> Multiset<Seq<Option<Seq<char>>>>
    decreases rows.len(),
{
    if rows.len() == 0 {
        Multiset::empty()
    } else {
        window_rows_multiset(rows.drop_last(), w).add(
            if in_window(w, row_ts(rows.last())) {
                Multiset::singleton(rows.last())
            } else {
                Multiset::empty()
            },
        )
    }
}

/// Each selected row is some in-window input row.
pub proof fn lemma_selected_sound(rows: Seq<Seq<Option<Seq<char>>>>, w: ExportWindow, k: int)
    requires
        0 <= k < selected_cells(rows, w).len(),
    ensures
        exists|i: int|
            0 <= i < rows.len() && in_window(w, row_ts(#[trigger] rows[i])) && selected_cells(
                rows,
                w,
            )[k] == rows[i],
    decreases rows.len(),
{
    if rows.len() == 0 {
    } else {
        let a = selected_cells(rows.drop_last(), w);
        if k < a.len() {
            lemma_selected_sound(rows.drop_last(), w, k);
            let i0 = choose|i: int|
                0 <= i < rows.drop_last().len() && in_window(
                    w,
                    row_ts(#[trigger] rows.drop_last()[i]),
                ) && a[k] == rows.drop_last()[i];
            assert(rows[i0] == rows.drop_last()[i0]);
            assert(selected_cells(rows, w)[k] == rows[i0]);
        } else {
            assert(in_window(w, row_ts(rows.last())));
            assert(selected_cells(rows, w)[k] == rows[rows.len() - 1]);
        }
    }
}

/// Law (window exactness): an export writes exactly the in-window rows.
/// Every row whose indexing timestamp falls in [start, end) contributes its
/// cells exactly once (as a multiset, so duplicates keep their
/// multiplicity), and the row groups laid back to back are exactly that
/// selection in input order; [`lemma_selected_sound`] adds that nothing
/// outside the window appears.
pub proof fn lemma_window_selects_exactly(
    rows: Seq<Seq<Option<Seq<char>>>>,
    w: ExportWindow,
    g: int,
)
    requires
        g >= 1,
    ensures
        selected_cells(rows, w).to_multiset() == window_rows_multiset(rows, w),
        concat_groups(chunk_spec(selected_cells(rows, w), g)) == selected_cells(rows, w),
    decreases rows.len(),
{
    lemma_chunk_concat(selected_cells(rows, w), g);
    broadcast use vstd::seq_lib::group_to_multiset_ensures;

    if rows.len() == 0 {
        assert(selected_cells(rows, w).to_multiset() =~= window_rows_multiset(rows, w));
    } else {
        lemma_window_selects_exactly(rows.drop_last(), w, g);
        let a = selected_cells(rows.drop_last(), w);
        if in_window(w, row_ts(rows.last())) {
            assert(a + seq![rows.last()] =~= a.push(rows.last()));
            assert(selected_cells(rows, w).to_multiset() =~= window_rows_multiset(rows, w));
        } else {
            assert(a + Seq::<Seq<Option<Seq<char>>>>::empty() =~= a);
            assert(selected_cells(rows, w).to_multiset() =~= window_rows_multiset(rows, w));
        }
    }
}

/// Law (REQUIRED-field invariant): a raw row with a null or empty REQUIRED
/// cell is undecodable, so an export containing it ends in RowDecodeError
/// (run_export's contract) and yields no file bytes.
pub proof fn lemma_required_field_fails(row: Seq<Option<Seq<char>>>, j: int)
    requires
        0 <= j < 17,
        col_required(j),
        !req_cell_ok(row[j]),
    ensures
        !raw_row_ok(row),
{
    if raw_row_ok(row) {
        if j == 0 {
        } else if j == 1 {
        } else if j == 2 {
        } else if j == 3 {
        } else if j == 12 {
        } else if j == 13 {
        } else if j == 14 {
        } else if j == 15 {
        } else {
            assert(j == 16);
        }
        assert(false);
    }
}

} // verus!
