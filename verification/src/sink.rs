//! The columnar sink. The verified pipeline prepares the schema text and
//! the per-group column chunks; parquet's serialized writer, behind a small
//! trusted boundary, turns them into the file bytes. The writer accumulates
//! row groups in memory-bounded steps; the caller owns writing the final
//! bytes to disk.

use vstd::prelude::*;
use vstd::pervasive::unreached;
use vstd::string::StringExecFns;
use std::sync::Arc;
use parquet::data_type::{ByteArray, ByteArrayType};
use parquet::file::properties::WriterProperties;
use parquet::file::writer::SerializedFileWriter;
use parquet::schema::parser::parse_message_type;
use crate::{ExportError, ExportReport};
use crate::columns::{ColumnChunk, chunks_view, chunk_spec, chunks_ok, columns_of_group,
    group_columns, chunk_rows, cells_wf, lemma_chunk_element, lemma_post_repr_wf,
    lemma_columns_ok, lemma_chunk_count_le};
use crate::record::{FirehosePost, post_valid, post_valid_exec, post_repr, posts_cells,
    posts_to_cells};
use crate::schema_decl::{schema_cols, schema_text_spec, firehose_schema, schema_text};

verus! {

/// Owns parquet's serialized file writer over an in-memory buffer for the
/// duration of one export; opaque to the verifier, described only through
/// [`sink_schema`] and [`sink_groups`]. (Verus refuses to declare the
/// writer type itself, so it is held behind this opaque struct.)
#[verifier::external_body]
pub struct SinkHandle {
    inner: SerializedFileWriter<Vec<u8>>,
}

/// The schema text the writer was created with.
pub uninterp spec fn sink_schema(w: SinkHandle) -> Seq<char>;

/// The row groups written so far: for each group, its column chunks
/// (values and optional definition levels).
pub uninterp spec fn sink_groups(w: SinkHandle) -> Seq<Seq<(Seq<Seq<char>>, Option<Seq<i16>>)>>;

/// The parquet file encoding of a schema and its row groups. The encoding
/// (default writer properties, no compression) is a function of these
/// arguments alone.
pub uninterp spec fn parquet_file_bytes(
    schema: Seq<char>,
    groups: Seq<Seq<(Seq<Seq<char>>, Option<Seq<i16>>)>>,
) -> Seq<u8>;

/// The state of a writer that has written no row group yet.
pub open spec fn no_groups() -> Seq<Seq<(Seq<Seq<char>>, Option<Seq<i16>>)>> {
    Seq::empty()
}

/// Relies on parquet's parse_message_type and SerializedFileWriter::new:
/// a fresh writer over an in-memory buffer holds the given schema and no
/// row group yet. Only the fixed schema text is admitted: that text parses
/// (a flat message of 17 BYTE_ARRAY columns), and creating a writer over a
/// Vec only writes the magic bytes, which cannot fail, so creation
/// succeeds.
#[verifier::external_body]
fn sink_new(text: &str) -> (r: Result<SinkHandle, String>)
    requires
        text@ == schema_text_spec(schema_cols()),
    ensures
        r is Ok,
        r is Ok ==> sink_schema(r.unwrap()) == text@ && sink_groups(r.unwrap()) == no_groups(),
{
    let schema = parse_message_type(text).map_err(|e| e.to_string())?;
    let props = Arc::new(WriterProperties::builder().build());
    let w = SerializedFileWriter::new(Vec::new(), Arc::new(schema), props).map_err(
        |e| e.to_string(),
    )?;
    Ok(SinkHandle { inner: w })
}

/// Relies on parquet's SerializedFileWriter::next_row_group and the column
/// writers' write_batch and close: exactly one row group with the given
/// column chunks is appended, and the schema is unchanged. Under the
/// requires the write succeeds and the group is closed: the fixed schema
/// makes every column BYTE_ARRAY (so the typed writer cannot panic) with
/// exactly 17 columns, fewer than 2^31 groups respects the format's
/// row-group limit, and chunks_ok is precisely the value/level consistency
/// that write_batch checks; all bytes go to an in-memory Vec, which cannot
/// fail.
#[verifier::external_body]
fn sink_write_group(w: &mut SinkHandle, cols: &Vec<ColumnChunk>) -> (r: Result<(), String>)
    requires
        sink_schema(*old(w)) == schema_text_spec(schema_cols()),
        sink_groups(*old(w)).len() < 0x7fff_ffff,
        exists|n: int| chunks_ok(chunks_view(cols@), n),
    ensures
        r is Ok,
        sink_groups(*final(w)) == sink_groups(*old(w)).push(chunks_view(cols@)),
        sink_schema(*final(w)) == sink_schema(*old(w)),
{
    let mut rg = w.inner.next_row_group().map_err(|e| e.to_string())?;
    for c in cols.iter() {
        let vals: Vec<ByteArray> =
            c.values.iter().map(|s| ByteArray::from(s.clone().into_bytes())).collect();
        let mut cw = rg.next_column().map_err(|e| e.to_string())?.ok_or("missing column")?;
        cw.typed::<ByteArrayType>()
            .write_batch(&vals, c.def_levels.as_deref(), None)
            .map_err(|e| e.to_string())?;
        cw.close().map_err(|e| e.to_string())?;
    }
    rg.close().map_err(|e| e.to_string())?;
    Ok(())
}

/// Relies on parquet's SerializedFileWriter::into_inner: writes the file
/// footer and hands back the accumulated bytes, which are a function of the
/// schema and the written row groups alone. It succeeds on every handle
/// this module can hand out: sink_new returns a fresh writer, and
/// sink_write_group (whose requires every verified caller meets) always
/// closes the group it writes, so the previous-writer-closed check passes
/// and the footer goes to an in-memory Vec, which cannot fail.
#[verifier::external_body]
fn sink_finish(w: SinkHandle) -> (r: Result<Vec<u8>, String>)
    ensures
        r is Ok,
        r is Ok ==> r.unwrap()@ == parquet_file_bytes(sink_schema(w), sink_groups(w)),
{
    w.inner.into_inner().map_err(|e| e.to_string())
}

/// The column chunks of every row group an input cut into groups of g.
pub open spec fn export_groups_cells(cells: Seq<Seq<Option<Seq<char>>>>, g: int) -> Seq<
    Seq<(Seq<Seq<char>>, Option<Seq<i16>>)>,
> {
    chunk_spec(cells, g).map_values(|grp: Seq<Seq<Option<Seq<char>>>>| columns_of_group(grp))
}

/// The complete file content an export of these cells produces.
pub open spec fn export_bytes(cells: Seq<Seq<Option<Seq<char>>>>, g: int) -> Seq<u8> {
    parquet_file_bytes(schema_text_spec(schema_cols()), export_groups_cells(cells, g))
}

/// Serializes the records into one columnar file image, flushed in row
/// groups of at most group_size records. Rejects (with the first offending
/// position) any record that violates the write-time REQUIRED-field rule,
/// so no file content is produced for a bad input. When every record is
/// valid and the group count respects the format's 2^31 limit, the export
/// succeeds: the bytes are exactly the file encoding of the records'
/// cells, and the report counts the records and their row groups.
pub fn write_to_parquet(posts: &Vec<FirehosePost>, group_size: usize) -> (r: Result<
    (Vec<u8>, ExportReport),
    ExportError,
>)
    requires
        group_size >= 1,
    ensures
        (exists|i: int| 0 <= i < posts@.len() && !post_valid(#[trigger] posts@[i])) <==> (
        r matches Err(e) && e is RowDecodeError),
        r matches Err(e) ==> (e is RowDecodeError || e is WriteError),
        r matches Err(ExportError::RowDecodeError(i)) ==> 0 <= i < posts@.len() && !post_valid(
            posts@[i as int],
        ) && (forall|j: int| 0 <= j < i ==> post_valid(#[trigger] posts@[j])),
        r matches Ok(out) ==> {
            &&& forall|i: int| 0 <= i < posts@.len() ==> post_valid(#[trigger] posts@[i])
            &&& out.1.rows == posts@.len()
            &&& out.1.groups == chunk_spec(posts_cells(posts@), group_size as int).len()
            &&& out.1.elapsed_millis == 0
            &&& out.0@ == export_bytes(posts_cells(posts@), group_size as int)
        },
        (forall|i: int| 0 <= i < posts@.len() ==> post_valid(#[trigger] posts@[i]))
            && posts@.len() < 0x7fff_ffff ==> r is Ok,
{
    let mut i: usize = 0;
    while i < posts.len()
        invariant
            0 <= i <= posts@.len(),
            forall|j: int| 0 <= j < i ==> post_valid(#[trigger] posts@[j]),
        decreases posts@.len() - i,
    {
        if !post_valid_exec(&posts[i]) {
            return Err(ExportError::RowDecodeError(i));
        }
        i = i + 1;
    }
    if posts.len() >= 0x7fff_ffff {
        let m = String::from_str("the export would exceed the format's row-group limit");
        return Err(ExportError::WriteError(m));
    }
    let ghost cells = posts_cells(posts@);
    let rows = posts_to_cells(posts);
    let schema = firehose_schema();
    let text = schema_text(&schema);
    let groups = chunk_rows(&rows, group_size);
    let ghost gdv = groups.deep_view();
    let mut w = match sink_new(text.as_str()) {
        Ok(w) => w,
        Err(_) => {
            proof {
                assert(false);
            }
            unreached()
        },
    };
    let mut k: usize = 0;
    while k < groups.len()
        invariant
            0 <= k <= groups@.len(),
            group_size >= 1,
            posts@.len() < 0x7fff_ffff,
            forall|j: int| 0 <= j < posts@.len() ==> post_valid(#[trigger] posts@[j]),
            gdv == groups.deep_view(),
            gdv.len() == groups@.len(),
            gdv == chunk_spec(cells, group_size as int),
            cells == posts_cells(posts@),
            cells.len() == posts@.len(),
            forall|n: int| 0 <= n < cells.len() ==> cells[n] == post_repr_of(posts@, n),
            text@ == schema_text_spec(schema_cols()),
            sink_schema(w) == text@,
            sink_groups(w) == export_groups_cells(cells, group_size as int).take(k as int),
        decreases groups@.len() - k,
    {
        proof {
            assert(gdv[k as int] == groups@[k as int].deep_view());
            assert forall|n: int| 0 <= n < groups@[k as int].deep_view().len() implies cells_wf(
                #[trigger] groups@[k as int].deep_view()[n],
            ) by {
                lemma_chunk_element(cells, group_size as int, k as int, n);
                let m = choose|m: int|
                    0 <= m < cells.len() && chunk_spec(cells, group_size as int)[k as int][n]
                        == cells[m];
                lemma_post_repr_wf(posts@[m]);
            }
        }
        let cols = group_columns(&groups[k]);
        proof {
            lemma_columns_ok(gdv[k as int]);
            lemma_chunk_count_le(cells, group_size as int);
            assert(sink_groups(w).len() == k as int);
            assert(chunks_ok(chunks_view(cols@), gdv[k as int].len() as int));
        }
        match sink_write_group(&mut w, &cols) {
            Ok(_) => {},
            Err(_) => {
                proof {
                    assert(false);
                }
                unreached::<()>();
            },
        }
        proof {
            let eg = export_groups_cells(cells, group_size as int);
            assert(eg[k as int] == columns_of_group(gdv[k as int]));
            assert(eg.take(k + 1) =~= eg.take(k as int).push(eg[k as int]));
        }
        k = k + 1;
    }
    proof {
        let eg = export_groups_cells(cells, group_size as int);
        assert(eg.take(eg.len() as int) =~= eg);
    }
    let bytes = match sink_finish(w) {
        Ok(b) => b,
        Err(_) => {
            proof {
                assert(false);
            }
            unreached()
        },
    };
    let report = ExportReport { rows: posts.len(), groups: groups.len(), elapsed_millis: 0 };
    Ok((bytes, report))
}

/// The cells of the record at one position; a helper for stating loop
/// invariants over the mapped sequence.
pub open spec fn post_repr_of(ps: Seq<FirehosePost>, n: int) -> Seq<Option<Seq<char>>> {
    crate::record::post_repr(ps[n])
}

/// The incremental shape of the sink (create, write groups, close): records
/// are pushed one at a time and a row group is flushed to the writer as
/// soon as it fills, so at most one group of records is buffered and peak
/// memory is bounded by the group size regardless of the total row count.
/// The caller streams its cursor into push and writes the finished bytes.
pub struct StreamingSink {
    handle: SinkHandle,
    pending: Vec<FirehosePost>,
    group_size: usize,
    rows: usize,
    groups_done: usize,
    cells: Ghost<Seq<Seq<Option<Seq<char>>>>>,
}

/// The cells of every record accepted so far, in order.
pub closed spec fn sink_cells(s: StreamingSink) -> Seq<Seq<Option<Seq<char>>>> {
    s.cells@
}

pub closed spec fn sink_group_size(s: StreamingSink) -> int {
    s.group_size as int
}

/// The sink's invariant: the records not yet flushed fill less than one
/// group, and the writer holds exactly the column chunks of the whole
/// groups among the accepted cells.
pub closed spec fn sink_inv(s: StreamingSink) -> bool {
    &&& s.group_size >= 1
    &&& sink_schema(s.handle) == schema_text_spec(schema_cols())
    &&& s.pending@.len() < s.group_size
    &&& s.rows == s.cells@.len()
    &&& s.cells@.len() <= 0x7fff_fffe
    &&& s.pending@.len() <= s.cells@.len()
    &&& posts_cells(s.pending@) == s.cells@.skip(s.cells@.len() - s.pending@.len())
    &&& (s.cells@.len() - s.pending@.len()) % (s.group_size as int) == 0
    &&& sink_groups(s.handle) == export_groups_cells(
        s.cells@.take(s.cells@.len() - s.pending@.len()),
        s.group_size as int,
    )
    &&& s.groups_done == sink_groups(s.handle).len()
}

impl StreamingSink {
    /// Opens an incremental sink over the fixed schema.
    pub fn create(group_size: usize) -> (r: StreamingSink)
        requires
            group_size >= 1,
        ensures
            sink_inv(r),
            sink_cells(r) == Seq::<Seq<Option<Seq<char>>>>::empty(),
            sink_group_size(r) == group_size,
    {
        let schema = firehose_schema();
        let text = schema_text(&schema);
        let handle = match sink_new(text.as_str()) {
            Ok(h) => h,
            Err(_) => {
                proof {
                    assert(false);
                }
                unreached()
            },
        };
        let s = StreamingSink {
            handle,
            pending: Vec::new(),
            group_size,
            rows: 0,
            groups_done: 0,
            cells: Ghost(Seq::empty()),
        };
        proof {
            assert(posts_cells(s.pending@) =~= s.cells@.skip(0));
            assert(s.cells@.take(0) =~= Seq::<Seq<Option<Seq<char>>>>::empty());
            assert(export_groups_cells(s.cells@.take(0), group_size as int) =~= no_groups());
        }
        s
    }

    /// Accepts one record, flushing a full row group to the writer when the
    /// buffer fills. Rejects (with the record's ordinal position) a record
    /// that violates the write-time REQUIRED-field rule, leaving the sink
    /// unchanged; a valid record is always accepted.
    pub fn push(&mut self, post: FirehosePost) -> (r: Result<(), ExportError>)
        requires
            sink_inv(*old(self)),
            sink_cells(*old(self)).len() < 0x7fff_fffe,
        ensures
            sink_inv(*final(self)),
            sink_group_size(*final(self)) == sink_group_size(*old(self)),
            r is Ok <==> post_valid(post),
            r is Ok ==> sink_cells(*final(self)) == sink_cells(*old(self)).push(post_repr(post)),
            r is Err ==> sink_cells(*final(self)) == sink_cells(*old(self)) && (r matches Err(e)
                && e == ExportError::RowDecodeError(sink_cells(*old(self)).len() as usize)),
    {
        if !post_valid_exec(&post) {
            return Err(ExportError::RowDecodeError(self.rows));
        }
        let ghost pr = post_repr(post);
        let ghost old_cells = self.cells@;
        let ghost g = self.group_size as int;
        self.pending.push(post);
        self.rows = self.rows + 1;
        proof {
            self.cells@ = old_cells.push(pr);
        }
        let ghost cells = self.cells@;
        let ghost pn = self.pending@.len() as int;
        proof {
            let oldp = old(self).pending@;
            assert(self.pending@ =~= oldp.push(post));
            assert(posts_cells(self.pending@) =~= posts_cells(oldp).push(pr));
            assert(posts_cells(oldp) == old_cells.skip(old_cells.len() - oldp.len()));
            assert(cells.skip(cells.len() - pn) =~= old_cells.skip(
                old_cells.len() - oldp.len(),
            ).push(pr));
            assert(posts_cells(self.pending@) =~= cells.skip(cells.len() - pn));
            assert(cells.take(cells.len() - pn) =~= old_cells.take(old_cells.len() - (pn - 1)));
        }
        if self.pending.len() == self.group_size {
            let ghost pend_pre = self.pending@;
            let group = self.pending.split_off(0);
            proof {
                assert(group@ =~= pend_pre);
                assert(posts_cells(group@) =~= cells.skip(cells.len() - g));
            }
            let group_rows = posts_to_cells(&group);
            proof {
                assert(group_rows.deep_view() == posts_cells(group@));
                assert(posts_cells(group@).len() == group@.len());
                assert forall|i: int|
                    0 <= i < group_rows@.len() implies cells_wf(
                    #[trigger] group_rows.deep_view()[i],
                ) by {
                    assert(posts_cells(group@)[i] == post_repr(group@[i]));
                    lemma_post_repr_wf(group@[i]);
                }
            }
            let cols = group_columns(&group_rows);
            proof {
                let flushed = cells.take(cells.len() - g);
                let b = posts_cells(group@);
                lemma_columns_ok(b);
                lemma_chunk_count_le(flushed, g);
                assert(chunks_ok(chunks_view(cols@), b.len() as int));
            }
            match sink_write_group(&mut self.handle, &cols) {
                Ok(_) => {},
                Err(_) => {
                    proof {
                        assert(false);
                    }
                    unreached::<()>();
                },
            }
            proof {
                let flushed = cells.take(cells.len() - g);
                let b = posts_cells(group@);
                assert(b =~= cells.skip(cells.len() - g));
                assert(flushed + b =~= cells);
                crate::columns::lemma_chunk_aligned(flushed, b, g);
                assert(0 < b.len() <= g);
                assert(chunk_spec(b, g) == seq![b]);
                assert(export_groups_cells(cells, g) =~= export_groups_cells(flushed, g).push(
                    columns_of_group(b),
                ));
                assert(cells.len() as int % g == 0) by (nonlinear_arith)
                    requires
                        (cells.len() - g) % g == 0,
                        g >= 1,
                        cells.len() >= g,
                ;
                assert(cells.take(cells.len() as int) =~= cells);
                assert(posts_cells(self.pending@) =~= cells.skip(cells.len() as int));
            }
            self.groups_done = self.groups_done + 1;
        }
        Ok(())
    }

    /// Flushes the final partial row group, writes the footer, and returns
    /// the complete file image with its report: exactly the file encoding
    /// of every accepted record, grouped by the configured size.
    pub fn finish(self) -> (r: (Vec<u8>, ExportReport))
        requires
            sink_inv(self),
        ensures
            r.1.rows == sink_cells(self).len(),
            r.1.groups == chunk_spec(sink_cells(self), sink_group_size(self)).len(),
            r.1.elapsed_millis == 0,
            r.0@ == export_bytes(sink_cells(self), sink_group_size(self)),
    {
        let StreamingSink { mut handle, pending, group_size, rows, mut groups_done, cells } = self;
        let ghost g = group_size as int;
        let ghost cl = cells@;
        let ghost flushed = cl.take(cl.len() - pending@.len());
        let ghost b = posts_cells(pending@);
        proof {
            assert(flushed + b =~= cl);
            crate::columns::lemma_chunk_aligned(flushed, b, g);
        }
        if pending.len() > 0 {
            let group_rows = posts_to_cells(&pending);
            proof {
                assert(group_rows.deep_view() == posts_cells(pending@));
                assert(posts_cells(pending@).len() == pending@.len());
                assert forall|i: int|
                    0 <= i < group_rows@.len() implies cells_wf(
                    #[trigger] group_rows.deep_view()[i],
                ) by {
                    assert(posts_cells(pending@)[i] == post_repr(pending@[i]));
                    lemma_post_repr_wf(pending@[i]);
                }
            }
            let cols = group_columns(&group_rows);
            proof {
                lemma_columns_ok(b);
                lemma_chunk_count_le(flushed, g);
                assert(chunks_ok(chunks_view(cols@), b.len() as int));
            }
            match sink_write_group(&mut handle, &cols) {
                Ok(_) => {},
                Err(_) => {
                    proof {
                        assert(false);
                    }
                    unreached::<()>();
                },
            }
            groups_done = groups_done + 1;
            proof {
                assert(chunk_spec(b, g) == seq![b]);
                assert(export_groups_cells(cl, g) =~= export_groups_cells(flushed, g).push(
                    columns_of_group(b),
                ));
                assert(sink_groups(handle) == export_groups_cells(cl, g));
            }
        } else {
            proof {
                assert(b =~= Seq::<Seq<Option<Seq<char>>>>::empty());
                assert(flushed =~= cl);
                assert(chunk_spec(b, g) =~= Seq::<Seq<Seq<Option<Seq<char>>>>>::empty());
                assert(export_groups_cells(cl, g) =~= export_groups_cells(flushed, g));
                assert(sink_groups(handle) == export_groups_cells(cl, g));
            }
        }
        let bytes = match sink_finish(handle) {
            Ok(bs) => bs,
            Err(_) => {
                proof {
                    assert(false);
                }
                unreached()
            },
        };
        (bytes, ExportReport { rows, groups: groups_done, elapsed_millis: 0 })
    }
}

} // verus!
