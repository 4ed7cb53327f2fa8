//! Records: the typed row the store hands over, one field per schema
//! column. Decoding a raw row enforces the REQUIRED-field rule (present and
//! non-empty) and parses the indexing timestamp; a single bad row aborts the
//! export with its ordinal position (fail-fast).

use vstd::prelude::*;
use crate::ExportError;
use crate::time_model::{Timestamp, ts_valid, ts_valid_exec, parse_ts_spec, parse_timestamp};
use crate::window::{ExportWindow, in_window, window_contains};

verus! {

/// One exported entity. Field order and names follow the fixed schema; the
/// REQUIRED fields are the `String` ones, the OPTIONAL ones are `Option`.
/// The indexing timestamp is held both as the source text (written back to
/// the file byte for byte) and as the parsed value the window filter uses.
#[derive(Debug, Clone)]
pub struct FirehosePost {
    pub uri: String,
    pub created_at: String,
    pub text: String,
    pub embed: String,
    pub langs: Option<String>,
    pub entities: Option<String>,
    pub facets: Option<String>,
    pub labels: Option<String>,
    pub reply: Option<String>,
    pub reply_parent: Option<String>,
    pub reply_root: Option<String>,
    pub tags: Option<String>,
    pub py_type: String,
    pub cid: String,
    pub author: String,
    pub indexed_at: Timestamp,
    pub indexed_at_text: String,
    pub synctimestamp: String,
}

/// The write-time invariant: every REQUIRED field non-empty, the indexing
/// timestamp a valid calendar value, and its text the exact source text it
/// was parsed from.
pub open spec fn post_valid(p: FirehosePost) -> bool {
    &&& p.uri@.len() > 0
    &&& p.created_at@.len() > 0
    &&& p.text@.len() > 0
    &&& p.embed@.len() > 0
    &&& p.py_type@.len() > 0
    &&& p.cid@.len() > 0
    &&& p.author@.len() > 0
    &&& ts_valid(p.indexed_at)
    &&& parse_ts_spec(p.indexed_at_text@) == Some(p.indexed_at)
    &&& p.synctimestamp@.len() > 0
}

/// The 17 cells a record stands for, in schema order: the text of each
/// field, the indexing timestamp as its source text.
pub open spec fn post_repr(p: FirehosePost) -> Seq<Option<Seq<char>>> {
    seq![
        Some(p.uri@),
        Some(p.created_at@),
        Some(p.text@),
        Some(p.embed@),
        p.langs.deep_view(),
        p.entities.deep_view(),
        p.facets.deep_view(),
        p.labels.deep_view(),
        p.reply.deep_view(),
        p.reply_parent.deep_view(),
        p.reply_root.deep_view(),
        p.tags.deep_view(),
        Some(p.py_type@),
        Some(p.cid@),
        Some(p.author@),
        Some(p.indexed_at_text@),
        Some(p.synctimestamp@),
    ]
}

/// A REQUIRED cell must be present and non-empty.
pub open spec fn req_cell_ok(c: Option<Seq<char>>) -> bool {
    c is Some && c.unwrap().len() > 0
}

/// Whether a raw row decodes: 17 cells, every REQUIRED one present and
/// non-empty, and the indexing timestamp cell a parseable timestamp.
pub open spec fn raw_row_ok(row: Seq<Option<Seq<char>>>) -> bool {
    &&& row.len() == 17
    &&& req_cell_ok(row[0])
    &&& req_cell_ok(row[1])
    &&& req_cell_ok(row[2])
    &&& req_cell_ok(row[3])
    &&& req_cell_ok(row[12])
    &&& req_cell_ok(row[13])
    &&& req_cell_ok(row[14])
    &&& req_cell_ok(row[15])
    &&& parse_ts_spec(row[15].unwrap()) is Some
    &&& req_cell_ok(row[16])
}

/// The indexing timestamp a decodable raw row carries.
pub open spec fn row_ts(row: Seq<Option<Seq<char>>>) -> Timestamp {
    parse_ts_spec(row[15].unwrap()).unwrap()
}

fn take_req(row: &Vec<Option<String>>, j: usize) -> (r: Option<String>)
    requires
        j < row@.len(),
    ensures
        match r {
            Some(s) => row.deep_view()[j as int] == Some(s@) && s@.len() > 0,
            None => !req_cell_ok(row.deep_view()[j as int]),
        },
{
    match &row[j] {
        Some(s) => {
            if s.unicode_len() == 0 {
                None
            } else {
                Some(s.clone())
            }
        },
        None => None,
    }
}

fn take_opt(row: &Vec<Option<String>>, j: usize) -> (r: Option<String>)
    requires
        j < row@.len(),
    ensures
        r.deep_view() == row.deep_view()[j as int],
        r == row@[j as int],
{
    match &row[j] {
        Some(s) => Some(s.clone()),
        None => None,
    }
}

/// Decodes one raw row (17 nullable text cells in schema order) into a
/// record. Succeeds exactly when the row satisfies the REQUIRED-field rule
/// and its timestamp parses; otherwise reports the row's position.
pub fn decode_row(row: &Vec<Option<String>>, pos: usize) -> (r: Result<FirehosePost, ExportError>)
    ensures
        r is Ok <==> raw_row_ok(row.deep_view()),
        r is Err ==> (r matches Err(e) && e == ExportError::RowDecodeError(pos)),
        r matches Ok(p) ==> {
            &&& post_valid(p)
            &&& post_repr(p) == row.deep_view()
            &&& p.indexed_at == row_ts(row.deep_view())
        },
{
    let ghost dv = row.deep_view();
    if row.len() != 17 {
        return Err(ExportError::RowDecodeError(pos));
    }
    let uri = match take_req(row, 0) {
        Some(s) => s,
        None => { return Err(ExportError::RowDecodeError(pos)); },
    };
    let created_at = match take_req(row, 1) {
        Some(s) => s,
        None => { return Err(ExportError::RowDecodeError(pos)); },
    };
    let text = match take_req(row, 2) {
        Some(s) => s,
        None => { return Err(ExportError::RowDecodeError(pos)); },
    };
    let embed = match take_req(row, 3) {
        Some(s) => s,
        None => { return Err(ExportError::RowDecodeError(pos)); },
    };
    let langs = take_opt(row, 4);
    let entities = take_opt(row, 5);
    let facets = take_opt(row, 6);
    let labels = take_opt(row, 7);
    let reply = take_opt(row, 8);
    let reply_parent = take_opt(row, 9);
    let reply_root = take_opt(row, 10);
    let tags = take_opt(row, 11);
    let py_type = match take_req(row, 12) {
        Some(s) => s,
        None => { return Err(ExportError::RowDecodeError(pos)); },
    };
    let cid = match take_req(row, 13) {
        Some(s) => s,
        None => { return Err(ExportError::RowDecodeError(pos)); },
    };
    let author = match take_req(row, 14) {
        Some(s) => s,
        None => { return Err(ExportError::RowDecodeError(pos)); },
    };
    let indexed_at_text = match take_req(row, 15) {
        Some(s) => s,
        None => { return Err(ExportError::RowDecodeError(pos)); },
    };
    let indexed_at = match parse_timestamp(indexed_at_text.as_str()) {
        Some(t) => t,
        None => { return Err(ExportError::RowDecodeError(pos)); },
    };
    let indexed_at_text_cell = indexed_at_text;
    let synctimestamp = match take_req(row, 16) {
        Some(s) => s,
        None => { return Err(ExportError::RowDecodeError(pos)); },
    };
    let p = FirehosePost {
        uri,
        created_at,
        text,
        embed,
        langs,
        entities,
        facets,
        labels,
        reply,
        reply_parent,
        reply_root,
        tags,
        py_type,
        cid,
        author,
        indexed_at,
        indexed_at_text: indexed_at_text_cell,
        synctimestamp,
    };
    proof {
        assert(raw_row_ok(dv));
        assert(post_repr(p) =~= dv);
    }
    Ok(p)
}

/// Decodes a whole query result. Fail-fast: the first bad row aborts the
/// export with that row's ordinal position, so no output of unknown
/// validity is ever produced.
pub fn decode_rows(rows: &Vec<Vec<Option<String>>>) -> (r: Result<
    Vec<FirehosePost>,
    ExportError,
>)
    ensures
        r is Ok <==> (forall|i: int|
            0 <= i < rows@.len() ==> raw_row_ok(#[trigger] rows.deep_view()[i])),
        r matches Err(e) ==> (e matches ExportError::RowDecodeError(bad) && 0 <= bad < rows@.len()
            && !raw_row_ok(rows.deep_view()[bad as int]) && (forall|j: int|
            0 <= j < bad ==> raw_row_ok(#[trigger] rows.deep_view()[j]))),
        r matches Ok(ps) ==> {
            &&& ps@.len() == rows@.len()
            &&& forall|i: int|
                0 <= i < rows@.len() ==> {
                    &&& post_valid(#[trigger] ps@[i])
                    &&& post_repr(ps@[i]) == rows.deep_view()[i]
                    &&& ps@[i].indexed_at == row_ts(rows.deep_view()[i])
                }
        },
{
    let ghost dv = rows.deep_view();
    let mut out: Vec<FirehosePost> = Vec::new();
    let mut i: usize = 0;
    while i < rows.len()
        invariant
            0 <= i <= rows@.len(),
            dv == rows.deep_view(),
            dv.len() == rows@.len(),
            out@.len() == i,
            forall|k: int| 0 <= k < i ==> raw_row_ok(#[trigger] dv[k]),
            forall|k: int|
                0 <= k < i ==> {
                    &&& post_valid(#[trigger] out@[k])
                    &&& post_repr(out@[k]) == dv[k]
                    &&& out@[k].indexed_at == row_ts(dv[k])
                },
        decreases rows@.len() - i,
    {
        proof {
            assert(dv[i as int] == rows@[i as int].deep_view());
        }
        match decode_row(&rows[i], i) {
            Ok(p) => {
                out.push(p);
            },
            Err(e) => {
                return Err(e);
            },
        }
        i = i + 1;
    }
    Ok(out)
}

/// The subsequence of records whose indexing timestamp falls in the window,
/// in input order.
pub open spec fn posts_filter(ps: Seq<FirehosePost>, w: ExportWindow) -> Seq<FirehosePost>
    decreases ps.len(),
{
    if ps.len() == 0 {
        Seq::empty()
    } else {
        posts_filter(ps.drop_last(), w) + (if in_window(w, ps.last().indexed_at) {
            seq![ps.last()]
        } else {
            Seq::empty()
        })
    }
}

fn clone_post(p: &FirehosePost) -> (r: FirehosePost)
    ensures
        r == *p,
{
    let langs = match &p.langs {
        Some(s) => Some(s.clone()),
        None => None,
    };
    let entities = match &p.entities {
        Some(s) => Some(s.clone()),
        None => None,
    };
    let facets = match &p.facets {
        Some(s) => Some(s.clone()),
        None => None,
    };
    let labels = match &p.labels {
        Some(s) => Some(s.clone()),
        None => None,
    };
    let reply = match &p.reply {
        Some(s) => Some(s.clone()),
        None => None,
    };
    let reply_parent = match &p.reply_parent {
        Some(s) => Some(s.clone()),
        None => None,
    };
    let reply_root = match &p.reply_root {
        Some(s) => Some(s.clone()),
        None => None,
    };
    let tags = match &p.tags {
        Some(s) => Some(s.clone()),
        None => None,
    };
    FirehosePost {
        uri: p.uri.clone(),
        created_at: p.created_at.clone(),
        text: p.text.clone(),
        embed: p.embed.clone(),
        langs,
        entities,
        facets,
        labels,
        reply,
        reply_parent,
        reply_root,
        tags,
        py_type: p.py_type.clone(),
        cid: p.cid.clone(),
        author: p.author.clone(),
        indexed_at: p.indexed_at,
        indexed_at_text: p.indexed_at_text.clone(),
        synctimestamp: p.synctimestamp.clone(),
    }
}

/// Law (round trip): a valid record's cells spell the record back. Two
/// valid records with the same cells agree on every field, so reading the
/// written cells reconstructs each field byte for byte; the parsed
/// timestamp is recovered by parsing the timestamp cell.
pub proof fn lemma_repr_determines_record(p1: FirehosePost, p2: FirehosePost)
    requires
        post_valid(p1),
        post_valid(p2),
        post_repr(p1) == post_repr(p2),
    ensures
        p1.uri@ == p2.uri@,
        p1.created_at@ == p2.created_at@,
        p1.text@ == p2.text@,
        p1.embed@ == p2.embed@,
        p1.langs.deep_view() == p2.langs.deep_view(),
        p1.entities.deep_view() == p2.entities.deep_view(),
        p1.facets.deep_view() == p2.facets.deep_view(),
        p1.labels.deep_view() == p2.labels.deep_view(),
        p1.reply.deep_view() == p2.reply.deep_view(),
        p1.reply_parent.deep_view() == p2.reply_parent.deep_view(),
        p1.reply_root.deep_view() == p2.reply_root.deep_view(),
        p1.tags.deep_view() == p2.tags.deep_view(),
        p1.py_type@ == p2.py_type@,
        p1.cid@ == p2.cid@,
        p1.author@ == p2.author@,
        p1.indexed_at == p2.indexed_at,
        p1.indexed_at_text@ == p2.indexed_at_text@,
        p1.synctimestamp@ == p2.synctimestamp@,
{
    let r1 = post_repr(p1);
    let r2 = post_repr(p2);
    assert(r1[0] == r2[0]);
    assert(r1[1] == r2[1]);
    assert(r1[2] == r2[2]);
    assert(r1[3] == r2[3]);
    assert(r1[4] == r2[4]);
    assert(r1[5] == r2[5]);
    assert(r1[6] == r2[6]);
    assert(r1[7] == r2[7]);
    assert(r1[8] == r2[8]);
    assert(r1[9] == r2[9]);
    assert(r1[10] == r2[10]);
    assert(r1[11] == r2[11]);
    assert(r1[12] == r2[12]);
    assert(r1[13] == r2[13]);
    assert(r1[14] == r2[14]);
    assert(r1[15] == r2[15]);
    assert(r1[16] == r2[16]);
    assert(p1.indexed_at_text@ == p2.indexed_at_text@);
    assert(parse_ts_spec(p1.indexed_at_text@) == parse_ts_spec(p2.indexed_at_text@));
    assert(p1.indexed_at == p2.indexed_at);
}

/// Checks the write-time invariant of one record.
pub fn post_valid_exec(p: &FirehosePost) -> (r: bool)
    ensures
        r == post_valid(*p),
{
    let ts_matches: bool = match parse_timestamp(p.indexed_at_text.as_str()) {
        Some(t) => t == p.indexed_at,
        None => false,
    };
    p.uri.as_str().unicode_len() > 0 && p.created_at.as_str().unicode_len() > 0
        && p.text.as_str().unicode_len() > 0 && p.embed.as_str().unicode_len() > 0
        && p.py_type.as_str().unicode_len() > 0 && p.cid.as_str().unicode_len() > 0
        && p.author.as_str().unicode_len() > 0 && ts_valid_exec(&p.indexed_at) && ts_matches
        && p.synctimestamp.as_str().unicode_len() > 0
}

fn clone_opt(o: &Option<String>) -> (r: Option<String>)
    ensures
        r == *o,
{
    match o {
        Some(s) => Some(s.clone()),
        None => None,
    }
}

/// Lays one record out as its 17 cells, in schema order, the indexing
/// timestamp as its source text.
pub fn post_cells(p: &FirehosePost) -> (r: Vec<Option<String>>)
    ensures
        r.deep_view() == post_repr(*p),
{
    let mut v: Vec<Option<String>> = Vec::new();
    v.push(Some(p.uri.clone()));
    v.push(Some(p.created_at.clone()));
    v.push(Some(p.text.clone()));
    v.push(Some(p.embed.clone()));
    v.push(clone_opt(&p.langs));
    v.push(clone_opt(&p.entities));
    v.push(clone_opt(&p.facets));
    v.push(clone_opt(&p.labels));
    v.push(clone_opt(&p.reply));
    v.push(clone_opt(&p.reply_parent));
    v.push(clone_opt(&p.reply_root));
    v.push(clone_opt(&p.tags));
    v.push(Some(p.py_type.clone()));
    v.push(Some(p.cid.clone()));
    v.push(Some(p.author.clone()));
    v.push(Some(p.indexed_at_text.clone()));
    v.push(Some(p.synctimestamp.clone()));
    proof {
        assert(v.deep_view() =~= post_repr(*p));
    }
    v
}

/// The cell rows a record sequence stands for.
pub open spec fn posts_cells(ps: Seq<FirehosePost>) -> Seq<Seq<Option<Seq<char>>>> {
    ps.map_values(|p: FirehosePost| post_repr(p))
}

/// Lays a record sequence out as cell rows, one per record, in order.
pub fn posts_to_cells(posts: &Vec<FirehosePost>) -> (r: Vec<Vec<Option<String>>>)
    ensures
        r.deep_view() == posts_cells(posts@),
{
    let mut out: Vec<Vec<Option<String>>> = Vec::new();
    let mut i: usize = 0;
    while i < posts.len()
        invariant
            0 <= i <= posts@.len(),
            out.deep_view() =~= posts_cells(posts@.take(i as int)),
        decreases posts@.len() - i,
    {
        out.push(post_cells(&posts[i]));
        proof {
            assert(posts_cells(posts@.take(i + 1)) =~= posts_cells(posts@.take(i as int)).push(
                post_repr(posts@[i as int]),
            ));
            assert(out.deep_view() =~= posts_cells(posts@.take(i + 1)));
        }
        i = i + 1;
    }
    proof {
        assert(posts@.take(posts@.len() as int) =~= posts@);
    }
    out
}

/// Keeps exactly the records whose indexing timestamp falls inside the
/// window, in order: the window is the sole filter predicate.
pub fn select_in_window(posts: &Vec<FirehosePost>, w: &ExportWindow) -> (r: Vec<FirehosePost>)
    ensures
        r@ == posts_filter(posts@, *w),
{
    let mut out: Vec<FirehosePost> = Vec::new();
    let mut i: usize = 0;
    while i < posts.len()
        invariant
            0 <= i <= posts@.len(),
            out@ == posts_filter(posts@.take(i as int), *w),
        decreases posts@.len() - i,
    {
        let p = &posts[i];
        if window_contains(w, &p.indexed_at) {
            out.push(clone_post(p));
        }
        proof {
            assert(posts@.take(i + 1).drop_last() =~= posts@.take(i as int));
            assert(posts@.take(i + 1).last() == posts@[i as int]);
            assert(out@ == posts_filter(posts@.take(i + 1), *w));
        }
        i = i + 1;
    }
    proof {
        assert(posts@.take(posts@.len() as int) =~= posts@);
    }
    out
}

} // verus!
