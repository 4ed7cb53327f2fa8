//! The fixed file schema as a structured declaration: an ordered list of
//! column names with their nullability (every column is UTF-8 text). The
//! parquet schema text and the store's SELECT statement are both rendered
//! from this one list, so the query's column order and the file's column
//! order agree by construction.

use vstd::prelude::*;
use vstd::string::StringExecFns;

verus! {

/// One column of the fixed schema: its name and whether it is REQUIRED
/// (never null) or OPTIONAL.
#[derive(Debug, Clone)]
pub struct ColumnDecl {
    pub name: String,
    pub required: bool,
}

/// The number of columns in the fixed schema.
pub open spec fn n_cols() -> int {
    17
}

/// The fixed schema: 17 UTF-8 text columns, in the order they stand in the
/// query and in the file.
pub open spec fn schema_cols() -> Seq<(Seq<char>, bool)> {
    seq![
        ("uri"@, true),
        ("created_at"@, true),
        ("text"@, true),
        ("embed"@, true),
        ("langs"@, false),
        ("entities"@, false),
        ("facets"@, false),
        ("labels"@, false),
        ("reply"@, false),
        ("reply_parent"@, false),
        ("reply_root"@, false),
        ("tags"@, false),
        ("py_type"@, true),
        ("cid"@, true),
        ("author"@, true),
        ("indexed_at"@, true),
        ("synctimestamp"@, true),
    ]
}

/// Whether the column at position j is REQUIRED.
pub open spec fn col_required(j: int) -> bool {
    j < 4 || 12 <= j
}

pub proof fn lemma_col_required_agrees(j: int)
    requires
        0 <= j < n_cols(),
    ensures
        schema_cols()[j].1 == col_required(j),
{
}

pub open spec fn decls_view(s: Seq<ColumnDecl>) -> Seq<(Seq<char>, bool)> {
    s.map_values(|c: ColumnDecl| (c.name@, c.required))
}

fn decl(name: &str, required: bool) -> (r: ColumnDecl)
    ensures
        r.name@ == name@ && r.required == required,
{
    ColumnDecl { name: String::from_str(name), required }
}

/// Builds the fixed schema declaration.
pub fn firehose_schema() -> (r: Vec<ColumnDecl>)
    ensures
        decls_view(r@) == schema_cols(),
{
    let mut v: Vec<ColumnDecl> = Vec::new();
    v.push(decl("uri", true));
    v.push(decl("created_at", true));
    v.push(decl("text", true));
    v.push(decl("embed", true));
    v.push(decl("langs", false));
    v.push(decl("entities", false));
    v.push(decl("facets", false));
    v.push(decl("labels", false));
    v.push(decl("reply", false));
    v.push(decl("reply_parent", false));
    v.push(decl("reply_root", false));
    v.push(decl("tags", false));
    v.push(decl("py_type", true));
    v.push(decl("cid", true));
    v.push(decl("author", true));
    v.push(decl("indexed_at", true));
    v.push(decl("synctimestamp", true));
    proof {
        assert(decls_view(v@) =~= schema_cols());
    }
    v
}

/// The schema-text fragment one column contributes.
pub open spec fn col_text(c: (Seq<char>, bool)) -> Seq<char> {
    (if c.1 {
        "REQUIRED BINARY "@
    } else {
        "OPTIONAL BINARY "@
    }) + c.0 + " (UTF8); "@
}

pub open spec fn cols_text(cols: Seq<(Seq<char>, bool)>) -> Seq<char>
    decreases cols.len(),
{
    if cols.len() == 0 {
        Seq::empty()
    } else {
        cols_text(cols.drop_last()) + col_text(cols.last())
    }
}

/// The whole parquet schema text a column list renders to.
pub open spec fn schema_text_spec(cols: Seq<(Seq<char>, bool)>) -> Seq<char> {
    "message schema { "@ + cols_text(cols) + "}"@
}

/// Renders the structured schema declaration into the parquet schema DSL.
pub fn schema_text(schema: &Vec<ColumnDecl>) -> (r: String)
    ensures
        r@ == schema_text_spec(decls_view(schema@)),
{
    let ghost cols = decls_view(schema@);
    let mut s = String::from_str("message schema { ");
    let mut i: usize = 0;
    while i < schema.len()
        invariant
            0 <= i <= schema.len(),
            cols == decls_view(schema@),
            cols.len() == schema@.len(),
            s@ == "message schema { "@ + cols_text(cols.take(i as int)),
        decreases schema.len() - i,
    {
        let c = &schema[i];
        if c.required {
            s.append("REQUIRED BINARY ");
        } else {
            s.append("OPTIONAL BINARY ");
        }
        s.append(c.name.as_str());
        s.append(" (UTF8); ");
        proof {
            assert(cols.take(i + 1).drop_last() =~= cols.take(i as int));
            assert(cols.take(i + 1).last() == cols[i as int]);
            assert(s@ =~= "message schema { "@ + cols_text(cols.take(i + 1)));
        }
        i = i + 1;
    }
    s.append("}");
    proof {
        assert(cols.take(cols.len() as int) =~= cols);
    }
    s
}

/// The column-name list as it stands in the SELECT statement.
pub open spec fn names_text(cols: Seq<(Seq<char>, bool)>) -> Seq<char>
    decreases cols.len(),
{
    if cols.len() == 0 {
        Seq::empty()
    } else if cols.len() == 1 {
        cols[0].0
    } else {
        names_text(cols.drop_last()) + ", "@ + cols.last().0
    }
}

/// The bounded range query over the indexing timestamp, with the two window
/// endpoints as its parameters.
pub open spec fn select_text(cols: Seq<(Seq<char>, bool)>) -> Seq<char> {
    "SELECT "@ + names_text(cols)
        + " FROM firehoseposts WHERE indexed_at >= ? AND indexed_at < ?"@
}

/// Renders the range query from the same column list as the file schema, so
/// the query result's field order matches the file's by construction.
pub fn select_statement(schema: &Vec<ColumnDecl>) -> (r: String)
    ensures
        r@ == select_text(decls_view(schema@)),
{
    let ghost cols = decls_view(schema@);
    let mut s = String::from_str("SELECT ");
    let mut i: usize = 0;
    while i < schema.len()
        invariant
            0 <= i <= schema.len(),
            cols == decls_view(schema@),
            cols.len() == schema@.len(),
            s@ == "SELECT "@ + names_text(cols.take(i as int)),
        decreases schema.len() - i,
    {
        if i > 0 {
            s.append(", ");
        }
        s.append(schema[i].name.as_str());
        proof {
            assert(cols.take(i + 1).drop_last() =~= cols.take(i as int));
            assert(cols.take(i + 1).last() == cols[i as int]);
            if i == 0 {
                assert(cols.take(1)[0] == cols[0]);
                assert(s@ =~= "SELECT "@ + names_text(cols.take(1)));
            } else {
                assert(s@ =~= "SELECT "@ + names_text(cols.take(i + 1)));
            }
        }
        i = i + 1;
    }
    s.append(" FROM firehoseposts WHERE indexed_at >= ? AND indexed_at < ?");
    proof {
        assert(cols.take(cols.len() as int) =~= cols);
    }
    s
}

} // verus!
