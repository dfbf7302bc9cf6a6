//! The columnar normalization engine.
//!
//! `normalize` turns a raw JSON payload and a schema into a typed table.
//! Row-oriented data (an array of row objects) yields one cell per row and
//! column; column-oriented data (an object of column values) is reconciled
//! so that short columns are null-filled and single values broadcast to the
//! longest column's length.

use vstd::prelude::*;

use crate::json::{
    ci_match, f64_text, jview, jview_pairs, jview_seq, num_i64, num_is_zero, obj_lookup, render,
    str_i64, JVal, Json, lemma_jview_pairs, lemma_jview_seq, obj_get, to_text,
};
use crate::numbers::{check_f64_text, check_ci, parse_i64_text, token_i64, token_nonzero, suffix};
use crate::protocol::{osv, ColumnDef, ColumnDefV, CoreError, ProtoDataFrame};
use crate::text::{chars_of, str_eq};

verus! {

broadcast use vstd::std_specs::vec::group_vec_axioms, vstd::seq::group_seq_axioms;

/// Failures of the normalization engine.
#[derive(Debug, PartialEq)]
pub enum DataError {
    /// The data value is neither an array, an object, nor null.
    InvalidShape,
    /// The produced columns do not assemble into a table.
    BuildFailed(String),
}

/// The column type a schema entry asks for.
pub enum DType {
    Text,
    Number,
    Integer,
    Boolean,
    Date,
    Datetime,
}

/// How a dtype name reads: unrecognized names fall back to text.
pub open spec fn dtype_of(s: Seq<char>) -> DType {
    if s == "number"@ || s == "float"@ {
        DType::Number
    } else if s == "integer"@ || s == "int"@ {
        DType::Integer
    } else if s == "boolean"@ || s == "bool"@ {
        DType::Boolean
    } else if s == "date"@ {
        DType::Date
    } else if s == "datetime"@ {
        DType::Datetime
    } else {
        DType::Text
    }
}

pub fn parse_dtype(s: &str) -> (dt: DType)
    ensures
        dt == dtype_of(s@),
{
    if str_eq(s, "number") || str_eq(s, "float") {
        DType::Number
    } else if str_eq(s, "integer") || str_eq(s, "int") {
        DType::Integer
    } else if str_eq(s, "boolean") || str_eq(s, "bool") {
        DType::Boolean
    } else if str_eq(s, "date") {
        DType::Date
    } else if str_eq(s, "datetime") {
        DType::Datetime
    } else {
        DType::Text
    }
}

// ---------------------------------------------------------------------------
// Cell coercion
// ---------------------------------------------------------------------------

/// The text rule: a string stands as itself, null is a null cell, and any
/// other value stringifies to its canonical text.
pub open spec fn text_cell(v: JVal) -> Option<Seq<char>> {
    match v {
        JVal::Null => None,
        JVal::Str(s) => Some(s),
        other => Some(render(other)),
    }
}

/// The rendering rule: null is a null cell, everything else stringifies,
/// strings included (so they keep their quotes).
pub open spec fn render_cell(v: JVal) -> Option<Seq<char>> {
    match v {
        JVal::Null => None,
        other => Some(render(other)),
    }
}

/// The number rule: a number token stands as its text; a string stands as
/// itself when it reads as a floating-point value; anything else is null.
pub open spec fn num_cell(v: JVal) -> Option<Seq<char>> {
    match v {
        JVal::Num(t) => Some(t),
        JVal::Str(s) => if f64_text(s) {
            Some(s)
        } else {
            None
        },
        _ => None,
    }
}

/// The integer rule: the signed 64-bit reading of a number token or of a
/// numeric string; anything else is null.
pub open spec fn int_cell(v: JVal) -> Option<i64> {
    match v {
        JVal::Num(t) => num_i64(t),
        JVal::Str(s) => str_i64(s),
        _ => None,
    }
}

/// How free text reads as a boolean: `true`/`1`/`yes` and `false`/`0`/`no`,
/// ASCII-case-insensitively; anything else is null.
pub open spec fn bool_of_text(s: Seq<char>) -> Option<bool> {
    if ci_match(s, seq!['t', 'r', 'u', 'e']) || ci_match(s, seq!['1']) || ci_match(
        s,
        seq!['y', 'e', 's'],
    ) {
        Some(true)
    } else if ci_match(s, seq!['f', 'a', 'l', 's', 'e']) || ci_match(s, seq!['0']) || ci_match(
        s,
        seq!['n', 'o'],
    ) {
        Some(false)
    } else {
        None
    }
}

/// The boolean rule: a native boolean stands as itself, text reads by
/// `bool_of_text`, and a number is true exactly when it is nonzero;
/// anything else is null.
pub open spec fn bool_cell(v: JVal) -> Option<bool> {
    match v {
        JVal::Bool(b) => Some(b),
        JVal::Str(s) => bool_of_text(s),
        JVal::Num(t) => Some(!num_is_zero(t)),
        _ => None,
    }
}

// ---------------------------------------------------------------------------
// Columns and tables
// ---------------------------------------------------------------------------

/// The typed cells of one column. A number cell keeps the numeric text it
/// was coerced from.
#[derive(Debug, PartialEq)]
pub enum Cells {
    Texts(Vec<Option<String>>),
    Nums(Vec<Option<String>>),
    Ints(Vec<Option<i64>>),
    Bools(Vec<Option<bool>>),
}

#[verifier::ext_equal]
pub enum CellsV {
    Texts(Seq<Option<Seq<char>>>),
    Nums(Seq<Option<Seq<char>>>),
    Ints(Seq<Option<i64>>),
    Bools(Seq<Option<bool>>),
}

impl View for Cells {
    type V = CellsV;

    open spec fn view(&self) -> CellsV {
        match self {
            Cells::Texts(v) => CellsV::Texts(v@.map_values(|o: Option<String>| osv(o))),
            Cells::Nums(v) => CellsV::Nums(v@.map_values(|o: Option<String>| osv(o))),
            Cells::Ints(v) => CellsV::Ints(v@),
            Cells::Bools(v) => CellsV::Bools(v@),
        }
    }
}

pub open spec fn cells_len(c: CellsV) -> nat {
    match c {
        CellsV::Texts(s) => s.len(),
        CellsV::Nums(s) => s.len(),
        CellsV::Ints(s) => s.len(),
        CellsV::Bools(s) => s.len(),
    }
}

/// One output column.
#[derive(Debug, PartialEq)]
pub struct Column {
    pub alias: String,
    pub cells: Cells,
}

#[verifier::ext_equal]
pub struct ColumnV {
    pub alias: Seq<char>,
    pub cells: CellsV,
}

impl View for Column {
    type V = ColumnV;

    open spec fn view(&self) -> ColumnV {
        ColumnV { alias: self.alias@, cells: self.cells@ }
    }
}

/// A rectangular table: equally long columns under distinct aliases.
#[derive(Debug, PartialEq)]
pub struct Table {
    pub columns: Vec<Column>,
}

impl View for Table {
    type V = Seq<ColumnV>;

    open spec fn view(&self) -> Seq<ColumnV> {
        self.columns@.map_values(|c: Column| c@)
    }
}

pub open spec fn aliases_distinct(cols: Seq<ColumnV>) -> bool {
    forall|i: int, j: int|
        0 <= i < j < cols.len() ==> cols[i].alias != cols[j].alias
}

pub open spec fn lengths_equal(cols: Seq<ColumnV>) -> bool {
    forall|i: int|
        0 <= i < cols.len() ==> cells_len(#[trigger] cols[i].cells) == cells_len(cols[0].cells)
}

/// What it takes for columns to assemble into a table.
pub open spec fn table_ok(cols: Seq<ColumnV>) -> bool {
    aliases_distinct(cols) && lengths_equal(cols)
}

// ---------------------------------------------------------------------------
// The engine, mathematically
// ---------------------------------------------------------------------------

/// The value a row contributes under a source column name: missing keys and
/// non-object rows contribute null.
pub open spec fn row_value(row: JVal, name: Seq<char>) -> JVal {
    match row {
        JVal::Obj(ms) => match obj_lookup(ms, name) {
            Some(v) => v,
            None => JVal::Null,
        },
        _ => JVal::Null,
    }
}

/// Coerces a sequence of values into cells of the column type that `dt`
/// asks for. The datetime type follows the rendering rule in row-oriented
/// data and the text rule in column-oriented data.
pub open spec fn coerce_values(dt: DType, vs: Seq<JVal>, row_rule: bool) -> CellsV {
    match dt {
        DType::Text => CellsV::Texts(vs.map_values(|v: JVal| text_cell(v))),
        DType::Date => CellsV::Texts(vs.map_values(|v: JVal| text_cell(v))),
        DType::Datetime => if row_rule {
            CellsV::Texts(vs.map_values(|v: JVal| render_cell(v)))
        } else {
            CellsV::Texts(vs.map_values(|v: JVal| text_cell(v)))
        },
        DType::Number => CellsV::Nums(vs.map_values(|v: JVal| num_cell(v))),
        DType::Integer => CellsV::Ints(vs.map_values(|v: JVal| int_cell(v))),
        DType::Boolean => CellsV::Bools(vs.map_values(|v: JVal| bool_cell(v))),
    }
}

/// The cells of one column of row-oriented data.
pub open spec fn row_cells(rows: Seq<JVal>, cd: ColumnDefV) -> CellsV {
    coerce_values(dtype_of(cd.dtype), rows.map_values(|r: JVal| row_value(r, cd.name)), true)
}

/// The cells of one column of column-oriented data, before reconciliation:
/// an array is coerced elementwise, a scalar gives a single cell, a missing
/// key gives no cells.
pub open spec fn col_cells(ms: Seq<(Seq<char>, JVal)>, cd: ColumnDefV) -> CellsV {
    let dt = dtype_of(cd.dtype);
    match obj_lookup(ms, cd.name) {
        None => coerce_values(dt, Seq::empty(), false),
        Some(v) => match v {
            JVal::Arr(vs) => coerce_values(dt, vs, false),
            other => coerce_values(dt, seq![other], false),
        },
    }
}

/// The length that a column's array value contributes to the row count:
/// scalars and missing keys contribute nothing.
pub open spec fn arr_len_of(ms: Seq<(Seq<char>, JVal)>, cd: ColumnDefV) -> nat {
    match obj_lookup(ms, cd.name) {
        Some(v) => match v {
            JVal::Arr(vs) => vs.len(),
            _ => 0,
        },
        None => 0,
    }
}

/// The row count of column-oriented data: the longest array value under any
/// schema column.
pub open spec fn max_rows_of(ms: Seq<(Seq<char>, JVal)>, defs: Seq<ColumnDefV>) -> nat
    decreases defs.len(),
{
    if defs.len() == 0 {
        0
    } else {
        let rest = max_rows_of(ms, defs.subrange(0, defs.len() - 1));
        let l = arr_len_of(ms, defs[defs.len() - 1]);
        if l > rest {
            l
        } else {
            rest
        }
    }
}

/// Cells of the same column type, all null, `n` of them.
pub open spec fn null_cells(c: CellsV, n: nat) -> CellsV {
    match c {
        CellsV::Texts(_) => CellsV::Texts(Seq::new(n, |i: int| None)),
        CellsV::Nums(_) => CellsV::Nums(Seq::new(n, |i: int| None)),
        CellsV::Ints(_) => CellsV::Ints(Seq::new(n, |i: int| None)),
        CellsV::Bools(_) => CellsV::Bools(Seq::new(n, |i: int| None)),
    }
}

/// The single cell of `c`, repeated `n` times.
pub open spec fn repeat_first(c: CellsV, n: nat) -> CellsV {
    match c {
        CellsV::Texts(s) => CellsV::Texts(Seq::new(n, |i: int| s[0])),
        CellsV::Nums(s) => CellsV::Nums(Seq::new(n, |i: int| s[0])),
        CellsV::Ints(s) => CellsV::Ints(Seq::new(n, |i: int| s[0])),
        CellsV::Bools(s) => CellsV::Bools(Seq::new(n, |i: int| s[0])),
    }
}

/// Reconciliation: an empty column fills with nulls, a single cell
/// broadcasts when more rows exist, and everything else stands.
pub open spec fn reconcile(c: CellsV, mr: nat) -> CellsV {
    if cells_len(c) == 0 {
        null_cells(c, mr)
    } else if cells_len(c) == 1 && mr > 1 {
        repeat_first(c, mr)
    } else {
        c
    }
}

/// One finished column of column-oriented data: reconciliation applies only
/// when some array value fixed a positive row count.
pub open spec fn col_result(ms: Seq<(Seq<char>, JVal)>, cd: ColumnDefV, mr: nat) -> CellsV {
    if mr > 0 {
        reconcile(col_cells(ms, cd), mr)
    } else {
        col_cells(ms, cd)
    }
}

/// All finished columns of column-oriented data.
pub open spec fn cols_spec(ms: Seq<(Seq<char>, JVal)>, defs: Seq<ColumnDefV>) -> Seq<ColumnV> {
    defs.map_values(
        |cd: ColumnDefV| ColumnV { alias: cd.alias, cells: col_result(ms, cd, max_rows_of(ms, defs)) },
    )
}

pub open spec fn defs_distinct(defs: Seq<ColumnDefV>) -> bool {
    forall|i: int, j: int| 0 <= i < j < defs.len() ==> defs[i].alias != defs[j].alias
}

/// All columns of row-oriented data.
pub open spec fn rows_spec(rows: Seq<JVal>, defs: Seq<ColumnDefV>) -> Seq<ColumnV> {
    defs.map_values(|cd: ColumnDefV| ColumnV { alias: cd.alias, cells: row_cells(rows, cd) })
}

pub open spec fn defs_of(schema: Seq<ColumnDef>) -> Seq<ColumnDefV> {
    schema.map_values(|cd: ColumnDef| cd@)
}

/// The distinguishable outcomes of normalization.
pub enum NormErr {
    Shape,
    Build,
}

/// What normalization returns, for every data value and schema.
pub open spec fn normalize_spec(data: JVal, defs: Seq<ColumnDefV>) -> Result<
    Seq<ColumnV>,
    NormErr,
> {
    match data {
        JVal::Null => Ok(Seq::empty()),
        JVal::Arr(rows) => {
            let cols = rows_spec(rows, defs);
            if table_ok(cols) {
                Ok(cols)
            } else {
                Err(NormErr::Build)
            }
        },
        JVal::Obj(ms) => {
            let cols = cols_spec(ms, defs);
            if table_ok(cols) {
                Ok(cols)
            } else {
                Err(NormErr::Build)
            }
        },
        _ => Err(NormErr::Shape),
    }
}

// ---------------------------------------------------------------------------
// Executable cell coercion
// ---------------------------------------------------------------------------

fn cell_text(v: &Json) -> (r: Option<String>)
    ensures
        osv(r) == text_cell(v@),
{
    match v {
        Json::Null => None,
        Json::Str(s) => Some(s.clone()),
        _ => Some(to_text(v)),
    }
}

fn cell_render(v: &Json) -> (r: Option<String>)
    ensures
        osv(r) == render_cell(v@),
{
    match v {
        Json::Null => None,
        _ => Some(to_text(v)),
    }
}

fn cell_num(v: &Json) -> (r: Option<String>)
    ensures
        osv(r) == num_cell(v@),
{
    match v {
        Json::Num(t) => Some(t.clone()),
        Json::Str(s) => {
            let cs = chars_of(s.as_str());
            if check_f64_text(&cs) {
                Some(s.clone())
            } else {
                None
            }
        },
        _ => None,
    }
}

fn cell_int(v: &Json) -> (r: Option<i64>)
    ensures
        r == int_cell(v@),
{
    match v {
        Json::Num(t) => {
            let cs = chars_of(t.as_str());
            token_i64(&cs)
        },
        Json::Str(s) => {
            let cs = chars_of(s.as_str());
            parse_i64_text(&cs)
        },
        _ => None,
    }
}

fn bool_from_text(s: &str) -> (r: Option<bool>)
    ensures
        r == bool_of_text(s@),
{
    let cs = chars_of(s);
    proof {
        assert(suffix(cs@, 0) =~= cs@);
        reveal_strlit("true");
        reveal_strlit("1");
        reveal_strlit("yes");
        reveal_strlit("false");
        reveal_strlit("0");
        reveal_strlit("no");
        assert("true"@ =~= seq!['t', 'r', 'u', 'e']);
        assert("1"@ =~= seq!['1']);
        assert("yes"@ =~= seq!['y', 'e', 's']);
        assert("false"@ =~= seq!['f', 'a', 'l', 's', 'e']);
        assert("0"@ =~= seq!['0']);
        assert("no"@ =~= seq!['n', 'o']);
    }
    if check_ci(&cs, 0, &chars_of("true")) || check_ci(&cs, 0, &chars_of("1")) || check_ci(
        &cs,
        0,
        &chars_of("yes"),
    ) {
        Some(true)
    } else if check_ci(&cs, 0, &chars_of("false")) || check_ci(&cs, 0, &chars_of("0")) || check_ci(
        &cs,
        0,
        &chars_of("no"),
    ) {
        Some(false)
    } else {
        None
    }
}

fn cell_bool(v: &Json) -> (r: Option<bool>)
    ensures
        r == bool_cell(v@),
{
    match v {
        Json::Bool(b) => Some(*b),
        Json::Str(s) => bool_from_text(s.as_str()),
        Json::Num(t) => {
            let cs = chars_of(t.as_str());
            Some(token_nonzero(&cs))
        },
        _ => None,
    }
}

// ---------------------------------------------------------------------------
// Building columns
// ---------------------------------------------------------------------------

/// The values that a list of optional references stands for: an absent
/// reference stands for null.
pub open spec fn vals_view<'a>(vs: Seq<Option<&'a Json>>) -> Seq<JVal> {
    vs.map_values(
        |o: Option<&'a Json>|
            match o {
                Some(j) => jview(*j),
                None => JVal::Null,
            },
    )
}

#[verifier::loop_isolation(false)]
fn texts_loop(vals: &Vec<Option<&Json>>, render_rule: bool) -> (out: Vec<Option<String>>)
    ensures
        out@.len() == vals@.len(),
        forall|k: int|
            0 <= k < vals@.len() ==> osv(#[trigger] out@[k]) == (if render_rule {
                render_cell(vals_view(vals@)[k])
            } else {
                text_cell(vals_view(vals@)[k])
            }),
{
    let mut out: Vec<Option<String>> = Vec::new();
    let mut i: usize = 0;
    while i < vals.len()
        invariant
            i <= vals@.len(),
            out@.len() == i,
            forall|k: int|
                0 <= k < i ==> osv(#[trigger] out@[k]) == (if render_rule {
                    render_cell(vals_view(vals@)[k])
                } else {
                    text_cell(vals_view(vals@)[k])
                }),
        decreases vals@.len() - i,
    {
        let cell = match &vals[i] {
            None => None,
            Some(j) => if render_rule {
                cell_render(j)
            } else {
                cell_text(j)
            },
        };
        out.push(cell);
        i = i + 1;
    }
    out
}

#[verifier::loop_isolation(false)]
fn nums_loop(vals: &Vec<Option<&Json>>) -> (out: Vec<Option<String>>)
    ensures
        out@.len() == vals@.len(),
        forall|k: int|
            0 <= k < vals@.len() ==> osv(#[trigger] out@[k]) == num_cell(vals_view(vals@)[k]),
{
    let mut out: Vec<Option<String>> = Vec::new();
    let mut i: usize = 0;
    while i < vals.len()
        invariant
            i <= vals@.len(),
            out@.len() == i,
            forall|k: int|
                0 <= k < i ==> osv(#[trigger] out@[k]) == num_cell(vals_view(vals@)[k]),
        decreases vals@.len() - i,
    {
        let cell = match &vals[i] {
            None => None,
            Some(j) => cell_num(j),
        };
        out.push(cell);
        i = i + 1;
    }
    out
}

#[verifier::loop_isolation(false)]
fn ints_loop(vals: &Vec<Option<&Json>>) -> (out: Vec<Option<i64>>)
    ensures
        out@.len() == vals@.len(),
        forall|k: int| 0 <= k < vals@.len() ==> #[trigger] out@[k] == int_cell(vals_view(vals@)[k]),
{
    let mut out: Vec<Option<i64>> = Vec::new();
    let mut i: usize = 0;
    while i < vals.len()
        invariant
            i <= vals@.len(),
            out@.len() == i,
            forall|k: int| 0 <= k < i ==> #[trigger] out@[k] == int_cell(vals_view(vals@)[k]),
        decreases vals@.len() - i,
    {
        let cell = match &vals[i] {
            None => None,
            Some(j) => cell_int(j),
        };
        out.push(cell);
        i = i + 1;
    }
    out
}

#[verifier::loop_isolation(false)]
fn bools_loop(vals: &Vec<Option<&Json>>) -> (out: Vec<Option<bool>>)
    ensures
        out@.len() == vals@.len(),
        forall|k: int|
            0 <= k < vals@.len() ==> #[trigger] out@[k] == bool_cell(vals_view(vals@)[k]),
{
    let mut out: Vec<Option<bool>> = Vec::new();
    let mut i: usize = 0;
    while i < vals.len()
        invariant
            i <= vals@.len(),
            out@.len() == i,
            forall|k: int| 0 <= k < i ==> #[trigger] out@[k] == bool_cell(vals_view(vals@)[k]),
        decreases vals@.len() - i,
    {
        let cell = match &vals[i] {
            None => None,
            Some(j) => cell_bool(j),
        };
        out.push(cell);
        i = i + 1;
    }
    out
}

/// Coerces a list of optional values into cells of the type `dt` asks for.
fn build_cells(dt: &DType, vals: &Vec<Option<&Json>>, row_rule: bool) -> (c: Cells)
    ensures
        c@ == coerce_values(*dt, vals_view(vals@), row_rule),
{
    match dt {
        DType::Text => {
            let out = texts_loop(vals, false);
            proof {
                assert(out@.map_values(|o: Option<String>| osv(o)) =~= vals_view(
                    vals@,
                ).map_values(|v: JVal| text_cell(v)));
            }
            Cells::Texts(out)
        },
        DType::Date => {
            let out = texts_loop(vals, false);
            proof {
                assert(out@.map_values(|o: Option<String>| osv(o)) =~= vals_view(
                    vals@,
                ).map_values(|v: JVal| text_cell(v)));
            }
            Cells::Texts(out)
        },
        DType::Datetime => {
            if row_rule {
                let out = texts_loop(vals, true);
                proof {
                    assert(out@.map_values(|o: Option<String>| osv(o)) =~= vals_view(
                        vals@,
                    ).map_values(|v: JVal| render_cell(v)));
                }
                Cells::Texts(out)
            } else {
                let out = texts_loop(vals, false);
                proof {
                    assert(out@.map_values(|o: Option<String>| osv(o)) =~= vals_view(
                        vals@,
                    ).map_values(|v: JVal| text_cell(v)));
                }
                Cells::Texts(out)
            }
        },
        DType::Number => {
            let out = nums_loop(vals);
            proof {
                assert(out@.map_values(|o: Option<String>| osv(o)) =~= vals_view(
                    vals@,
                ).map_values(|v: JVal| num_cell(v)));
            }
            Cells::Nums(out)
        },
        DType::Integer => {
            let out = ints_loop(vals);
            proof {
                assert(out@ =~= vals_view(vals@).map_values(|v: JVal| int_cell(v)));
            }
            Cells::Ints(out)
        },
        DType::Boolean => {
            let out = bools_loop(vals);
            proof {
                assert(out@ =~= vals_view(vals@).map_values(|v: JVal| bool_cell(v)));
            }
            Cells::Bools(out)
        },
    }
}

/// The value a row contributes under a source column name.
fn row_value_x<'a>(row: &'a Json, name: &str) -> (r: Option<&'a Json>)
    ensures
        match r {
            Some(j) => row_value(row@, name@) == jview(*j),
            None => row_value(row@, name@) == JVal::Null,
        },
{
    match row {
        Json::Obj(ms) => obj_get(ms, name),
        _ => None,
    }
}

/// One column of row-oriented data.
#[verifier::loop_isolation(false)]
fn build_row_column(rows: &Vec<Json>, cd: &ColumnDef) -> (c: Column)
    ensures
        c@ == (ColumnV { alias: cd.alias@, cells: row_cells(jview_seq(rows@), cd@) }),
{
    proof {
        lemma_jview_seq(rows@);
    }
    let dt = parse_dtype(cd.dtype.as_str());
    let mut vals: Vec<Option<&Json>> = Vec::new();
    let mut i: usize = 0;
    while i < rows.len()
        invariant
            i <= rows@.len(),
            vals@.len() == i,
            forall|k: int|
                0 <= k < i ==> vals_view(vals@)[k] == row_value(
                    jview_seq(rows@)[k],
                    cd.name@,
                ),
        decreases rows@.len() - i,
    {
        let rv = row_value_x(&rows[i], cd.name.as_str());
        let ghost vals0 = vals@;
        vals.push(rv);
        proof {
            assert forall|k: int|
                0 <= k < i + 1 implies vals_view(vals@)[k] == row_value(
                jview_seq(rows@)[k],
                cd.name@,
            ) by {
                if k < i {
                    assert(vals@[k] == vals0[k]);
                    assert(vals_view(vals@)[k] == vals_view(vals0)[k]);
                } else {
                    assert(vals@[k] == rv);
                }
            }
        }
        i = i + 1;
    }
    let cells = build_cells(&dt, &vals, true);
    proof {
        assert(vals_view(vals@) =~= jview_seq(rows@).map_values(
            |r: JVal| row_value(r, cd@.name),
        ));
    }
    Column { alias: cd.alias.clone(), cells }
}

/// The row count that the arrays of column-oriented data fix.
#[verifier::loop_isolation(false)]
fn compute_max_rows(ms: &Vec<(String, Json)>, schema: &Vec<ColumnDef>) -> (mr: usize)
    ensures
        mr == max_rows_of(jview_pairs(ms@), defs_of(schema@)),
{
    let ghost msv = jview_pairs(ms@);
    let ghost defs = defs_of(schema@);
    let mut m: usize = 0;
    let mut j: usize = 0;
    proof {
        assert(defs.subrange(0, 0).len() == 0);
    }
    while j < schema.len()
        invariant
            j <= schema@.len(),
            m == max_rows_of(msv, defs.subrange(0, j as int)),
        decreases schema@.len() - j,
    {
        proof {
            assert(defs[j as int] == schema@[j as int]@);
        }
        let l: usize = match obj_get(ms, schema[j].name.as_str()) {
            Some(jv) => match jv {
                Json::Arr(vs) => {
                    proof {
                        lemma_jview_seq(vs@);
                        assert(arr_len_of(msv, defs[j as int]) == vs@.len());
                    }
                    vs.len()
                },
                _ => {
                    proof {
                        assert(arr_len_of(msv, defs[j as int]) == 0);
                    }
                    0
                },
            },
            None => {
                proof {
                    assert(arr_len_of(msv, defs[j as int]) == 0);
                }
                0
            },
        };
        proof {
            assert(defs.subrange(0, j + 1).subrange(0, j as int) =~= defs.subrange(0, j as int));
            assert(defs.subrange(0, j + 1)[j as int] == defs[j as int]);
        }
        if l > m {
            m = l;
        }
        j = j + 1;
    }
    proof {
        assert(defs.subrange(0, defs.len() as int) =~= defs);
    }
    m
}

fn fill_none_s(n: usize) -> (out: Vec<Option<String>>)
    ensures
        out@.map_values(|o: Option<String>| osv(o)) == Seq::new(
            n as nat,
            |i: int| None::<Seq<char>>,
        ),
{
    let mut out: Vec<Option<String>> = Vec::new();
    let mut i: usize = 0;
    while i < n
        invariant
            i <= n,
            out@.len() == i,
            forall|k: int| 0 <= k < i ==> #[trigger] out@[k] is None,
        decreases n - i,
    {
        out.push(None);
        i = i + 1;
    }
    proof {
        assert(out@.map_values(|o: Option<String>| osv(o)) =~= Seq::new(
            n as nat,
            |i: int| None::<Seq<char>>,
        ));
    }
    out
}

fn fill_none_i(n: usize) -> (out: Vec<Option<i64>>)
    ensures
        out@ == Seq::new(n as nat, |i: int| None::<i64>),
{
    let mut out: Vec<Option<i64>> = Vec::new();
    let mut i: usize = 0;
    while i < n
        invariant
            i <= n,
            out@.len() == i,
            forall|k: int| 0 <= k < i ==> #[trigger] out@[k] is None,
        decreases n - i,
    {
        out.push(None);
        i = i + 1;
    }
    proof {
        assert(out@ =~= Seq::new(n as nat, |i: int| None::<i64>));
    }
    out
}

fn fill_none_b(n: usize) -> (out: Vec<Option<bool>>)
    ensures
        out@ == Seq::new(n as nat, |i: int| None::<bool>),
{
    let mut out: Vec<Option<bool>> = Vec::new();
    let mut i: usize = 0;
    while i < n
        invariant
            i <= n,
            out@.len() == i,
            forall|k: int| 0 <= k < i ==> #[trigger] out@[k] is None,
        decreases n - i,
    {
        out.push(None);
        i = i + 1;
    }
    proof {
        assert(out@ =~= Seq::new(n as nat, |i: int| None::<bool>));
    }
    out
}

fn rep_s(o: &Option<String>, n: usize) -> (out: Vec<Option<String>>)
    ensures
        out@.map_values(|x: Option<String>| osv(x)) == Seq::new(n as nat, |i: int| osv(*o)),
{
    let mut out: Vec<Option<String>> = Vec::new();
    let mut i: usize = 0;
    while i < n
        invariant
            i <= n,
            out@.len() == i,
            forall|k: int| 0 <= k < i ==> osv(#[trigger] out@[k]) == osv(*o),
        decreases n - i,
    {
        let c = match o {
            Some(s) => Some(s.clone()),
            None => None,
        };
        out.push(c);
        i = i + 1;
    }
    proof {
        assert(out@.map_values(|x: Option<String>| osv(x)) =~= Seq::new(
            n as nat,
            |i: int| osv(*o),
        ));
    }
    out
}

fn rep_i(o: Option<i64>, n: usize) -> (out: Vec<Option<i64>>)
    ensures
        out@ == Seq::new(n as nat, |i: int| o),
{
    let mut out: Vec<Option<i64>> = Vec::new();
    let mut i: usize = 0;
    while i < n
        invariant
            i <= n,
            out@.len() == i,
            forall|k: int| 0 <= k < i ==> #[trigger] out@[k] == o,
        decreases n - i,
    {
        out.push(o);
        i = i + 1;
    }
    proof {
        assert(out@ =~= Seq::new(n as nat, |i: int| o));
    }
    out
}

fn rep_b(o: Option<bool>, n: usize) -> (out: Vec<Option<bool>>)
    ensures
        out@ == Seq::new(n as nat, |i: int| o),
{
    let mut out: Vec<Option<bool>> = Vec::new();
    let mut i: usize = 0;
    while i < n
        invariant
            i <= n,
            out@.len() == i,
            forall|k: int| 0 <= k < i ==> #[trigger] out@[k] == o,
        decreases n - i,
    {
        out.push(o);
        i = i + 1;
    }
    proof {
        assert(out@ =~= Seq::new(n as nat, |i: int| o));
    }
    out
}

/// Fills an empty column with nulls and broadcasts a single cell.
fn reconcile_cells(c: Cells, mr: usize) -> (r: Cells)
    requires
        mr >= 1,
    ensures
        r@ == reconcile(c@, mr as nat),
{
    match c {
        Cells::Texts(v) => {
            if v.len() == 0 {
                Cells::Texts(fill_none_s(mr))
            } else if v.len() == 1 && mr > 1 {
                let out = rep_s(&v[0], mr);
                proof {
                    assert(osv(v@[0]) == v@.map_values(|o: Option<String>| osv(o))[0]);
                }
                Cells::Texts(out)
            } else {
                Cells::Texts(v)
            }
        },
        Cells::Nums(v) => {
            if v.len() == 0 {
                Cells::Nums(fill_none_s(mr))
            } else if v.len() == 1 && mr > 1 {
                let out = rep_s(&v[0], mr);
                proof {
                    assert(osv(v@[0]) == v@.map_values(|o: Option<String>| osv(o))[0]);
                }
                Cells::Nums(out)
            } else {
                Cells::Nums(v)
            }
        },
        Cells::Ints(v) => {
            if v.len() == 0 {
                Cells::Ints(fill_none_i(mr))
            } else if v.len() == 1 && mr > 1 {
                Cells::Ints(rep_i(v[0], mr))
            } else {
                Cells::Ints(v)
            }
        },
        Cells::Bools(v) => {
            if v.len() == 0 {
                Cells::Bools(fill_none_b(mr))
            } else if v.len() == 1 && mr > 1 {
                Cells::Bools(rep_b(v[0], mr))
            } else {
                Cells::Bools(v)
            }
        },
    }
}

/// One finished column of column-oriented data.
#[verifier::loop_isolation(false)]
fn build_col_column(ms: &Vec<(String, Json)>, cd: &ColumnDef, mr: usize) -> (c: Column)
    ensures
        c@ == (ColumnV {
            alias: cd.alias@,
            cells: col_result(jview_pairs(ms@), cd@, mr as nat),
        }),
{
    let dt = parse_dtype(cd.dtype.as_str());
    let pre: Cells = match obj_get(ms, cd.name.as_str()) {
        None => {
            let vals: Vec<Option<&Json>> = Vec::new();
            let c = build_cells(&dt, &vals, false);
            proof {
                assert(vals_view(vals@) =~= Seq::<JVal>::empty());
            }
            c
        },
        Some(j) => {
            match j {
                Json::Arr(vs) => {
                    proof {
                        lemma_jview_seq(vs@);
                    }
                    let mut vals: Vec<Option<&Json>> = Vec::new();
                    let mut i: usize = 0;
                    while i < vs.len()
                        invariant
                            i <= vs@.len(),
                            vals@.len() == i,
                            forall|k: int|
                                0 <= k < i ==> vals_view(vals@)[k] == jview_seq(vs@)[k],
                        decreases vs@.len() - i,
                    {
                        vals.push(Some(&vs[i]));
                        i = i + 1;
                    }
                    let c = build_cells(&dt, &vals, false);
                    proof {
                        assert(vals_view(vals@) =~= jview_seq(vs@));
                    }
                    c
                },
                _ => {
                    let mut vals: Vec<Option<&Json>> = Vec::new();
                    vals.push(Some(j));
                    let c = build_cells(&dt, &vals, false);
                    proof {
                        assert(vals_view(vals@) =~= seq![jview(*j)]);
                    }
                    c
                },
            }
        },
    };
    let cells = if mr > 0 {
        reconcile_cells(pre, mr)
    } else {
        pre
    };
    Column { alias: cd.alias.clone(), cells }
}

/// The number of cells of a column.
fn cells_count(c: &Cells) -> (n: usize)
    ensures
        n == cells_len(c@),
{
    match c {
        Cells::Texts(v) => v.len(),
        Cells::Nums(v) => v.len(),
        Cells::Ints(v) => v.len(),
        Cells::Bools(v) => v.len(),
    }
}

/// Assembles columns into a table: they must be equally long and carry
/// distinct aliases, exactly as `table_ok` says.
#[verifier::loop_isolation(false)]
fn table_new(columns: Vec<Column>) -> (r: Result<Table, DataError>)
    ensures
        (table_ok(columns@.map_values(|c: Column| c@)) <==> r is Ok),
        r matches Ok(t) ==> t@ == columns@.map_values(|c: Column| c@),
        r matches Err(e) ==> e is BuildFailed,
{
    let ghost cols = columns@.map_values(|c: Column| c@);
    let n = columns.len();
    let mut i: usize = 0;
    while i < n
        invariant
            i <= n,
            n == columns@.len(),
            cols == columns@.map_values(|c: Column| c@),
            forall|a: int, b: int| 0 <= a < b < n && a < i ==> cols[a].alias != cols[b].alias,
        decreases n - i,
    {
        let mut j: usize = i + 1;
        while j < n
            invariant
                i < j <= n || (i + 1 == j && j > n),
                i < n,
                n == columns@.len(),
                cols == columns@.map_values(|c: Column| c@),
                forall|b: int| i < b < j ==> cols[i as int].alias != cols[b].alias,
            decreases n - j,
        {
            if str_eq(columns[i].alias.as_str(), columns[j].alias.as_str()) {
                proof {
                    assert(cols[i as int] == columns@[i as int]@);
                    assert(cols[j as int] == columns@[j as int]@);
                    assert(cols[i as int].alias == cols[j as int].alias);
                    assert(!aliases_distinct(cols));
                }
                return Err(DataError::BuildFailed("duplicate column alias".to_owned()));
            }
            j = j + 1;
        }
        i = i + 1;
    }
    if n > 0 {
        proof {
            assert(cols[0] == columns@[0]@);
        }
        let first = cells_count(&columns[0].cells);
        let mut k: usize = 1;
        while k < n
            invariant
                1 <= k <= n,
                n == columns@.len(),
                n > 0,
                cols == columns@.map_values(|c: Column| c@),
                first == cells_len(cols[0].cells),
                forall|b: int| 0 <= b < k ==> cells_len(#[trigger] cols[b].cells) == first,
            decreases n - k,
        {
            if cells_count(&columns[k].cells) != first {
                proof {
                    assert(cols[k as int] == columns@[k as int]@);
                    assert(cols[0] == columns@[0]@);
                    assert(cells_len(cols[k as int].cells) != cells_len(cols[0].cells));
                    assert(!lengths_equal(cols));
                }
                return Err(DataError::BuildFailed("columns differ in length".to_owned()));
            }
            k = k + 1;
        }
    }
    Ok(Table { columns })
}

/// Normalizes a raw JSON payload into a typed table according to a schema.
///
/// Null data gives an empty table; an array of row objects gives one row per
/// element; an object of column values is reconciled to a rectangle; any
/// other shape is rejected.
#[verifier::loop_isolation(false)]
pub fn normalize(data: &Json, schema: &Vec<ColumnDef>) -> (r: Result<Table, DataError>)
    ensures
        (r is Ok <==> normalize_spec(data@, defs_of(schema@)) is Ok),
        r matches Ok(t) ==> normalize_spec(data@, defs_of(schema@)) == Ok::<_, NormErr>(t@),
        r matches Err(e) ==> ((e is InvalidShape) <==> normalize_spec(data@, defs_of(schema@))
            == Err::<Seq<ColumnV>, _>(NormErr::Shape)),
        r matches Err(e) ==> ((e is BuildFailed) <==> normalize_spec(data@, defs_of(schema@))
            == Err::<Seq<ColumnV>, _>(NormErr::Build)),
{
    let ghost defs = defs_of(schema@);
    match data {
        Json::Null => {
            let t = Table { columns: Vec::new() };
            proof {
                assert(t@ =~= Seq::<ColumnV>::empty());
            }
            Ok(t)
        },
        Json::Arr(rows) => {
            proof {
                lemma_jview_seq(rows@);
            }
            let mut columns: Vec<Column> = Vec::new();
            let mut j: usize = 0;
            while j < schema.len()
                invariant
                    j <= schema@.len(),
                    columns@.len() == j,
                    defs == defs_of(schema@),
                    forall|k: int|
                        0 <= k < j ==> columns@.map_values(|c: Column| c@)[k] == rows_spec(
                            jview_seq(rows@),
                            defs,
                        )[k],
                decreases schema@.len() - j,
            {
                let c = build_row_column(rows, &schema[j]);
                columns.push(c);
                j = j + 1;
            }
            proof {
                assert(columns@.map_values(|c: Column| c@) =~= rows_spec(jview_seq(rows@), defs));
            }
            table_new(columns)
        },
        Json::Obj(ms) => {
            proof {
                lemma_jview_pairs(ms@);
            }
            let mr = compute_max_rows(ms, schema);
            let mut columns: Vec<Column> = Vec::new();
            let mut j: usize = 0;
            while j < schema.len()
                invariant
                    j <= schema@.len(),
                    columns@.len() == j,
                    defs == defs_of(schema@),
                    mr == max_rows_of(jview_pairs(ms@), defs),
                    forall|k: int|
                        0 <= k < j ==> columns@.map_values(|c: Column| c@)[k] == cols_spec(
                            jview_pairs(ms@),
                            defs,
                        )[k],
                decreases schema@.len() - j,
            {
                let c = build_col_column(ms, &schema[j], mr);
                columns.push(c);
                j = j + 1;
            }
            proof {
                assert(columns@.map_values(|c: Column| c@) =~= cols_spec(jview_pairs(ms@), defs));
            }
            table_new(columns)
        },
        _ => Err(DataError::InvalidShape),
    }
}

// ---------------------------------------------------------------------------
// Laws of the engine
// ---------------------------------------------------------------------------

/// Every coercion yields exactly one cell per input value.
pub proof fn lemma_coerce_len(dt: DType, vs: Seq<JVal>, row_rule: bool)
    ensures
        cells_len(coerce_values(dt, vs, row_rule)) == vs.len(),
{
}

/// No array value is longer than the row count they fix together.
pub proof fn lemma_max_rows_bound(ms: Seq<(Seq<char>, JVal)>, defs: Seq<ColumnDefV>, j: int)
    requires
        0 <= j < defs.len(),
    ensures
        arr_len_of(ms, defs[j]) <= max_rows_of(ms, defs),
    decreases defs.len(),
{
    if j == defs.len() - 1 {
    } else {
        let front = defs.subrange(0, defs.len() - 1);
        assert(front[j] == defs[j]);
        lemma_max_rows_bound(ms, front, j);
    }
}

/// Law: for row-oriented data under distinct aliases, normalization
/// succeeds with one column per schema entry, carrying that entry's alias,
/// and one cell per row in every column.
pub proof fn lemma_row_oriented_shape(rows: Seq<JVal>, defs: Seq<ColumnDefV>)
    requires
        defs_distinct(defs),
    ensures
        normalize_spec(JVal::Arr(rows), defs) is Ok,
        ({
            let cols = normalize_spec(JVal::Arr(rows), defs)->Ok_0;
            &&& cols.len() == defs.len()
            &&& forall|j: int| 0 <= j < defs.len() ==> (#[trigger] cols[j]).alias == defs[j].alias
            &&& forall|j: int|
                0 <= j < defs.len() ==> cells_len((#[trigger] cols[j]).cells) == rows.len()
        }),
{
    let cols = rows_spec(rows, defs);
    assert forall|j: int| 0 <= j < defs.len() implies cells_len(
        (#[trigger] cols[j]).cells,
    ) == rows.len() by {
        lemma_coerce_len(
            dtype_of(defs[j].dtype),
            rows.map_values(|r: JVal| row_value(r, defs[j].name)),
            true,
        );
    }
    assert(table_ok(cols));
}

/// The number of cells a column of column-oriented data has before
/// reconciliation: its array's length, one for a scalar, none when absent.
pub proof fn lemma_col_cells_len(ms: Seq<(Seq<char>, JVal)>, cd: ColumnDefV)
    ensures
        cells_len(col_cells(ms, cd)) == (match obj_lookup(ms, cd.name) {
            None => 0nat,
            Some(v) => match v {
                JVal::Arr(vs) => vs.len(),
                _ => 1nat,
            },
        }),
{
    let dt = dtype_of(cd.dtype);
    match obj_lookup(ms, cd.name) {
        None => {
            lemma_coerce_len(dt, Seq::empty(), false);
        },
        Some(v) => match v {
            JVal::Arr(vs) => {
                lemma_coerce_len(dt, vs, false);
            },
            other => {
                lemma_coerce_len(dt, seq![other], false);
            },
        },
    }
}

/// Law: when some array value fixes a positive row count and every array
/// value is empty, single, or exactly that long, reconciliation leaves every
/// output column with exactly that many cells.
pub proof fn lemma_reconciled_lengths(ms: Seq<(Seq<char>, JVal)>, defs: Seq<ColumnDefV>, j: int)
    requires
        0 <= j < defs.len(),
        max_rows_of(ms, defs) > 0,
        arr_len_of(ms, defs[j]) == 0 || arr_len_of(ms, defs[j]) == 1 || arr_len_of(ms, defs[j])
            == max_rows_of(ms, defs),
    ensures
        cells_len(cols_spec(ms, defs)[j].cells) == max_rows_of(ms, defs),
{
    let mr = max_rows_of(ms, defs);
    lemma_col_cells_len(ms, defs[j]);
    assert(cols_spec(ms, defs)[j].cells == col_result(ms, defs[j], mr));
}

/// Law: when no array value fixes a row count, a column that is absent or
/// array-valued comes out empty.
pub proof fn lemma_no_rows_no_cells(ms: Seq<(Seq<char>, JVal)>, defs: Seq<ColumnDefV>, j: int)
    requires
        0 <= j < defs.len(),
        max_rows_of(ms, defs) == 0,
        match obj_lookup(ms, defs[j].name) {
            None => true,
            Some(v) => v is Arr,
        },
    ensures
        cells_len(cols_spec(ms, defs)[j].cells) == 0,
{
    lemma_max_rows_bound(ms, defs, j);
    lemma_col_cells_len(ms, defs[j]);
    assert(cols_spec(ms, defs)[j].cells == col_result(ms, defs[j], 0));
}

/// Broadcast law: a scalar value under a schema column, when the row count
/// is greater than one, yields that many cells, every one of them the
/// single coerced form of the scalar.
pub proof fn lemma_scalar_broadcast(ms: Seq<(Seq<char>, JVal)>, defs: Seq<ColumnDefV>, j: int)
    requires
        0 <= j < defs.len(),
        max_rows_of(ms, defs) > 1,
        obj_lookup(ms, defs[j].name) is Some,
        !(obj_lookup(ms, defs[j].name)->Some_0 is Arr),
    ensures
        cols_spec(ms, defs)[j].cells == repeat_first(
            col_cells(ms, defs[j]),
            max_rows_of(ms, defs),
        ),
        cells_len(cols_spec(ms, defs)[j].cells) == max_rows_of(ms, defs),
{
    let mr = max_rows_of(ms, defs);
    lemma_col_cells_len(ms, defs[j]);
    assert(cols_spec(ms, defs)[j].cells == col_result(ms, defs[j], mr));
}

/// Null-fill law: a schema column absent from column-oriented data yields
/// exactly `max_rows` cells, all of them null.
pub proof fn lemma_absent_null_fill(ms: Seq<(Seq<char>, JVal)>, defs: Seq<ColumnDefV>, j: int)
    requires
        0 <= j < defs.len(),
        max_rows_of(ms, defs) > 0,
        obj_lookup(ms, defs[j].name) is None,
    ensures
        cols_spec(ms, defs)[j].cells == null_cells(
            col_cells(ms, defs[j]),
            max_rows_of(ms, defs),
        ),
        cells_len(cols_spec(ms, defs)[j].cells) == max_rows_of(ms, defs),
{
    let mr = max_rows_of(ms, defs);
    lemma_col_cells_len(ms, defs[j]);
    assert(cols_spec(ms, defs)[j].cells == col_result(ms, defs[j], mr));
}

/// Boolean coercion law: text yields true only in its three affirmative
/// forms, false only in its three negative forms, and otherwise no value.
pub proof fn lemma_bool_text_forms(s: Seq<char>)
    ensures
        bool_of_text(s) == Some(true) <==> (ci_match(s, seq!['t', 'r', 'u', 'e']) || ci_match(
            s,
            seq!['1'],
        ) || ci_match(s, seq!['y', 'e', 's'])),
        bool_of_text(s) == Some(false) <==> (!(ci_match(s, seq!['t', 'r', 'u', 'e']) || ci_match(
            s,
            seq!['1'],
        ) || ci_match(s, seq!['y', 'e', 's'])) && (ci_match(s, seq!['f', 'a', 'l', 's', 'e'])
            || ci_match(s, seq!['0']) || ci_match(s, seq!['n', 'o']))),
{
}

impl ProtoDataFrame {
    /// Normalizes this wire-form payload into a typed table, reporting any
    /// failure as a table-construction error.
    pub fn to_dataframe(self) -> (r: Result<Table, CoreError>)
        ensures
            (r is Ok <==> normalize_spec(self.data@, defs_of(self.schema@)) is Ok),
            r matches Ok(t) ==> normalize_spec(self.data@, defs_of(self.schema@)) == Ok::<
                _,
                NormErr,
            >(t@),
            r matches Err(e) ==> e is DataFrameError,
    {
        match normalize(&self.data, &self.schema) {
            Ok(t) => Ok(t),
            Err(DataError::InvalidShape) => Err(
                CoreError::DataFrameError(
                    "data must be an array or object to convert to a table".to_owned(),
                ),
            ),
            Err(DataError::BuildFailed(m)) => Err(CoreError::DataFrameError(m)),
        }
    }
}

} // verus!
