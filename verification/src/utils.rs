//! Column-wise conversions between binary and hex-string representations of
//! a generic table, as applied to catalog and decoded output tables before
//! they are written.

use vstd::prelude::*;
use crate::abi::{AbiItemRow, AbiItemRowV};
use crate::config::LogAliasConfig;
use crate::config::TraceAliasConfig;
use crate::hexutil::{
    hex_prefixed, is_hex_seq, is_lower_hex_seq, bytes_of_hex, strip_hex_prefix, hex_string_to_bytes,
    bytes_to_hex_prefixed, lemma_hex_round_trip_str,
};
use crate::rows::{
    CellValue, CellValueV, clone_cell, clone_cells, opt_bytes_view, DecodedLogRow, DecodedLogRowV,
    DecodedTraceRow, DecodedTraceRowV, SigInfoV,
};
use crate::strutil::str_eq;

verus! {

/// The declared kind of one table column.
#[derive(Clone, Copy, Debug, PartialEq, Eq, Structural)]
pub enum CellKind {
    Bin,
    Str,
    UInt,
    Int,
    Bool,
    StrList,
}

/// A generic table: named, kinded columns over rows of cells. Any cell may
/// be null.
pub struct Table {
    pub names: Vec<String>,
    pub kinds: Vec<CellKind>,
    pub rows: Vec<Vec<CellValue>>,
}

/// Abstract value of [`Table`].
pub ghost struct TableV {
    pub names: Seq<Seq<char>>,
    pub kinds: Seq<CellKind>,
    pub rows: Seq<Seq<CellValueV>>,
}

impl View for Table {
    type V = TableV;

    open spec fn view(&self) -> TableV {
        TableV {
            names: self.names.deep_view(),
            kinds: self.kinds@,
            rows: Seq::new(self.rows@.len(), |i: int| self.rows@[i].deep_view()),
        }
    }
}

/// Whether a cell carries a value of a column kind, or is null.
pub open spec fn cell_fits(c: CellValueV, k: CellKind) -> bool {
    match c {
        CellValueV::Null => true,
        CellValueV::Bin(_) => k == CellKind::Bin,
        CellValueV::Str(_) => k == CellKind::Str,
        CellValueV::UInt(_) => k == CellKind::UInt,
        CellValueV::Int(_) => k == CellKind::Int,
        CellValueV::Bool(_) => k == CellKind::Bool,
        CellValueV::StrList(_) => k == CellKind::StrList,
    }
}

/// Whether a table is well formed: one kind and one name per column, every
/// row as wide as the header, every cell fitting its column kind.
pub open spec fn table_wf(t: TableV) -> bool {
    &&& t.kinds.len() == t.names.len()
    &&& forall|i: int| 0 <= i < t.rows.len() ==> (#[trigger] t.rows[i]).len() == t.kinds.len()
    &&& forall|i: int, j: int|
        0 <= i < t.rows.len() && 0 <= j < t.kinds.len() ==> cell_fits(
            #[trigger] t.rows[i][j],
            t.kinds[j],
        )
}

/// One cell after hex encoding of a binary column: bytes become the
/// `0x`-prefixed lower-case hex string, a null cell becomes the bare `0x`
/// prefix, as the engine's prefix concatenation leaves it.
pub open spec fn hex_encode_cell(c: CellValueV) -> CellValueV {
    match c {
        CellValueV::Bin(b) => CellValueV::Str(hex_prefixed(b)),
        CellValueV::Null => CellValueV::Str("0x"@),
        _ => c,
    }
}

/// A whole table after hex encoding: every binary column becomes a string
/// column of `0x`-prefixed lower-case hex, every other column is unchanged.
pub open spec fn hex_encode_table(t: TableV) -> TableV {
    TableV {
        names: t.names,
        kinds: Seq::new(
            t.kinds.len(),
            |j: int|
                if t.kinds[j] == CellKind::Bin {
                    CellKind::Str
                } else {
                    t.kinds[j]
                },
        ),
        rows: Seq::new(
            t.rows.len(),
            |i: int|
                Seq::new(
                    t.rows[i].len(),
                    |j: int|
                        if 0 <= j < t.kinds.len() && t.kinds[j] == CellKind::Bin {
                            hex_encode_cell(t.rows[i][j])
                        } else {
                            t.rows[i][j]
                        },
                ),
        ),
    }
}

/// Hex-encodes every binary column of a table: each byte cell becomes its
/// `0x`-prefixed lower-case hex string, null cells of binary columns become
/// the bare prefix, and no other column is altered.
pub fn binary_columns_to_hex_string(t: &Table) -> (r: Table)
    ensures
        r@ == hex_encode_table(t@),
{
    let ghost tv = t@;
    let mut kinds: Vec<CellKind> = Vec::new();
    let mut j: usize = 0;
    while j < t.kinds.len()
        invariant
            j <= t.kinds@.len(),
            tv == t@,
            tv.kinds.len() == t.kinds@.len(),
            kinds@ =~= hex_encode_table(tv).kinds.take(j as int),
        decreases t.kinds@.len() - j,
    {
        let k = match t.kinds[j] {
            CellKind::Bin => CellKind::Str,
            other => other,
        };
        kinds.push(k);
        assert(kinds@ =~= hex_encode_table(tv).kinds.take(j + 1 as int));
        j = j + 1;
    }
    proof {
        assert(hex_encode_table(tv).kinds.take(tv.kinds.len() as int) =~= hex_encode_table(
            tv,
        ).kinds);
    }
    let mut rows: Vec<Vec<CellValue>> = Vec::new();
    let mut i: usize = 0;
    while i < t.rows.len()
        invariant
            i <= t.rows@.len(),
            tv == t@,
            tv.rows.len() == t.rows@.len(),
            tv.kinds.len() == t.kinds@.len(),
            Seq::new(rows@.len(), |q: int| rows@[q].deep_view()) =~= hex_encode_table(
                tv,
            ).rows.take(i as int),
        decreases t.rows@.len() - i,
    {
        let mut row: Vec<CellValue> = Vec::new();
        let width = t.rows[i].len();
        let mut c: usize = 0;
        while c < width
            invariant
                c <= width,
                i < t.rows@.len(),
                tv == t@,
                tv.rows.len() == t.rows@.len(),
                tv.kinds.len() == t.kinds@.len(),
                width == t.rows@[i as int]@.len(),
                tv.rows[i as int].len() == width,
                row.deep_view() =~= hex_encode_table(tv).rows[i as int].take(c as int),
            decreases width - c,
        {
            proof {
                assert(tv.rows[i as int][c as int] == t.rows@[i as int]@[c as int]@);
            }
            let is_bin_col = c < t.kinds.len() && match t.kinds[c] {
                CellKind::Bin => true,
                _ => false,
            };
            let ghost pre = row@;
            let ghost pd = row.deep_view();
            let cell: CellValue = if is_bin_col {
                match &t.rows[i][c] {
                    CellValue::Bin(b) => CellValue::Str(bytes_to_hex_prefixed(b)),
                    CellValue::Null => {
                        proof {
                            reveal_strlit("0x");
                        }
                        CellValue::Str(String::from_str("0x"))
                    },
                    other => clone_cell(other),
                }
            } else {
                clone_cell(&t.rows[i][c])
            };
            row.push(cell);
            proof {
                assert(row@ == pre.push(cell));
                assert(pd.len() == pre.len());
                assert forall|q: int| 0 <= q < row.deep_view().len() implies row.deep_view()[q]
                    == hex_encode_table(tv).rows[i as int].take(c + 1 as int)[q] by {
                    if q < pre.len() {
                        assert(row@[q] == pre[q]);
                        assert(pd[q] == pre[q]@);
                        assert(pd[q] == hex_encode_table(tv).rows[i as int].take(c as int)[q]);
                    } else {
                        assert(row@[q] == cell);
                    }
                }
                assert(row.deep_view() =~= hex_encode_table(tv).rows[i as int].take(c + 1 as int));
            }
            c = c + 1;
        }
        proof {
            assert(hex_encode_table(tv).rows[i as int].take(width as int) =~= hex_encode_table(
                tv,
            ).rows[i as int]);
        }
        let ghost prer = rows@;
        let ghost prd = Seq::new(rows@.len(), |q: int| rows@[q].deep_view());
        rows.push(row);
        proof {
            assert(rows@ == prer.push(row));
            assert(prd.len() == prer.len());
            assert(hex_encode_table(tv).rows.take(i as int).len() == i);
            assert(prer.len() == i);
            assert forall|q: int| 0 <= q < rows@.len() implies (#[trigger] rows@[q]).deep_view()
                == hex_encode_table(tv).rows.take(i + 1 as int)[q] by {
                if q < prer.len() {
                    assert(rows@[q] == prer[q]);
                    assert(prd[q] == prer[q].deep_view());
                    assert(prd[q] == hex_encode_table(tv).rows.take(i as int)[q]);
                } else {
                    assert(rows@[q] == row);
                }
            }
            assert(Seq::new(rows@.len(), |q: int| rows@[q].deep_view()) =~= hex_encode_table(
                tv,
            ).rows.take(i + 1 as int));
        }
        i = i + 1;
    }
    proof {
        assert(hex_encode_table(tv).rows.take(tv.rows.len() as int) =~= hex_encode_table(tv).rows);
    }
    let names = crate::config::clone_string_vec(&t.names);
    let r = Table { names, kinds, rows };
    proof {
        assert(r@.rows =~= hex_encode_table(tv).rows);
        assert(r@ =~= hex_encode_table(tv));
    }
    r
}

/// One cell after hex decoding of a converted column: a string cell is
/// stripped of its optional `0x` prefix and read as hex; `None` when the
/// text is not well-formed hex. Null cells stay null.
pub open spec fn hex_decode_cell(c: CellValueV) -> Option<CellValueV> {
    match c {
        CellValueV::Str(s) => if is_hex_seq(strip_hex_prefix(s)) {
            Some(CellValueV::Bin(bytes_of_hex(strip_hex_prefix(s))))
        } else {
            None
        },
        _ => Some(c),
    }
}

/// Whether a column name is among the names to convert.
pub open spec fn name_in(names: Seq<Seq<char>>, name: Seq<char>) -> bool {
    exists|i: int| 0 <= i < names.len() && names[i] == name
}

/// A whole table after hex decoding of the named columns; `None` when any
/// cell of a converted column is not well-formed hex.
pub open spec fn hex_decode_table(t: TableV, convert: Seq<Seq<char>>) -> Option<TableV> {
    if forall|i: int, j: int|
        0 <= i < t.rows.len() && 0 <= j < t.rows[i].len() && j < t.names.len() && name_in(
            convert,
            t.names[j],
        ) ==> hex_decode_cell(#[trigger] t.rows[i][j]) is Some {
        Some(
            TableV {
                names: t.names,
                kinds: Seq::new(
                    t.kinds.len(),
                    |j: int|
                        if j < t.names.len() && name_in(convert, t.names[j]) && t.kinds[j]
                            == CellKind::Str {
                            CellKind::Bin
                        } else {
                            t.kinds[j]
                        },
                ),
                rows: Seq::new(
                    t.rows.len(),
                    |i: int|
                        Seq::new(
                            t.rows[i].len(),
                            |j: int|
                                if 0 <= j < t.names.len() && name_in(convert, t.names[j]) {
                                    hex_decode_cell(t.rows[i][j]).unwrap()
                                } else {
                                    t.rows[i][j]
                                },
                        ),
                ),
            },
        )
    } else {
        None
    }
}

/// Hex-decodes the named columns of a table: each string cell of a named
/// column is stripped of its optional `0x` prefix and decoded to bytes; the
/// whole conversion fails on the first cell that is not well-formed hex.
pub fn hex_string_columns_to_binary(t: &Table, convert: &Vec<String>) -> (r: Result<
    Table,
    String,
>)
    ensures
        r is Ok <==> hex_decode_table(t@, convert.deep_view()) is Some,
        r is Ok ==> r.unwrap()@ == hex_decode_table(t@, convert.deep_view()).unwrap(),
{
    let ghost tv = t@;
    let ghost cv = convert.deep_view();
    let mut to_convert: Vec<bool> = Vec::new();
    let mut j: usize = 0;
    while j < t.names.len()
        invariant
            j <= t.names@.len(),
            tv == t@,
            cv == convert.deep_view(),
            tv.names.len() == t.names@.len(),
            to_convert@.len() == j,
            forall|q: int| 0 <= q < j ==> to_convert@[q] == name_in(cv, tv.names[q]),
        decreases t.names@.len() - j,
    {
        let mut found = false;
        let mut k: usize = 0;
        while k < convert.len()
            invariant
                k <= convert@.len(),
                cv == convert.deep_view(),
                cv.len() == convert@.len(),
                j < t.names@.len(),
                tv == t@,
                tv.names.len() == t.names@.len(),
                found == exists|q: int| 0 <= q < k && cv[q] == tv.names[j as int],
            decreases convert@.len() - k,
        {
            proof {
                assert(cv[k as int] == convert@[k as int]@);
                assert(tv.names[j as int] == t.names@[j as int]@);
            }
            if str_eq(convert[k].as_str(), t.names[j].as_str()) {
                found = true;
            }
            k = k + 1;
        }
        proof {
            assert(found == name_in(cv, tv.names[j as int]));
        }
        to_convert.push(found);
        j = j + 1;
    }
    let mut rows: Vec<Vec<CellValue>> = Vec::new();
    let mut kinds: Vec<CellKind> = Vec::new();
    let mut c: usize = 0;
    while c < t.kinds.len()
        invariant
            c <= t.kinds@.len(),
            tv == t@,
            cv == convert.deep_view(),
            tv.kinds.len() == t.kinds@.len(),
            tv.names.len() == to_convert@.len(),
            forall|q: int| 0 <= q < to_convert@.len() ==> to_convert@[q] == name_in(
                cv,
                tv.names[q],
            ),
            kinds@.len() == c,
            forall|q: int|
                0 <= q < c ==> kinds@[q] == (if q < tv.names.len() && name_in(cv, tv.names[q])
                    && tv.kinds[q] == CellKind::Str {
                    CellKind::Bin
                } else {
                    tv.kinds[q]
                }),
        decreases t.kinds@.len() - c,
    {
        let named = c < to_convert.len() && to_convert[c];
        let k = match t.kinds[c] {
            CellKind::Str => if named {
                CellKind::Bin
            } else {
                CellKind::Str
            },
            other => other,
        };
        kinds.push(k);
        c = c + 1;
    }
    let mut i: usize = 0;
    while i < t.rows.len()
        invariant
            i <= t.rows@.len(),
            tv == t@,
            cv == convert.deep_view(),
            tv.rows.len() == t.rows@.len(),
            tv.names.len() == to_convert@.len(),
            forall|q: int| 0 <= q < to_convert@.len() ==> to_convert@[q] == name_in(
                cv,
                tv.names[q],
            ),
            forall|p: int, q: int|
                0 <= p < i && 0 <= q < tv.rows[p].len() && q < tv.names.len() && name_in(
                    cv,
                    tv.names[q],
                ) ==> hex_decode_cell(#[trigger] tv.rows[p][q]) is Some,
            rows@.len() == i,
            forall|p: int|
                0 <= p < i ==> (#[trigger] rows@[p]).deep_view() == Seq::new(
                    tv.rows[p].len(),
                    |q: int|
                        if 0 <= q < tv.names.len() && name_in(cv, tv.names[q]) {
                            hex_decode_cell(tv.rows[p][q]).unwrap()
                        } else {
                            tv.rows[p][q]
                        },
                ),
        decreases t.rows@.len() - i,
    {
        let mut row: Vec<CellValue> = Vec::new();
        let width = t.rows[i].len();
        let mut c: usize = 0;
        while c < width
            invariant
                c <= width,
                i < t.rows@.len(),
                tv == t@,
                cv == convert.deep_view(),
                tv.rows.len() == t.rows@.len(),
                tv.names.len() == to_convert@.len(),
                width == t.rows@[i as int]@.len(),
                tv.rows[i as int].len() == width,
                forall|q: int| 0 <= q < to_convert@.len() ==> to_convert@[q] == name_in(
                    cv,
                    tv.names[q],
                ),
                forall|q: int|
                    0 <= q < c && q < tv.names.len() && name_in(cv, tv.names[q])
                        ==> hex_decode_cell(#[trigger] tv.rows[i as int][q]) is Some,
                row.deep_view() =~= Seq::new(
                    c as nat,
                    |q: int|
                        if 0 <= q < tv.names.len() && name_in(cv, tv.names[q]) {
                            hex_decode_cell(tv.rows[i as int][q]).unwrap()
                        } else {
                            tv.rows[i as int][q]
                        },
                ),
            decreases width - c,
        {
            proof {
                assert(tv.rows[i as int][c as int] == t.rows@[i as int]@[c as int]@);
            }
            let named = c < to_convert.len() && to_convert[c];
            let ghost pre = row@;
            let ghost pd = row.deep_view();
            let cell: CellValue = if named {
                match &t.rows[i][c] {
                    CellValue::Str(s) => {
                        match hex_string_to_bytes(s.as_str()) {
                            Some(b) => CellValue::Bin(b),
                            None => {
                                return Err(
                                    String::from_str(
                                        "a hex string column holds text that is not hex",
                                    ),
                                );
                            },
                        }
                    },
                    other => clone_cell(other),
                }
            } else {
                clone_cell(&t.rows[i][c])
            };
            row.push(cell);
            proof {
                assert(row@ == pre.push(cell));
                assert(pd.len() == pre.len());
                let target = Seq::new(
                    (c + 1) as nat,
                    |q: int|
                        if 0 <= q < tv.names.len() && name_in(cv, tv.names[q]) {
                            hex_decode_cell(tv.rows[i as int][q]).unwrap()
                        } else {
                            tv.rows[i as int][q]
                        },
                );
                assert forall|q: int| 0 <= q < row.deep_view().len() implies row.deep_view()[q]
                    == target[q] by {
                    if q < pre.len() {
                        assert(row@[q] == pre[q]);
                        assert(pd[q] == pre[q]@);
                    } else {
                        assert(row@[q] == cell);
                    }
                }
                assert(row.deep_view() =~= target);
            }
            c = c + 1;
        }
        rows.push(row);
        i = i + 1;
    }
    let names = crate::config::clone_string_vec(&t.names);
    let kinds_done = kinds;
    let r = Table { names, kinds: kinds_done, rows };
    proof {
        assert forall|p: int, q: int|
            0 <= p < tv.rows.len() && 0 <= q < tv.rows[p].len() && q < tv.names.len() && name_in(
                cv,
                tv.names[q],
            ) implies hex_decode_cell(#[trigger] tv.rows[p][q]) is Some by {}
        let d = hex_decode_table(tv, cv).unwrap();
        assert(r@.kinds =~= d.kinds);
        assert forall|p: int| 0 <= p < r@.rows.len() implies r@.rows[p] == d.rows[p] by {
            assert(r@.rows[p] =~= d.rows[p]);
        }
        assert(r@.rows =~= d.rows);
        assert(r@ =~= d);
    }
    Ok(r)
}

/// A byte cell, or null.
pub open spec fn opt_bin_cell(v: Option<Seq<u8>>) -> CellValueV {
    match v {
        Some(b) => CellValueV::Bin(b),
        None => CellValueV::Null,
    }
}

/// A string cell, or null.
pub open spec fn opt_str_cell(v: Option<Seq<char>>) -> CellValueV {
    match v {
        Some(s) => CellValueV::Str(s),
        None => CellValueV::Null,
    }
}

/// A boolean cell, or null.
pub open spec fn opt_bool_cell(v: Option<bool>) -> CellValueV {
    match v {
        Some(b) => CellValueV::Bool(b),
        None => CellValueV::Null,
    }
}

/// An unsigned cell, or null.
pub open spec fn opt_uint_cell(v: Option<usize>) -> CellValueV {
    match v {
        Some(n) => CellValueV::UInt(n as u64),
        None => CellValueV::Null,
    }
}

/// A string-list cell, or null.
pub open spec fn opt_list_cell(v: Option<Seq<Seq<char>>>) -> CellValueV {
    match v {
        Some(l) => CellValueV::StrList(l),
        None => CellValueV::Null,
    }
}

/// Builds a byte cell.
fn opt_bin_cell_exec(v: &Option<Vec<u8>>) -> (r: CellValue)
    ensures
        r@ == opt_bin_cell(opt_bytes_view(*v)),
{
    match v {
        Some(b) => CellValue::Bin(crate::abi::clone_bytes(b)),
        None => CellValue::Null,
    }
}

/// Builds a string cell.
fn opt_str_cell_exec(v: &Option<String>) -> (r: CellValue)
    ensures
        r@ == opt_str_cell(
            match v {
                Some(s) => Some(s@),
                None => None,
            },
        ),
{
    match v {
        Some(s) => CellValue::Str(s.clone()),
        None => CellValue::Null,
    }
}

/// Builds a boolean cell.
fn opt_bool_cell_exec(v: &Option<bool>) -> (r: CellValue)
    ensures
        r@ == opt_bool_cell(*v),
{
    match v {
        Some(b) => CellValue::Bool(*b),
        None => CellValue::Null,
    }
}

/// Builds an unsigned cell.
fn opt_uint_cell_exec(v: &Option<usize>) -> (r: CellValue)
    ensures
        r@ == opt_uint_cell(*v),
{
    match v {
        Some(n) => CellValue::UInt(*n as u64),
        None => CellValue::Null,
    }
}

/// Builds a string-list cell.
fn opt_list_cell_exec(v: &Option<Vec<String>>) -> (r: CellValue)
    ensures
        r@ == opt_list_cell(
            match v {
                Some(l) => Some(l.deep_view()),
                None => None,
            },
        ),
{
    match v {
        Some(l) => CellValue::StrList(crate::config::clone_string_vec(l)),
        None => CellValue::Null,
    }
}

/// The column names of a stored catalog table.
pub open spec fn catalog_column_names() -> Seq<Seq<char>> {
    seq![
        "address"@,
        "hash"@,
        "full_signature"@,
        "name"@,
        "anonymous"@,
        "num_indexed_args"@,
        "state_mutability"@,
        "id"@,
    ]
}

/// The column kinds of a stored catalog table.
pub open spec fn catalog_column_kinds() -> Seq<CellKind> {
    seq![
        CellKind::Bin,
        CellKind::Bin,
        CellKind::Str,
        CellKind::Str,
        CellKind::Bool,
        CellKind::UInt,
        CellKind::Str,
        CellKind::Str,
    ]
}

/// The cells of one catalog row.
pub open spec fn catalog_row_cells(r: AbiItemRowV) -> Seq<CellValueV> {
    seq![
        CellValueV::Bin(r.address),
        CellValueV::Bin(r.hash),
        CellValueV::Str(r.full_signature),
        CellValueV::Str(r.name),
        opt_bool_cell(r.anonymous),
        opt_uint_cell(r.num_indexed_args),
        opt_str_cell(r.state_mutability),
        CellValueV::Str(r.id),
    ]
}

/// A catalog as a stored table.
pub open spec fn catalog_table(rows: Seq<AbiItemRowV>) -> TableV {
    TableV {
        names: catalog_column_names(),
        kinds: catalog_column_kinds(),
        rows: rows.map_values(|r: AbiItemRowV| catalog_row_cells(r)),
    }
}

/// Renders a catalog as a table for writing: the canonical columns, every
/// binary column hex-encoded when the output asks for hex strings.
pub fn catalog_rows_to_table(rows: &Vec<AbiItemRow>, hex: bool) -> (r: Table)
    ensures
        !hex ==> r@ == catalog_table(rows.deep_view()),
        hex ==> r@ == hex_encode_table(catalog_table(rows.deep_view())),
{
    let ghost rowsv = rows.deep_view();
    proof {
        reveal_strlit("address");
        reveal_strlit("hash");
        reveal_strlit("full_signature");
        reveal_strlit("name");
        reveal_strlit("anonymous");
        reveal_strlit("num_indexed_args");
        reveal_strlit("state_mutability");
        reveal_strlit("id");
    }
    let mut names: Vec<String> = Vec::new();
    names.push(String::from_str("address"));
    names.push(String::from_str("hash"));
    names.push(String::from_str("full_signature"));
    names.push(String::from_str("name"));
    names.push(String::from_str("anonymous"));
    names.push(String::from_str("num_indexed_args"));
    names.push(String::from_str("state_mutability"));
    names.push(String::from_str("id"));
    assert(names.deep_view() =~= catalog_column_names());
    let mut kinds: Vec<CellKind> = Vec::new();
    kinds.push(CellKind::Bin);
    kinds.push(CellKind::Bin);
    kinds.push(CellKind::Str);
    kinds.push(CellKind::Str);
    kinds.push(CellKind::Bool);
    kinds.push(CellKind::UInt);
    kinds.push(CellKind::Str);
    kinds.push(CellKind::Str);
    assert(kinds@ =~= catalog_column_kinds());
    let mut out_rows: Vec<Vec<CellValue>> = Vec::new();
    let mut i: usize = 0;
    while i < rows.len()
        invariant
            i <= rows@.len(),
            rowsv == rows.deep_view(),
            rowsv.len() == rows@.len(),
            out_rows@.len() == i,
            forall|p: int|
                0 <= p < i ==> (#[trigger] out_rows@[p]).deep_view() == catalog_row_cells(
                    rowsv[p],
                ),
        decreases rows@.len() - i,
    {
        proof {
            assert(rowsv[i as int] == rows@[i as int]@);
        }
        let row = &rows[i];
        let mut cells: Vec<CellValue> = Vec::new();
        cells.push(CellValue::Bin(crate::abi::clone_bytes(&row.address)));
        cells.push(CellValue::Bin(crate::abi::clone_bytes(&row.hash)));
        cells.push(CellValue::Str(row.full_signature.clone()));
        cells.push(CellValue::Str(row.name.clone()));
        cells.push(opt_bool_cell_exec(&row.anonymous));
        cells.push(opt_uint_cell_exec(&row.num_indexed_args));
        cells.push(opt_str_cell_exec(&row.state_mutability));
        cells.push(CellValue::Str(row.id.clone()));
        proof {
            assert(cells.deep_view() =~= catalog_row_cells(rowsv[i as int]));
        }
        out_rows.push(cells);
        i = i + 1;
    }
    let t = Table { names, kinds, rows: out_rows };
    proof {
        assert(Seq::new(t.rows@.len(), |p: int| t.rows@[p].deep_view()) =~= rowsv.map_values(
            |r: AbiItemRowV| catalog_row_cells(r),
        ));
        assert(t@ =~= catalog_table(rowsv));
    }
    if hex {
        binary_columns_to_hex_string(&t)
    } else {
        t
    }
}

/// The catalog columns of a matched row, each null when unmatched.
pub open spec fn sig_cells(sig: Option<SigInfoV>) -> Seq<CellValueV> {
    match sig {
        Some(s) => seq![
            CellValueV::Str(s.full_signature),
            CellValueV::Str(s.name),
            opt_bool_cell(s.anonymous),
            opt_str_cell(s.state_mutability),
            CellValueV::Str(s.id),
        ],
        None => seq![
            CellValueV::Null,
            CellValueV::Null,
            CellValueV::Null,
            CellValueV::Null,
            CellValueV::Null,
        ],
    }
}

/// Builds the catalog columns of a matched row.
fn sig_cells_exec(sig: &Option<crate::rows::SigInfo>) -> (r: Vec<CellValue>)
    ensures
        r.deep_view() == sig_cells(
            match sig {
                Some(s) => Some(s@),
                None => None,
            },
        ),
{
    let mut cells: Vec<CellValue> = Vec::new();
    match sig {
        Some(s) => {
            cells.push(CellValue::Str(s.full_signature.clone()));
            cells.push(CellValue::Str(s.name.clone()));
            cells.push(opt_bool_cell_exec(&s.anonymous));
            cells.push(opt_str_cell_exec(&s.state_mutability));
            cells.push(CellValue::Str(s.id.clone()));
        },
        None => {
            cells.push(CellValue::Null);
            cells.push(CellValue::Null);
            cells.push(CellValue::Null);
            cells.push(CellValue::Null);
            cells.push(CellValue::Null);
        },
    }
    proof {
        assert(cells.deep_view() =~= sig_cells(
            match sig {
                Some(s) => Some(s@),
                None => None,
            },
        ));
    }
    cells
}

/// The cells of one decoded log row: the raw columns, the passthrough
/// cells, the topic count, the matched catalog columns, and the decoded
/// triple.
pub open spec fn decoded_log_row_cells(r: DecodedLogRowV) -> Seq<CellValueV> {
    seq![
        opt_bin_cell(r.matched.log.address),
        opt_bin_cell(r.matched.log.topic0),
        opt_bin_cell(r.matched.log.topic1),
        opt_bin_cell(r.matched.log.topic2),
        opt_bin_cell(r.matched.log.topic3),
        opt_bin_cell(r.matched.log.data),
    ] + r.matched.log.extra + seq![
        CellValueV::UInt(r.matched.num_indexed_args as u64),
    ] + sig_cells(r.matched.sig) + seq![
        opt_list_cell(r.event_values),
        opt_list_cell(r.event_keys),
        opt_str_cell(r.event_json),
    ]
}

/// The fixed trailing column names of a decoded log table.
pub open spec fn decoded_log_tail_names() -> Seq<Seq<char>> {
    seq![
        "num_indexed_args"@,
        "full_signature"@,
        "name"@,
        "anonymous"@,
        "state_mutability"@,
        "id"@,
        "event_values"@,
        "event_keys"@,
        "event_json"@,
    ]
}

/// The fixed trailing column kinds of a decoded log table.
pub open spec fn decoded_log_tail_kinds() -> Seq<CellKind> {
    seq![
        CellKind::UInt,
        CellKind::Str,
        CellKind::Str,
        CellKind::Bool,
        CellKind::Str,
        CellKind::Str,
        CellKind::StrList,
        CellKind::StrList,
        CellKind::Str,
    ]
}

/// A decoded log run as a table: the schema's byte columns, the passthrough
/// columns, then the match and decode columns.
pub open spec fn decoded_log_table(
    rows: Seq<DecodedLogRowV>,
    alias: crate::config::LogAliasConfigV,
    extra_names: Seq<Seq<char>>,
    extra_kinds: Seq<CellKind>,
) -> TableV {
    TableV {
        names: seq![alias.address, alias.topic0, alias.topic1, alias.topic2, alias.topic3,
            alias.data] + extra_names + decoded_log_tail_names(),
        kinds: seq![CellKind::Bin, CellKind::Bin, CellKind::Bin, CellKind::Bin, CellKind::Bin,
            CellKind::Bin] + extra_kinds + decoded_log_tail_kinds(),
        rows: rows.map_values(|r: DecodedLogRowV| decoded_log_row_cells(r)),
    }
}

/// Renders a decoded log run as a table for writing, hex-encoding every
/// binary column when the decoder's output asks for hex strings.
pub fn decoded_logs_to_table(
    rows: &Vec<DecodedLogRow>,
    alias: &LogAliasConfig,
    extra_names: &Vec<String>,
    extra_kinds: &Vec<CellKind>,
    hex: bool,
) -> (r: Table)
    ensures
        !hex ==> r@ == decoded_log_table(
            rows.deep_view(),
            alias@,
            extra_names.deep_view(),
            extra_kinds@,
        ),
        hex ==> r@ == hex_encode_table(
            decoded_log_table(rows.deep_view(), alias@, extra_names.deep_view(), extra_kinds@),
        ),
{
    let ghost rowsv = rows.deep_view();
    let ghost base = decoded_log_table(rowsv, alias@, extra_names.deep_view(), extra_kinds@);
    proof {
        reveal_strlit("num_indexed_args");
        reveal_strlit("full_signature");
        reveal_strlit("name");
        reveal_strlit("anonymous");
        reveal_strlit("state_mutability");
        reveal_strlit("id");
        reveal_strlit("event_values");
        reveal_strlit("event_keys");
        reveal_strlit("event_json");
    }
    let mut names: Vec<String> = Vec::new();
    names.push(alias.address.clone());
    names.push(alias.topic0.clone());
    names.push(alias.topic1.clone());
    names.push(alias.topic2.clone());
    names.push(alias.topic3.clone());
    names.push(alias.data.clone());
    let mut extra_names2 = crate::config::clone_string_vec(extra_names);
    names.append(&mut extra_names2);
    names.push(String::from_str("num_indexed_args"));
    names.push(String::from_str("full_signature"));
    names.push(String::from_str("name"));
    names.push(String::from_str("anonymous"));
    names.push(String::from_str("state_mutability"));
    names.push(String::from_str("id"));
    names.push(String::from_str("event_values"));
    names.push(String::from_str("event_keys"));
    names.push(String::from_str("event_json"));
    proof {
        assert(names.deep_view() =~= base.names);
    }
    let mut kinds: Vec<CellKind> = Vec::new();
    kinds.push(CellKind::Bin);
    kinds.push(CellKind::Bin);
    kinds.push(CellKind::Bin);
    kinds.push(CellKind::Bin);
    kinds.push(CellKind::Bin);
    kinds.push(CellKind::Bin);
    let mut k: usize = 0;
    while k < extra_kinds.len()
        invariant
            k <= extra_kinds@.len(),
            kinds@ =~= seq![CellKind::Bin, CellKind::Bin, CellKind::Bin, CellKind::Bin,
                CellKind::Bin, CellKind::Bin] + extra_kinds@.take(k as int),
        decreases extra_kinds@.len() - k,
    {
        kinds.push(extra_kinds[k]);
        assert(kinds@ =~= seq![CellKind::Bin, CellKind::Bin, CellKind::Bin, CellKind::Bin,
            CellKind::Bin, CellKind::Bin] + extra_kinds@.take(k + 1 as int));
        k = k + 1;
    }
    proof {
        assert(extra_kinds@.take(extra_kinds@.len() as int) =~= extra_kinds@);
    }
    kinds.push(CellKind::UInt);
    kinds.push(CellKind::Str);
    kinds.push(CellKind::Str);
    kinds.push(CellKind::Bool);
    kinds.push(CellKind::Str);
    kinds.push(CellKind::Str);
    kinds.push(CellKind::StrList);
    kinds.push(CellKind::StrList);
    kinds.push(CellKind::Str);
    proof {
        assert(kinds@ =~= base.kinds);
    }
    let mut out_rows: Vec<Vec<CellValue>> = Vec::new();
    let mut i: usize = 0;
    while i < rows.len()
        invariant
            i <= rows@.len(),
            rowsv == rows.deep_view(),
            rowsv.len() == rows@.len(),
            out_rows@.len() == i,
            forall|p: int|
                0 <= p < i ==> (#[trigger] out_rows@[p]).deep_view() == decoded_log_row_cells(
                    rowsv[p],
                ),
        decreases rows@.len() - i,
    {
        proof {
            assert(rowsv[i as int] == rows@[i as int]@);
        }
        let row = &rows[i];
        let mut cells: Vec<CellValue> = Vec::new();
        cells.push(opt_bin_cell_exec(&row.matched.log.address));
        cells.push(opt_bin_cell_exec(&row.matched.log.topic0));
        cells.push(opt_bin_cell_exec(&row.matched.log.topic1));
        cells.push(opt_bin_cell_exec(&row.matched.log.topic2));
        cells.push(opt_bin_cell_exec(&row.matched.log.topic3));
        cells.push(opt_bin_cell_exec(&row.matched.log.data));
        let ghost head = cells.deep_view();
        let mut extra = clone_cells(&row.matched.log.extra);
        let ghost extrav = extra.deep_view();
        cells.append(&mut extra);
        proof {
            assert forall|q: int| 0 <= q < cells.deep_view().len() implies cells.deep_view()[q]
                == (head + extrav)[q] by {
                if q < head.len() {
                }
            }
            assert(cells.deep_view() =~= head + extrav);
        }
        let ghost mid = cells.deep_view();
        cells.push(CellValue::UInt(row.matched.num_indexed_args as u64));
        let mut sigc = sig_cells_exec(&row.matched.sig);
        let ghost sigv = sigc.deep_view();
        let ghost mid2 = cells.deep_view();
        cells.append(&mut sigc);
        proof {
            assert forall|q: int| 0 <= q < cells.deep_view().len() implies cells.deep_view()[q]
                == (mid2 + sigv)[q] by {
                if q < mid2.len() {
                }
            }
            assert(cells.deep_view() =~= mid2 + sigv);
        }
        cells.push(opt_list_cell_exec(&row.event_values));
        cells.push(opt_list_cell_exec(&row.event_keys));
        cells.push(opt_str_cell_exec(&row.event_json));
        proof {
            assert(cells.deep_view() =~= decoded_log_row_cells(rowsv[i as int]));
        }
        out_rows.push(cells);
        i = i + 1;
    }
    let t = Table { names, kinds, rows: out_rows };
    proof {
        assert(Seq::new(t.rows@.len(), |p: int| t.rows@[p].deep_view()) =~= rowsv.map_values(
            |r: DecodedLogRowV| decoded_log_row_cells(r),
        ));
        assert(t@ =~= base);
    }
    if hex {
        binary_columns_to_hex_string(&t)
    } else {
        t
    }
}

/// The cells of one decoded trace row.
pub open spec fn decoded_trace_row_cells(r: DecodedTraceRowV) -> Seq<CellValueV> {
    seq![
        opt_bin_cell(r.matched.trace.selector),
        opt_bin_cell(r.matched.trace.action_input),
        opt_bin_cell(r.matched.trace.result_output),
        opt_bin_cell(r.matched.trace.action_to),
    ] + r.matched.trace.extra + sig_cells(r.matched.sig) + seq![
        opt_uint_cell(r.matched.num_indexed_args),
        opt_list_cell(r.input_values),
        opt_list_cell(r.input_keys),
        opt_str_cell(r.input_json),
        opt_list_cell(r.output_values),
        opt_list_cell(r.output_keys),
        opt_str_cell(r.output_json),
    ]
}

/// The fixed trailing column names of a decoded trace table.
pub open spec fn decoded_trace_tail_names() -> Seq<Seq<char>> {
    seq![
        "full_signature"@,
        "name"@,
        "anonymous"@,
        "state_mutability"@,
        "id"@,
        "num_indexed_args"@,
        "input_values"@,
        "input_keys"@,
        "input_json"@,
        "output_values"@,
        "output_keys"@,
        "output_json"@,
    ]
}

/// The fixed trailing column kinds of a decoded trace table.
pub open spec fn decoded_trace_tail_kinds() -> Seq<CellKind> {
    seq![
        CellKind::Str,
        CellKind::Str,
        CellKind::Bool,
        CellKind::Str,
        CellKind::Str,
        CellKind::UInt,
        CellKind::StrList,
        CellKind::StrList,
        CellKind::Str,
        CellKind::StrList,
        CellKind::StrList,
        CellKind::Str,
    ]
}

/// A decoded trace run as a table.
pub open spec fn decoded_trace_table(
    rows: Seq<DecodedTraceRowV>,
    alias: crate::config::TraceAliasConfigV,
    extra_names: Seq<Seq<char>>,
    extra_kinds: Seq<CellKind>,
) -> TableV {
    TableV {
        names: seq![alias.selector, alias.action_input, alias.result_output, alias.action_to]
            + extra_names + decoded_trace_tail_names(),
        kinds: seq![CellKind::Bin, CellKind::Bin, CellKind::Bin, CellKind::Bin] + extra_kinds
            + decoded_trace_tail_kinds(),
        rows: rows.map_values(|r: DecodedTraceRowV| decoded_trace_row_cells(r)),
    }
}

/// Renders a decoded trace run as a table for writing, hex-encoding every
/// binary column when the decoder's output asks for hex strings.
pub fn decoded_traces_to_table(
    rows: &Vec<DecodedTraceRow>,
    alias: &TraceAliasConfig,
    extra_names: &Vec<String>,
    extra_kinds: &Vec<CellKind>,
    hex: bool,
) -> (r: Table)
    ensures
        !hex ==> r@ == decoded_trace_table(
            rows.deep_view(),
            alias@,
            extra_names.deep_view(),
            extra_kinds@,
        ),
        hex ==> r@ == hex_encode_table(
            decoded_trace_table(rows.deep_view(), alias@, extra_names.deep_view(), extra_kinds@),
        ),
{
    let ghost rowsv = rows.deep_view();
    let ghost base = decoded_trace_table(rowsv, alias@, extra_names.deep_view(), extra_kinds@);
    proof {
        reveal_strlit("full_signature");
        reveal_strlit("name");
        reveal_strlit("anonymous");
        reveal_strlit("state_mutability");
        reveal_strlit("id");
        reveal_strlit("num_indexed_args");
        reveal_strlit("input_values");
        reveal_strlit("input_keys");
        reveal_strlit("input_json");
        reveal_strlit("output_values");
        reveal_strlit("output_keys");
        reveal_strlit("output_json");
    }
    let mut names: Vec<String> = Vec::new();
    names.push(alias.selector.clone());
    names.push(alias.action_input.clone());
    names.push(alias.result_output.clone());
    names.push(alias.action_to.clone());
    let mut extra_names2 = crate::config::clone_string_vec(extra_names);
    names.append(&mut extra_names2);
    names.push(String::from_str("full_signature"));
    names.push(String::from_str("name"));
    names.push(String::from_str("anonymous"));
    names.push(String::from_str("state_mutability"));
    names.push(String::from_str("id"));
    names.push(String::from_str("num_indexed_args"));
    names.push(String::from_str("input_values"));
    names.push(String::from_str("input_keys"));
    names.push(String::from_str("input_json"));
    names.push(String::from_str("output_values"));
    names.push(String::from_str("output_keys"));
    names.push(String::from_str("output_json"));
    proof {
        assert(names.deep_view() =~= base.names);
    }
    let mut kinds: Vec<CellKind> = Vec::new();
    kinds.push(CellKind::Bin);
    kinds.push(CellKind::Bin);
    kinds.push(CellKind::Bin);
    kinds.push(CellKind::Bin);
    let mut k: usize = 0;
    while k < extra_kinds.len()
        invariant
            k <= extra_kinds@.len(),
            kinds@ =~= seq![CellKind::Bin, CellKind::Bin, CellKind::Bin, CellKind::Bin]
                + extra_kinds@.take(k as int),
        decreases extra_kinds@.len() - k,
    {
        kinds.push(extra_kinds[k]);
        assert(kinds@ =~= seq![CellKind::Bin, CellKind::Bin, CellKind::Bin, CellKind::Bin]
            + extra_kinds@.take(k + 1 as int));
        k = k + 1;
    }
    proof {
        assert(extra_kinds@.take(extra_kinds@.len() as int) =~= extra_kinds@);
    }
    kinds.push(CellKind::Str);
    kinds.push(CellKind::Str);
    kinds.push(CellKind::Bool);
    kinds.push(CellKind::Str);
    kinds.push(CellKind::Str);
    kinds.push(CellKind::UInt);
    kinds.push(CellKind::StrList);
    kinds.push(CellKind::StrList);
    kinds.push(CellKind::Str);
    kinds.push(CellKind::StrList);
    kinds.push(CellKind::StrList);
    kinds.push(CellKind::Str);
    proof {
        assert(kinds@ =~= base.kinds);
    }
    let mut out_rows: Vec<Vec<CellValue>> = Vec::new();
    let mut i: usize = 0;
    while i < rows.len()
        invariant
            i <= rows@.len(),
            rowsv == rows.deep_view(),
            rowsv.len() == rows@.len(),
            out_rows@.len() == i,
            forall|p: int|
                0 <= p < i ==> (#[trigger] out_rows@[p]).deep_view() == decoded_trace_row_cells(
                    rowsv[p],
                ),
        decreases rows@.len() - i,
    {
        proof {
            assert(rowsv[i as int] == rows@[i as int]@);
        }
        let row = &rows[i];
        let mut cells: Vec<CellValue> = Vec::new();
        cells.push(opt_bin_cell_exec(&row.matched.trace.selector));
        cells.push(opt_bin_cell_exec(&row.matched.trace.action_input));
        cells.push(opt_bin_cell_exec(&row.matched.trace.result_output));
        cells.push(opt_bin_cell_exec(&row.matched.trace.action_to));
        let ghost head = cells.deep_view();
        let mut extra = clone_cells(&row.matched.trace.extra);
        let ghost extrav = extra.deep_view();
        cells.append(&mut extra);
        proof {
            assert forall|q: int| 0 <= q < cells.deep_view().len() implies cells.deep_view()[q]
                == (head + extrav)[q] by {
                if q < head.len() {
                }
            }
            assert(cells.deep_view() =~= head + extrav);
        }
        let mut sigc = sig_cells_exec(&row.matched.sig);
        let ghost sigv = sigc.deep_view();
        let ghost mid2 = cells.deep_view();
        cells.append(&mut sigc);
        proof {
            assert forall|q: int| 0 <= q < cells.deep_view().len() implies cells.deep_view()[q]
                == (mid2 + sigv)[q] by {
                if q < mid2.len() {
                }
            }
            assert(cells.deep_view() =~= mid2 + sigv);
        }
        cells.push(opt_uint_cell_exec(&row.matched.num_indexed_args));
        cells.push(opt_list_cell_exec(&row.input_values));
        cells.push(opt_list_cell_exec(&row.input_keys));
        cells.push(opt_str_cell_exec(&row.input_json));
        cells.push(opt_list_cell_exec(&row.output_values));
        cells.push(opt_list_cell_exec(&row.output_keys));
        cells.push(opt_str_cell_exec(&row.output_json));
        proof {
            assert(cells.deep_view() =~= decoded_trace_row_cells(rowsv[i as int]));
        }
        out_rows.push(cells);
        i = i + 1;
    }
    let t = Table { names, kinds, rows: out_rows };
    proof {
        assert(Seq::new(t.rows@.len(), |p: int| t.rows@[p].deep_view()) =~= rowsv.map_values(
            |r: DecodedTraceRowV| decoded_trace_row_cells(r),
        ));
        assert(t@ =~= base);
    }
    if hex {
        binary_columns_to_hex_string(&t)
    } else {
        t
    }
}

/// Hex round trip on a table: on a column listed for conversion whose cells
/// are `0x`-prefixed lower-case hex strings, decoding to binary and
/// re-encoding to hex gives back exactly the original cells.
pub proof fn lemma_hex_round_trip_columns(t: TableV, convert: Seq<Seq<char>>, i: int, j: int)
    requires
        table_wf(t),
        0 <= i < t.rows.len(),
        0 <= j < t.names.len(),
        t.names.len() == t.kinds.len(),
        name_in(convert, t.names[j]),
        hex_decode_table(t, convert) is Some,
        t.rows[i][j] matches CellValueV::Str(s) && s.len() >= 2 && s[0] == '0' && s[1] == 'x'
            && is_lower_hex_seq(s.skip(2)),
    ensures
        hex_encode_table(hex_decode_table(t, convert).unwrap()).rows[i][j] == t.rows[i][j],
{
    let s = t.rows[i][j]->Str_0;
    let d = hex_decode_table(t, convert).unwrap();
    assert(strip_hex_prefix(s) == s.skip(2));
    assert(d.rows[i][j] == hex_decode_cell(t.rows[i][j]).unwrap());
    assert(d.rows[i][j] == CellValueV::Bin(bytes_of_hex(s.skip(2))));
    assert(cell_fits(t.rows[i][j], t.kinds[j]));
    assert(t.kinds[j] == CellKind::Str);
    assert(d.kinds[j] == CellKind::Bin);
    assert(hex_encode_table(d).rows[i][j] == hex_encode_cell(d.rows[i][j]));
    lemma_hex_round_trip_str(s.skip(2));
    assert(hex_prefixed(bytes_of_hex(s.skip(2))) =~= s);
}

} // verus!
