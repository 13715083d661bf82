//! Reading spreadsheet rows into candidate cheques: one header row, then
//! cheque number, amount and client name in the first three columns.

use vstd::prelude::*;
use crate::decimal::{float_text_amount, int_text, int_to_text, parse_float_text};
use crate::verbalize::Amount;

verus! {

/// One spreadsheet cell as the ingestion reads it.
pub enum Cell {
    Text(String),
    Int(i64),
    /// A floating-point number, as std writes it: its shortest decimal
    /// text, "NaN", "inf" or "-inf".
    Number(String),
    /// Any other cell: empty, boolean, date or error.
    Other,
}

/// The fields of a cheque read from one spreadsheet row.
pub struct ChequeRow {
    pub cheque_number: String,
    pub amount: Amount,
    pub client_name: String,
}

/// The amount an integer denotes.
pub open spec fn int_amount(i: i64) -> Amount {
    Amount::Finite { negative: i < 0, units: (if i < 0 { -i } else { i as int }) as u64, scale: 0 }
}

/// The cheque number a cell gives: text as it is, a number as its decimal
/// text.
pub open spec fn cell_cheque_number(c: Cell) -> Option<Seq<char>> {
    match c {
        Cell::Text(s) => Some(s@),
        Cell::Int(i) => Some(int_text(i as int)),
        Cell::Number(t) => Some(t@),
        Cell::Other => None,
    }
}

/// The amount a cell gives: a number, whatever its value; verbalizing
/// refuses the amounts that cannot be paid.
pub open spec fn cell_amount(c: Cell) -> Option<Amount> {
    match c {
        Cell::Int(i) => Some(int_amount(i)),
        Cell::Number(t) => float_text_amount(t@),
        _ => None,
    }
}

/// The client name a cell gives: text only.
pub open spec fn cell_client_name(c: Cell) -> Option<Seq<char>> {
    match c {
        Cell::Text(s) => Some(s@),
        _ => None,
    }
}

/// The row yields a cheque: it has at least three cells and each of the
/// first three has the kind its column needs.
pub open spec fn row_yields_cheque(cells: Seq<Cell>) -> bool {
    &&& cells.len() >= 3
    &&& cell_cheque_number(cells[0]) is Some
    &&& cell_amount(cells[1]) is Some
    &&& cell_client_name(cells[2]) is Some
}

fn cheque_number_of(c: &Cell) -> (r: Option<String>)
    ensures
        match r {
            Some(s) => cell_cheque_number(*c) == Some(s@),
            None => cell_cheque_number(*c) is None,
        },
{
    match c {
        Cell::Text(s) => Some(s.clone()),
        Cell::Int(i) => Some(int_to_text(*i)),
        Cell::Number(t) => Some(t.clone()),
        Cell::Other => None,
    }
}

fn amount_of(c: &Cell) -> (r: Option<Amount>)
    ensures
        r == cell_amount(*c),
{
    match c {
        Cell::Int(i) => {
            let negative = *i < 0;
            let units: u64 = if *i < 0 {
                (-(*i as i128)) as u64
            } else {
                *i as u64
            };
            Some(Amount::Finite { negative, units, scale: 0 })
        },
        Cell::Number(t) => parse_float_text(t.as_str()),
        _ => None,
    }
}

fn client_name_of(c: &Cell) -> (r: Option<String>)
    ensures
        match r {
            Some(s) => cell_client_name(*c) == Some(s@),
            None => cell_client_name(*c) is None,
        },
{
    match c {
        Cell::Text(s) => Some(s.clone()),
        _ => None,
    }
}

/// Reads one data row; rows too short or with a cell of the wrong kind
/// yield nothing and are skipped by the caller.
pub fn cheque_row(cells: &Vec<Cell>) -> (r: Option<ChequeRow>)
    ensures
        r is Some <==> row_yields_cheque(cells@),
        r is Some ==> {
            &&& Some(r->0.cheque_number@) == cell_cheque_number(cells@[0])
            &&& Some(r->0.amount) == cell_amount(cells@[1])
            &&& Some(r->0.client_name@) == cell_client_name(cells@[2])
        },
{
    if cells.len() < 3 {
        return None;
    }
    let cheque_number = match cheque_number_of(&cells[0]) {
        Some(s) => s,
        None => return None,
    };
    let amount = match amount_of(&cells[1]) {
        Some(a) => a,
        None => return None,
    };
    let client_name = match client_name_of(&cells[2]) {
        Some(s) => s,
        None => return None,
    };
    Some(ChequeRow { cheque_number, amount, client_name })
}

/// The rows of a sheet after its header row.
pub open spec fn data_rows(rows: Seq<Vec<Cell>>) -> Seq<Vec<Cell>> {
    if rows.len() == 0 {
        rows
    } else {
        rows.drop_first()
    }
}

/// The data rows that yield a cheque, in sheet order.
pub open spec fn cheque_bearing_rows(rows: Seq<Vec<Cell>>) -> Seq<Vec<Cell>> {
    data_rows(rows).filter(|cells: Vec<Cell>| row_yields_cheque(cells@))
}

/// `row` holds what the cells give for each of its fields.
pub open spec fn row_read_from(row: ChequeRow, cells: Seq<Cell>) -> bool {
    &&& Some(row.cheque_number@) == cell_cheque_number(cells[0])
    &&& Some(row.amount) == cell_amount(cells[1])
    &&& Some(row.client_name@) == cell_client_name(cells[2])
}

/// Reads the data rows of a sheet, skipping the header row and every row
/// that yields no cheque; each cheque comes with the index of its row, in
/// sheet order.
pub fn cheque_rows(rows: &Vec<Vec<Cell>>) -> (r: Vec<(usize, ChequeRow)>)
    ensures
        r@.len() == cheque_bearing_rows(rows@).len(),
        forall|k: int|
            0 <= k < r@.len() ==> {
                &&& row_read_from((#[trigger] r@[k]).1, cheque_bearing_rows(rows@)[k]@)
                &&& 1 <= r@[k].0 < rows@.len()
                &&& rows@[r@[k].0 as int] == cheque_bearing_rows(rows@)[k]
            },
        forall|a: int, b: int| 0 <= a < b < r@.len() ==> (#[trigger] r@[a]).0 < (#[trigger] r@[b]).0,
{
    let mut out: Vec<(usize, ChequeRow)> = Vec::new();
    let ghost pred = |cells: Vec<Cell>| row_yields_cheque(cells@);
    proof {
        reveal(Seq::filter);
    }
    if rows.len() == 0 {
        return out;
    }
    let ghost data = data_rows(rows@);
    assert(data =~= rows@.subrange(1, rows@.len() as int));
    let mut i: usize = 1;
    while i < rows.len()
        invariant
            1 <= i <= rows@.len(),
            data == rows@.subrange(1, rows@.len() as int),
            pred == (|cells: Vec<Cell>| row_yields_cheque(cells@)),
            out@.len() == data.subrange(0, i - 1).filter(pred).len(),
            forall|k: int|
                0 <= k < out@.len() ==> {
                    &&& row_read_from(
                        (#[trigger] out@[k]).1,
                        data.subrange(0, i - 1).filter(pred)[k]@,
                    )
                    &&& 1 <= out@[k].0 < i
                    &&& rows@[out@[k].0 as int] == data.subrange(0, i - 1).filter(pred)[k]
                },
            forall|a: int, b: int|
                0 <= a < b < out@.len() ==> (#[trigger] out@[a]).0 < (#[trigger] out@[b]).0,
        decreases rows@.len() - i,
    {
        let ghost before = data.subrange(0, i - 1).filter(pred);
        proof {
            reveal(Seq::filter);
            assert(data.subrange(0, i as int).drop_last() =~= data.subrange(0, i - 1));
            assert(data.subrange(0, i as int).last() == rows@[i as int]);
        }
        match cheque_row(&rows[i]) {
            Some(row) => {
                out.push((i, row));
                assert(data.subrange(0, i as int).filter(pred) == before.push(rows@[i as int]));
            },
            None => {},
        }
        i = i + 1;
    }
    assert(data.subrange(0, i - 1) =~= data);
    out
}

/// The key under which a sheet preview shows column `i`.
pub open spec fn column_key_text(i: nat) -> Seq<char> {
    if i == 0 {
        "cheque_number"@
    } else if i == 1 {
        "amount"@
    } else if i == 2 {
        "client_name"@
    } else {
        "unknown"@
    }
}

/// The key under which a sheet preview shows column `i`: the three columns
/// that ingestion reads by name, any other as "unknown".
pub fn column_key(i: usize) -> (r: &'static str)
    ensures
        r@ == column_key_text(i as nat),
{
    if i == 0 {
        "cheque_number"
    } else if i == 1 {
        "amount"
    } else if i == 2 {
        "client_name"
    } else {
        "unknown"
    }
}

} // verus!
