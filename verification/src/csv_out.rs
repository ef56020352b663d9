//! Rendering the finished table as delimited output bytes: the header row
//! first, then one line per track row, in document order.

use vstd::prelude::*;

use crate::table::{Table, TableView};

verus! {

/// The delimited encoding of one record: its fields in order, separated,
/// quoted where the format requires, and terminated. The bytes depend on the
/// fields alone.
pub uninterp spec fn csv_line(fields: Seq<Seq<char>>) -> Seq<u8>;

/// Relies on `csv::Writer` over an in-memory buffer: one record becomes one
/// delimited, terminated line. A fresh buffer-backed writer is used per
/// record, so no length check against earlier records applies, and a write
/// into a buffer cannot fail, so the calls below always succeed.
#[verifier::external_body]
fn encode_record(fields: &Vec<String>) -> (r: Vec<u8>)
    ensures
        r@ == csv_line(fields.deep_view()),
{
    let mut w = csv::Writer::from_writer(Vec::new());
    w.write_record(fields).expect("a write into a buffer cannot fail");
    w.into_inner().expect("flushing a buffer cannot fail")
}

/// The data rows' lines, concatenated in order.
pub open spec fn csv_rows_bytes(rows: Seq<Seq<Seq<char>>>) -> Seq<u8>
    decreases rows.len(),
{
    if rows.len() == 0 {
        Seq::empty()
    } else {
        csv_rows_bytes(rows.drop_last()) + csv_line(rows.last())
    }
}

/// The whole output: the header row's line, then every data row's line.
pub open spec fn csv_bytes(t: TableView) -> Seq<u8> {
    csv_line(t.header) + csv_rows_bytes(t.rows)
}

/// Renders the table: the header row first, then one line per track row, in
/// document order.
pub fn table_to_csv(t: &Table) -> (r: Vec<u8>)
    ensures
        r@ == csv_bytes(t@),
{
    let mut out = encode_record(&t.header);
    let n = t.rows.len();
    let mut i: usize = 0;
    while i < n
        invariant
            i <= n,
            n == t.rows@.len(),
            out@ == csv_line(t@.header) + csv_rows_bytes(t@.rows.take(i as int)),
        decreases n - i,
    {
        let mut line = encode_record(&t.rows[i]);
        proof {
            assert(t.rows[i as int].deep_view() == t@.rows[i as int]);
            assert(t@.rows.take(i + 1).drop_last() =~= t@.rows.take(i as int));
            assert(t@.rows.take(i + 1).last() == t@.rows[i as int]);
        }
        out.append(&mut line);
        proof {
            assert(out@ =~= csv_line(t@.header) + csv_rows_bytes(t@.rows.take(i + 1)));
        }
        i += 1;
    }
    proof {
        assert(t@.rows.take(n as int) =~= t@.rows);
    }
    out
}

} // verus!
