//! The tabular output: one header row and one data row per finished track,
//! every row aligned to the frozen header order.

use vstd::prelude::*;

use crate::machine::MachineView;

verus! {

/// The mathematical form of a [`Table`].
#[verifier::ext_equal]
pub ghost struct TableView {
    pub header: Seq<Seq<char>>,
    pub rows: Seq<Seq<Seq<char>>>,
}

/// One track's row, aligned to `headers`: the track's value where it has the
/// key, the empty string where it does not.
pub open spec fn row_view(headers: Seq<Seq<char>>, track: Map<Seq<char>, Seq<char>>) -> Seq<
    Seq<char>,
> {
    Seq::new(
        headers.len(),
        |j: int|
            if track.contains_key(headers[j]) {
                track[headers[j]]
            } else {
                Seq::<char>::empty()
            },
    )
}

/// The table a finished run denotes: the headers in first-seen order, and one
/// aligned row per finished track, in document order.
pub open spec fn table_view(m: MachineView) -> TableView {
    TableView {
        header: m.headers,
        rows: Seq::new(m.tracks.len(), |i: int| row_view(m.headers, m.tracks[i])),
    }
}

/// The conversion's result: an ordered header sequence and, per track, an
/// ordered row of values of the same length.
pub struct Table {
    pub header: Vec<String>,
    pub rows: Vec<Vec<String>>,
}

impl View for Table {
    type V = TableView;

    open spec fn view(&self) -> TableView {
        TableView { header: self.header.deep_view(), rows: self.rows.deep_view() }
    }
}

} // verus!
