//! Properties of the conversion, stated and proved over the spec-level run:
//! how many rows come out, that every row aligns to the one frozen header,
//! that the conversion is a function of its input, how a cell is filled, and
//! how boolean leaves are resolved.

use vstd::prelude::*;

use crate::convert::convert_view;
use crate::event::EventView;
use crate::machine::{add_header, init_view, run_view, step_view, FsmView, MachineView};

verus! {

/// Whether this (state, event) pair is the transition that closes a
/// track-level dictionary and emits its record.
pub open spec fn is_track_close(m: MachineView, e: EventView) -> bool {
    m.fsm is InTrack && (e matches EventView::End(name) && name == "dict"@)
}

/// How many track-closing transitions a run over `es` from `m` takes.
pub open spec fn count_track_closes(m: MachineView, es: Seq<EventView>) -> nat
    decreases es.len(),
{
    if es.len() == 0 {
        0
    } else {
        (if is_track_close(m, es[0]) {
            1nat
        } else {
            0nat
        }) + count_track_closes(step_view(m, es[0]), es.drop_first())
    }
}

proof fn lemma_step_track_count(m: MachineView, e: EventView)
    ensures
        step_view(m, e).tracks.len() == m.tracks.len() + (if is_track_close(m, e) {
            1int
        } else {
            0int
        }),
{
}

proof fn lemma_run_track_count(m: MachineView, es: Seq<EventView>)
    ensures
        run_view(m, es).tracks.len() == m.tracks.len() + count_track_closes(m, es),
    decreases es.len(),
{
    if es.len() != 0 {
        lemma_step_track_count(m, es[0]);
        lemma_run_track_count(step_view(m, es[0]), es.drop_first());
    }
}

/// The number of data rows emitted equals the number of track-closing
/// transitions the run takes, i.e. the number of track-level dictionaries
/// encountered.
pub proof fn lemma_row_count(es: Seq<EventView>)
    ensures
        convert_view(es).rows.len() == count_track_closes(init_view(), es),
{
    lemma_run_track_count(init_view(), es);
}

/// Every data row has exactly as many fields as the header row, and the
/// header the rows are projected onto is the machine's one frozen header.
pub proof fn lemma_rows_aligned(es: Seq<EventView>)
    ensures
        convert_view(es).header == run_view(init_view(), es).headers,
        forall|i: int|
            0 <= i < convert_view(es).rows.len() ==> #[trigger] convert_view(es).rows[i].len()
                == convert_view(es).header.len(),
{
}

/// The conversion is a function of the event stream alone: running it again
/// on the same input gives the same header sequence and the same rows in the
/// same order.
pub proof fn lemma_conversion_deterministic(a: Seq<EventView>, b: Seq<EventView>)
    requires
        a == b,
    ensures
        convert_view(a) == convert_view(b),
{
}

/// What one cell holds: the track's value for that column's key where the
/// track has it, the empty string where it does not. In particular, a key
/// carried by only one track gets its value in that track's row and an empty
/// string in every other row of that column.
pub proof fn lemma_cell_projection(es: Seq<EventView>, i: int, j: int)
    requires
        0 <= i < convert_view(es).rows.len(),
        0 <= j < convert_view(es).header.len(),
    ensures
        ({
            let m = run_view(init_view(), es);
            convert_view(es).rows[i][j] == if m.tracks[i].contains_key(m.headers[j]) {
                m.tracks[i][m.headers[j]]
            } else {
                Seq::<char>::empty()
            }
        }),
{
}

/// A key carried by exactly one track fills that track's cell in the key's
/// column and leaves an empty string in that column of every other row.
pub proof fn lemma_unique_key_column(es: Seq<EventView>, key: Seq<char>, i: int, j: int)
    requires
        ({
            let m = run_view(init_view(), es);
            &&& 0 <= i < m.tracks.len()
            &&& m.tracks[i].contains_key(key)
            &&& forall|i2: int|
                0 <= i2 < m.tracks.len() && i2 != i ==> !(#[trigger] m.tracks[i2]).contains_key(
                    key,
                )
            &&& 0 <= j < m.headers.len()
            &&& m.headers[j] == key
        }),
    ensures
        convert_view(es).rows[i][j] == run_view(init_view(), es).tracks[i][key],
        forall|i2: int|
            0 <= i2 < convert_view(es).rows.len() && i2 != i
                ==> #[trigger] convert_view(es).rows[i2][j] == Seq::<char>::empty(),
{
    let m = run_view(init_view(), es);
    assert forall|i2: int|
        0 <= i2 < convert_view(es).rows.len() && i2 != i implies #[trigger] convert_view(
        es,
    ).rows[i2][j] == Seq::<char>::empty() by {
        assert(!m.tracks[i2].contains_key(key));
    }
}

/// Every key ever inserted into a track was registered in the header schema
/// at the same moment, so no row can carry a key the header lacks.
pub open spec fn keys_covered(m: MachineView) -> bool {
    &&& forall|k: Seq<char>| #[trigger] m.current.contains_key(k) ==> m.headers.contains(k)
    &&& forall|i: int, k: Seq<char>|
        0 <= i < m.tracks.len() && #[trigger] m.tracks[i].contains_key(k) ==> m.headers.contains(
            k,
        )
    &&& (m.fsm matches FsmView::ReadingTrackValueForKey(key) ==> m.headers.contains(key))
}

proof fn lemma_add_header_contains(headers: Seq<Seq<char>>, key: Seq<char>, x: Seq<char>)
    ensures
        add_header(headers, key).contains(key),
        headers.contains(x) ==> add_header(headers, key).contains(x),
{
    if !headers.contains(key) {
        assert(headers.push(key)[headers.len() as int] == key);
        assert(headers.push(key).contains(key));
        if headers.contains(x) {
            let i = choose|i: int| 0 <= i < headers.len() && headers[i] == x;
            assert(headers.push(key)[i] == x);
            assert(headers.push(key).contains(x));
        }
    }
}

proof fn lemma_step_keys_covered(m: MachineView, e: EventView)
    requires
        keys_covered(m),
    ensures
        keys_covered(step_view(m, e)),
{
    let m2 = step_view(m, e);
    if m.fsm is ReadingTrackKey && e is Characters {
        let key = e->Characters_0;
        lemma_add_header_contains(m.headers, key, key);
        assert forall|x: Seq<char>| m.headers.contains(x) implies m2.headers.contains(x) by {
            lemma_add_header_contains(m.headers, key, x);
        }
    }
    if is_track_close(m, e) {
        assert forall|i: int, k: Seq<char>|
            0 <= i < m2.tracks.len() && #[trigger] m2.tracks[i].contains_key(
                k,
            ) implies m2.headers.contains(k) by {
            if i < m.tracks.len() {
                assert(m2.tracks[i] == m.tracks[i]);
            } else {
                assert(m2.tracks[i] == m.current);
            }
        }
    }
}

proof fn lemma_run_keys_covered(m: MachineView, es: Seq<EventView>)
    requires
        keys_covered(m),
    ensures
        keys_covered(run_view(m, es)),
    decreases es.len(),
{
    if es.len() != 0 {
        lemma_step_keys_covered(m, es[0]);
        lemma_run_keys_covered(step_view(m, es[0]), es.drop_first());
    }
}

/// No key can appear in an emitted track that is absent from the header
/// schema: whatever the input, every key of every finished track is
/// somewhere in the frozen header sequence.
pub proof fn lemma_keys_in_header(es: Seq<EventView>)
    ensures
        ({
            let m = run_view(init_view(), es);
            forall|i: int, k: Seq<char>|
                0 <= i < m.tracks.len() && #[trigger] m.tracks[i].contains_key(k)
                    ==> m.headers.contains(k)
        }),
{
    lemma_run_keys_covered(init_view(), es);
}

/// A boolean leaf immediately following a key resolves at its opening tag:
/// it stores the literal string of the flag under the pending key and returns
/// to the track, with no character-data event involved.
pub proof fn lemma_boolean_leaf(m: MachineView, key: Seq<char>, flag: bool)
    requires
        m.fsm == FsmView::ReadingTrackValueForKey(key),
    ensures
        ({
            let lit: Seq<char> = if flag {
                "true"@
            } else {
                "false"@
            };
            let m2 = step_view(m, EventView::Start(lit));
            m2.fsm == FsmView::InTrack && m2.current == m.current.insert(key, lit) && m2.headers
                == m.headers && m2.tracks == m.tracks
        }),
{
    reveal_strlit("true");
    reveal_strlit("false");
    assert("true"@.len() == 4);
    assert("false"@.len() == 5);
}

} // verus!
