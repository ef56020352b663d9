//! The event-driven structural tracker: a finite state machine over classified
//! XML parse events that finds the track dictionaries inside the property
//! list's `Tracks` dictionary, accumulates each track's key/value pairs, and
//! collects every key name ever seen into the header schema.

use vstd::prelude::*;

use crate::event::{Event, EventView};
use crate::kvmap::KvMap;
use crate::table::{row_view, table_view, Table};

verus! {

/// The machine's position in the document grammar.
pub enum Fsm {
    /// Nothing recognized yet; waiting for the `Tracks` key.
    Start,
    /// The `Tracks` key was seen; waiting for its dictionary to open.
    LookingForTracksDict,
    /// Inside the Tracks dictionary, between track dictionaries.
    InTrackList,
    /// Inside one track's dictionary, between key/value pairs.
    InTrack,
    /// A `key` element opened; the next character data names the key.
    ReadingTrackKey,
    /// A key was read; waiting for its value. Carries the pending key name.
    ReadingTrackValueForKey(String),
    /// The Tracks dictionary closed; every further event is ignored.
    Done,
}

/// The mathematical form of [`Fsm`].
pub ghost enum FsmView {
    Start,
    LookingForTracksDict,
    InTrackList,
    InTrack,
    ReadingTrackKey,
    ReadingTrackValueForKey(Seq<char>),
    Done,
}

impl View for Fsm {
    type V = FsmView;

    open spec fn view(&self) -> FsmView {
        match self {
            Fsm::Start => FsmView::Start,
            Fsm::LookingForTracksDict => FsmView::LookingForTracksDict,
            Fsm::InTrackList => FsmView::InTrackList,
            Fsm::InTrack => FsmView::InTrack,
            Fsm::ReadingTrackKey => FsmView::ReadingTrackKey,
            Fsm::ReadingTrackValueForKey(key) => FsmView::ReadingTrackValueForKey(key@),
            Fsm::Done => FsmView::Done,
        }
    }
}

/// The whole accumulation state of a run: grammar position, the headers seen
/// so far in first-seen order, the in-progress track, and the finished tracks
/// in document order.
#[verifier::ext_equal]
pub ghost struct MachineView {
    pub fsm: FsmView,
    pub headers: Seq<Seq<char>>,
    pub current: Map<Seq<char>, Seq<char>>,
    pub tracks: Seq<Map<Seq<char>, Seq<char>>>,
}

/// The state a run begins in: everything empty, position `Start`.
pub open spec fn init_view() -> MachineView {
    MachineView {
        fsm: FsmView::Start,
        headers: Seq::empty(),
        current: Map::empty(),
        tracks: Seq::empty(),
    }
}

/// Registers a key in the header schema: appended on first sight, kept in
/// place afterwards, so the schema lists headers in first-seen order without
/// duplicates.
pub open spec fn add_header(headers: Seq<Seq<char>>, key: Seq<char>) -> Seq<Seq<char>> {
    if headers.contains(key) {
        headers
    } else {
        headers.push(key)
    }
}

/// One transition of the structural tracker. Any (state, event) pair not
/// listed here leaves the machine unchanged: that deliberately tolerates
/// plist content outside the Tracks dictionary, whitespace between tags,
/// and the closing tags of leaf elements.
pub open spec fn step_view(m: MachineView, e: EventView) -> MachineView {
    match m.fsm {
        FsmView::Start => match e {
            EventView::Characters(text) => if text == "Tracks"@ {
                MachineView { fsm: FsmView::LookingForTracksDict, ..m }
            } else {
                m
            },
            _ => m,
        },
        FsmView::LookingForTracksDict => match e {
            EventView::Start(name) => if name == "dict"@ {
                MachineView { fsm: FsmView::InTrackList, ..m }
            } else {
                m
            },
            _ => m,
        },
        FsmView::InTrackList => match e {
            EventView::Start(name) => if name == "dict"@ {
                MachineView { fsm: FsmView::InTrack, ..m }
            } else {
                m
            },
            EventView::End(name) => if name == "dict"@ {
                MachineView { fsm: FsmView::Done, ..m }
            } else {
                m
            },
            _ => m,
        },
        FsmView::InTrack => match e {
            EventView::Start(name) => if name == "key"@ {
                MachineView { fsm: FsmView::ReadingTrackKey, ..m }
            } else {
                m
            },
            EventView::End(name) => if name == "dict"@ {
                MachineView {
                    fsm: FsmView::InTrackList,
                    current: Map::empty(),
                    tracks: m.tracks.push(m.current),
                    ..m
                }
            } else {
                m
            },
            _ => m,
        },
        FsmView::ReadingTrackKey => match e {
            EventView::Characters(key) => MachineView {
                fsm: FsmView::ReadingTrackValueForKey(key),
                headers: add_header(m.headers, key),
                ..m
            },
            _ => m,
        },
        FsmView::ReadingTrackValueForKey(key) => match e {
            // Booleans are zero-content leaves: the value is decided at the
            // opening tag. Any other opening tag only declares the value's
            // type, which is informational and changes nothing here.
            EventView::Start(name) => if name == "true"@ {
                MachineView {
                    fsm: FsmView::InTrack,
                    current: m.current.insert(key, "true"@),
                    ..m
                }
            } else if name == "false"@ {
                MachineView {
                    fsm: FsmView::InTrack,
                    current: m.current.insert(key, "false"@),
                    ..m
                }
            } else {
                m
            },
            EventView::Characters(value) => MachineView {
                fsm: FsmView::InTrack,
                current: m.current.insert(key, value),
                ..m
            },
            _ => m,
        },
        FsmView::Done => m,
    }
}

/// The state after feeding the machine every event of `es`, in order.
pub open spec fn run_view(m: MachineView, es: Seq<EventView>) -> MachineView
    decreases es.len(),
{
    if es.len() == 0 {
        m
    } else {
        run_view(step_view(m, es[0]), es.drop_first())
    }
}

/// Running a sequence extended by one event is one more step after running
/// the sequence.
pub proof fn lemma_run_view_snoc(m: MachineView, es: Seq<EventView>, e: EventView)
    ensures
        run_view(m, es.push(e)) == step_view(run_view(m, es), e),
    decreases es.len(),
{
    if es.len() == 0 {
        assert(run_view(m, es) == m);
        assert(es.push(e)[0] == e);
        assert(es.push(e).drop_first() =~= Seq::<EventView>::empty());
        assert(run_view(m, es.push(e)) == run_view(step_view(m, e), es.push(e).drop_first()));
        assert(run_view(step_view(m, e), es.push(e).drop_first()) == step_view(m, e));
    } else {
        lemma_run_view_snoc(step_view(m, es[0]), es.drop_first(), e);
        assert(es.push(e)[0] == es[0]);
        assert(es.push(e).drop_first() =~= es.drop_first().push(e));
        assert(run_view(m, es.push(e)) == run_view(
            step_view(m, es[0]),
            es.drop_first().push(e),
        ));
        assert(run_view(m, es) == run_view(step_view(m, es[0]), es.drop_first()));
    }
}

/// The executable structural tracker together with its accumulators.
pub struct Machine {
    fsm: Fsm,
    headers: Vec<String>,
    current: KvMap,
    tracks: Vec<KvMap>,
}

impl View for Machine {
    type V = MachineView;

    closed spec fn view(&self) -> MachineView {
        MachineView {
            fsm: self.fsm@,
            headers: self.headers.deep_view(),
            current: self.current@,
            tracks: self.tracks.deep_view(),
        }
    }
}

/// Compares a string against a literal name of the grammar.
fn str_eq(s: &String, lit: &str) -> (r: bool)
    ensures
        r == (s@ == lit@),
{
    let owned: String = lit.to_owned();
    *s == owned
}

/// Appends `key` to `headers` unless an equal key is already there.
fn insert_header(headers: &mut Vec<String>, key: &String)
    ensures
        final(headers).deep_view() == add_header(old(headers).deep_view(), key@),
{
    let n = headers.len();
    let mut i: usize = 0;
    while i < n
        invariant
            i <= n,
            n == headers.len(),
            headers == old(headers),
            forall|j: int| 0 <= j < i ==> headers.deep_view()[j] != key@,
        decreases n - i,
    {
        if headers[i] == *key {
            proof {
                assert(headers.deep_view()[i as int] == key@);
                assert(headers.deep_view().contains(key@));
            }
            return;
        }
        i += 1;
    }
    proof {
        assert(!headers.deep_view().contains(key@));
    }
    headers.push(key.clone());
    proof {
        assert(headers.deep_view() =~= old(headers).deep_view().push(key@));
    }
}

impl Machine {
    /// A machine ready to consume the first event of a document.
    pub fn new() -> (m: Machine)
        ensures
            m@ == init_view(),
    {
        let m = Machine {
            fsm: Fsm::Start,
            headers: Vec::new(),
            current: KvMap::new(),
            tracks: Vec::new(),
        };
        proof {
            assert(m@ =~= init_view());
        }
        m
    }

    /// Feeds one classified event to the machine.
    pub fn step(&mut self, e: &Event)
        ensures
            final(self)@ == step_view(old(self)@, e@),
    {
        match &self.fsm {
            Fsm::Start => {
                if let Event::Characters(text) = e {
                    if str_eq(text, "Tracks") {
                        self.fsm = Fsm::LookingForTracksDict;
                    }
                }
            },
            Fsm::LookingForTracksDict => {
                if let Event::Start(name) = e {
                    if str_eq(name, "dict") {
                        self.fsm = Fsm::InTrackList;
                    }
                }
            },
            Fsm::InTrackList => {
                match e {
                    Event::Start(name) => {
                        if str_eq(name, "dict") {
                            self.fsm = Fsm::InTrack;
                        }
                    },
                    Event::End(name) => {
                        if str_eq(name, "dict") {
                            self.fsm = Fsm::Done;
                        }
                    },
                    _ => {},
                }
            },
            Fsm::InTrack => {
                match e {
                    Event::Start(name) => {
                        if str_eq(name, "key") {
                            self.fsm = Fsm::ReadingTrackKey;
                        }
                    },
                    Event::End(name) => {
                        if str_eq(name, "dict") {
                            let mut finished = KvMap::new();
                            core::mem::swap(&mut finished, &mut self.current);
                            self.tracks.push(finished);
                            self.fsm = Fsm::InTrackList;
                            proof {
                                assert(self.tracks.deep_view() =~= old(
                                    self,
                                ).tracks.deep_view().push(old(self).current@));
                            }
                        }
                    },
                    _ => {},
                }
            },
            Fsm::ReadingTrackKey => {
                if let Event::Characters(key) = e {
                    insert_header(&mut self.headers, key);
                    self.fsm = Fsm::ReadingTrackValueForKey(key.clone());
                }
            },
            Fsm::ReadingTrackValueForKey(key) => {
                match e {
                    Event::Start(name) => {
                        if str_eq(name, "true") {
                            let k = key.clone();
                            self.current.set(k, "true".to_owned());
                            self.fsm = Fsm::InTrack;
                        } else if str_eq(name, "false") {
                            let k = key.clone();
                            self.current.set(k, "false".to_owned());
                            self.fsm = Fsm::InTrack;
                        }
                    },
                    Event::Characters(value) => {
                        let k = key.clone();
                        self.current.set(k, value.clone());
                        self.fsm = Fsm::InTrack;
                    },
                    _ => {},
                }
            },
            Fsm::Done => {},
        }
        proof {
            assert(self@ =~= step_view(old(self)@, e@));
        }
    }

    /// Freezes the header order and projects every finished track onto it.
    /// Consumes the machine: the run is over once the table is taken.
    pub fn finish(self) -> (t: Table)
        ensures
            t@ == table_view(self@),
    {
        let ghost m = self@;
        let mut rows: Vec<Vec<String>> = Vec::new();
        let n = self.tracks.len();
        let mut i: usize = 0;
        while i < n
            invariant
                i <= n,
                n == self.tracks.len(),
                self.headers.deep_view() == m.headers,
                self.tracks.deep_view() == m.tracks,
                rows@.len() == i,
                forall|ii: int| 0 <= ii < i ==> rows.deep_view()[ii] == table_view(m).rows[ii],
            decreases n - i,
        {
            let row = project_row(&self.headers, &self.tracks[i]);
            let ghost prev = rows.deep_view();
            let ghost prev_rows = rows@;
            proof {
                assert(self.tracks[i as int].deep_view() == m.tracks[i as int]);
            }
            rows.push(row);
            proof {
                assert forall|ii: int|
                    0 <= ii < i + 1 implies rows.deep_view()[ii] == table_view(m).rows[ii] by {
                    if ii == i as int {
                        assert(rows.deep_view()[ii] == table_view(m).rows[ii]);
                    } else {
                        assert(rows@[ii] == prev_rows[ii]);
                        assert(rows.deep_view()[ii] == prev[ii]);
                        assert(prev[ii] == table_view(m).rows[ii]);
                    }
                }
            }
            i += 1;
        }
        let t = Table { header: self.headers, rows };
        proof {
            assert(t@.rows =~= table_view(m).rows);
            assert(t@ =~= table_view(m));
        }
        t
    }
}

/// Builds one track's row in the frozen header order.
fn project_row(headers: &Vec<String>, track: &KvMap) -> (row: Vec<String>)
    ensures
        row.deep_view() == row_view(headers.deep_view(), track@),
{
    let mut row: Vec<String> = Vec::new();
    let n = headers.len();
    let mut j: usize = 0;
    while j < n
        invariant
            j <= n,
            n == headers.len(),
            row@.len() == j,
            forall|jj: int|
                0 <= jj < j ==> row.deep_view()[jj] == row_view(headers.deep_view(), track@)[jj],
        decreases n - j,
    {
        let ghost prev = row.deep_view();
        let ghost prev_strs = row@;
        proof {
            assert(headers.deep_view()[j as int] == headers@[j as int]@);
        }
        match track.get(&headers[j]) {
            Some(v) => row.push(v),
            None => row.push(String::new()),
        }
        proof {
            assert forall|jj: int|
                0 <= jj < j + 1 implies row.deep_view()[jj] == row_view(
                headers.deep_view(),
                track@,
            )[jj] by {
                if jj == j as int {
                    assert(row.deep_view()[jj] == row_view(headers.deep_view(), track@)[jj]);
                } else {
                    assert(row@[jj] == prev_strs[jj]);
                    assert(row.deep_view()[jj] == prev[jj]);
                    assert(prev[jj] == row_view(headers.deep_view(), track@)[jj]);
                }
            }
        }
        j += 1;
    }
    proof {
        assert(row.deep_view() =~= row_view(headers.deep_view(), track@));
    }
    row
}

} // verus!
