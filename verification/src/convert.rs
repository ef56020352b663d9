//! The whole conversion: lex a property-list document held in memory into
//! classified parse events, drive the structural tracker over them, and hand
//! back the finished table. A malformed document is fatal: no table is
//! produced for it.

use vstd::prelude::*;

use crate::event::{Event, EventView};
use crate::machine::{init_view, lemma_run_view_snoc, run_view, Machine};
use crate::table::{table_view, Table, TableView};

verus! {

/// The event source reported a syntax error; the run is aborted and no
/// partial table is handed out.
#[derive(Debug)]
pub struct MalformedXml {
    pub message: String,
}

/// What lexing a byte buffer yields: the classified parse events in document
/// order, or nothing when the document is malformed. The result depends on
/// the bytes alone.
pub uninterp spec fn xml_lex(bytes: Seq<u8>) -> Option<Seq<EventView>>;

/// Relies on `xml::reader::EventReader` driven over an in-memory byte slice:
/// it yields parse events in document order and reports an error on the first
/// malformed construct, and its output depends on the bytes alone.
#[verifier::external_body]
fn lex_events(bytes: &Vec<u8>) -> (r: Result<Vec<Event>, MalformedXml>)
    ensures
        match r {
            Ok(events) => xml_lex(bytes@) == Some(events.deep_view()),
            Err(_) => xml_lex(bytes@) is None,
        },
{
    let mut events = Vec::new();
    for e in xml::reader::EventReader::new(&bytes[..]) {
        match e {
            Ok(xml::reader::XmlEvent::StartElement { name, .. }) => {
                events.push(Event::Start(name.local_name))
            },
            Ok(xml::reader::XmlEvent::EndElement { name }) => events.push(Event::End(name.local_name)),
            Ok(xml::reader::XmlEvent::Characters(text)) => events.push(Event::Characters(text)),
            Ok(_) => events.push(Event::Other),
            Err(err) => return Err(MalformedXml { message: err.to_string() }),
        }
    }
    Ok(events)
}

/// The table that a sequence of parse events converts to.
pub open spec fn convert_view(es: Seq<EventView>) -> TableView {
    table_view(run_view(init_view(), es))
}

/// Drives a fresh machine over every event in order and freezes the result.
pub fn run_events(events: &Vec<Event>) -> (t: Table)
    ensures
        t@ == convert_view(events.deep_view()),
{
    let mut m = Machine::new();
    let n = events.len();
    let mut i: usize = 0;
    while i < n
        invariant
            i <= n,
            n == events.len(),
            m@ == run_view(init_view(), events.deep_view().take(i as int)),
        decreases n - i,
    {
        m.step(&events[i]);
        proof {
            lemma_run_view_snoc(
                init_view(),
                events.deep_view().take(i as int),
                events.deep_view()[i as int],
            );
            assert(events.deep_view().take(i + 1) =~= events.deep_view().take(i as int).push(
                events.deep_view()[i as int],
            ));
        }
        i += 1;
    }
    proof {
        assert(events.deep_view().take(n as int) =~= events.deep_view());
    }
    m.finish()
}

/// Converts a property-list document, given as its raw bytes, into the
/// table of its tracks: a well-formed document yields exactly the table its
/// parse events run to, and a malformed one yields an error and no table.
pub fn convert(bytes: &Vec<u8>) -> (r: Result<Table, MalformedXml>)
    ensures
        r is Ok <==> xml_lex(bytes@) is Some,
        r is Ok ==> r->Ok_0@ == convert_view(xml_lex(bytes@)->Some_0),
{
    match lex_events(bytes) {
        Ok(events) => Ok(run_events(&events)),
        Err(e) => Err(e),
    }
}

} // verus!
