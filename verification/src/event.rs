//! The classified XML parse events that the state machine consumes.

use vstd::prelude::*;

verus! {

/// One classified XML parse event. `Start` and `End` carry the element's
/// local name; `Chars` carries character data. Everything else the lexer
/// reports (whitespace, comments, document markers, CDATA, processing
/// instructions) is classified as `Other`, which no transition matches.
pub enum Event {
    Start(String),
    End(String),
    Characters(String),
    Other,
}

/// The mathematical form of an [`Event`]: names and text as `Seq<char>`.
pub ghost enum EventView {
    Start(Seq<char>),
    End(Seq<char>),
    Characters(Seq<char>),
    Other,
}

impl View for Event {
    type V = EventView;

    open spec fn view(&self) -> EventView {
        match self {
            Event::Start(name) => EventView::Start(name@),
            Event::End(name) => EventView::End(name@),
            Event::Characters(text) => EventView::Characters(text@),
            Event::Other => EventView::Other,
        }
    }
}

impl DeepView for Event {
    type V = EventView;

    open spec fn deep_view(&self) -> EventView {
        self.view()
    }
}

} // verus!
