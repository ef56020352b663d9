//! Event-level tests: drive the machine over hand-built event sequences.

use tracktable::convert::run_events;
use tracktable::event::Event;
use tracktable::machine::Machine;

fn start(name: &str) -> Event {
    Event::Start(name.to_string())
}

fn end(name: &str) -> Event {
    Event::End(name.to_string())
}

fn chars(text: &str) -> Event {
    Event::Characters(text.to_string())
}

fn strings(items: &[&str]) -> Vec<String> {
    items.iter().map(|s| s.to_string()).collect()
}

#[test]
fn two_tracks_scenario() {
    // First track {Name: "A", Rating: true}, second track {Name: "B"}.
    let events = vec![
        chars("Tracks"),
        start("dict"),
        start("dict"),
        start("key"),
        chars("Name"),
        end("key"),
        start("string"),
        chars("A"),
        end("string"),
        start("key"),
        chars("Rating"),
        end("key"),
        start("true"),
        end("true"),
        end("dict"),
        start("dict"),
        start("key"),
        chars("Name"),
        end("key"),
        start("string"),
        chars("B"),
        end("string"),
        end("dict"),
        end("dict"),
    ];
    let t = run_events(&events);
    assert_eq!(t.header, strings(&["Name", "Rating"]));
    assert_eq!(t.rows.len(), 2);
    assert_eq!(t.rows[0], strings(&["A", "true"]));
    assert_eq!(t.rows[1], strings(&["B", ""]));
}

#[test]
fn boolean_leaf_true() {
    // The opening tag alone resolves the value; no character data follows.
    let events = vec![
        chars("Tracks"),
        start("dict"),
        start("dict"),
        start("key"),
        chars("Loved"),
        end("key"),
        start("true"),
        end("true"),
        end("dict"),
        end("dict"),
    ];
    let t = run_events(&events);
    assert_eq!(t.header, strings(&["Loved"]));
    assert_eq!(t.rows, vec![strings(&["true"])]);
}

#[test]
fn boolean_leaf_false() {
    let events = vec![
        chars("Tracks"),
        start("dict"),
        start("dict"),
        start("key"),
        chars("Loved"),
        end("key"),
        start("false"),
        end("false"),
        end("dict"),
        end("dict"),
    ];
    let t = run_events(&events);
    assert_eq!(t.rows, vec![strings(&["false"])]);
}

#[test]
fn empty_track_list() {
    // Zero track dictionaries: empty header, no data rows.
    let events = vec![chars("Tracks"), start("dict"), end("dict")];
    let t = run_events(&events);
    assert_eq!(t.header, Vec::<String>::new());
    assert_eq!(t.rows.len(), 0);
}

#[test]
fn no_events_at_all() {
    let t = run_events(&Vec::new());
    assert_eq!(t.header.len(), 0);
    assert_eq!(t.rows.len(), 0);
}

#[test]
fn key_in_one_track_only() {
    // "Solo" appears only in the middle track: its column is filled there
    // and empty in every other row.
    let mut events = vec![chars("Tracks"), start("dict")];
    for (name, with_solo) in [("A", false), ("B", true), ("C", false)] {
        events.push(start("dict"));
        events.push(start("key"));
        events.push(chars("Name"));
        events.push(end("key"));
        events.push(start("string"));
        events.push(chars(name));
        events.push(end("string"));
        if with_solo {
            events.push(start("key"));
            events.push(chars("Solo"));
            events.push(end("key"));
            events.push(start("string"));
            events.push(chars("only here"));
            events.push(end("string"));
        }
        events.push(end("dict"));
    }
    events.push(end("dict"));
    let t = run_events(&events);
    assert_eq!(t.header, strings(&["Name", "Solo"]));
    assert_eq!(t.rows[0], strings(&["A", ""]));
    assert_eq!(t.rows[1], strings(&["B", "only here"]));
    assert_eq!(t.rows[2], strings(&["C", ""]));
}

#[test]
fn surrounding_plist_content_ignored() {
    // Elements and text outside the Tracks dictionary match no transition.
    let events = vec![
        start("plist"),
        start("dict"),
        start("key"),
        chars("Major Version"),
        end("key"),
        start("integer"),
        chars("1"),
        end("integer"),
        start("key"),
        chars("Tracks"),
        end("key"),
        start("dict"),
        start("dict"),
        start("key"),
        chars("Name"),
        end("key"),
        start("string"),
        chars("A"),
        end("string"),
        end("dict"),
        end("dict"),
        end("dict"),
        end("plist"),
    ];
    let t = run_events(&events);
    assert_eq!(t.header, strings(&["Name"]));
    assert_eq!(t.rows, vec![strings(&["A"])]);
}

#[test]
fn events_after_done_ignored() {
    // Once the Tracks dictionary closes, further dictionaries are not tracks.
    let events = vec![
        chars("Tracks"),
        start("dict"),
        end("dict"),
        start("dict"),
        start("key"),
        chars("Name"),
        end("key"),
        start("string"),
        chars("late"),
        end("string"),
        end("dict"),
    ];
    let t = run_events(&events);
    assert_eq!(t.header.len(), 0);
    assert_eq!(t.rows.len(), 0);
}

#[test]
fn last_value_wins_within_track() {
    let events = vec![
        chars("Tracks"),
        start("dict"),
        start("dict"),
        start("key"),
        chars("Name"),
        end("key"),
        start("string"),
        chars("first"),
        end("string"),
        start("key"),
        chars("Name"),
        end("key"),
        start("string"),
        chars("second"),
        end("string"),
        end("dict"),
        end("dict"),
    ];
    let t = run_events(&events);
    assert_eq!(t.header, strings(&["Name"]));
    assert_eq!(t.rows, vec![strings(&["second"])]);
}

#[test]
fn value_type_tag_is_informational() {
    // A non-boolean type tag changes nothing; the next character data is the
    // value, kept in its literal textual form.
    let events = vec![
        chars("Tracks"),
        start("dict"),
        start("dict"),
        start("key"),
        chars("Play Count"),
        end("key"),
        start("integer"),
        chars("42"),
        end("integer"),
        end("dict"),
        end("dict"),
    ];
    let t = run_events(&events);
    assert_eq!(t.rows, vec![strings(&["42"])]);
}

#[test]
fn other_events_match_no_transition() {
    let events = vec![
        Event::Other,
        chars("Tracks"),
        Event::Other,
        start("dict"),
        Event::Other,
        end("dict"),
    ];
    let t = run_events(&events);
    assert_eq!(t.header.len(), 0);
    assert_eq!(t.rows.len(), 0);
}

#[test]
fn stepwise_machine_matches_run() {
    let events = vec![
        chars("Tracks"),
        start("dict"),
        start("dict"),
        start("key"),
        chars("Name"),
        end("key"),
        start("string"),
        chars("A"),
        end("string"),
        end("dict"),
        end("dict"),
    ];
    let mut m = Machine::new();
    for e in events.iter() {
        m.step(e);
    }
    let stepped = m.finish();
    let ran = run_events(&events);
    assert_eq!(stepped.header, ran.header);
    assert_eq!(stepped.rows, ran.rows);
}
