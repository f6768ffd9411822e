//! Persistence: rendering, parsing, round trips, corruption recovery.

use tasklog::appstate::{load_config, load_tasks, FileRead};
use tasklog::model::{AppConfig, Note, Task, TaskState};
use tasklog::reader::{parse_config_json, parse_state_json};
use tasklog::writer::{config_json, state_json};

fn note(text: &str, completed: bool) -> Note {
    Note { text: text.to_string(), completed }
}

fn task(text: &str, notes: Vec<Note>) -> Task {
    Task { text: text.to_string(), notes }
}

fn assert_states_equal(a: &TaskState, b: &TaskState) {
    assert_eq!(a.current.len(), b.current.len());
    assert_eq!(a.shelf.len(), b.shelf.len());
    for (x, y) in a.current.iter().zip(b.current.iter()) {
        assert_tasks_equal(x, y);
    }
    for (x, y) in a.shelf.iter().zip(b.shelf.iter()) {
        assert_tasks_equal(x, y);
    }
}

fn assert_tasks_equal(x: &Task, y: &Task) {
    assert_eq!(x.text, y.text);
    assert_eq!(x.notes.len(), y.notes.len());
    for (n, m) in x.notes.iter().zip(y.notes.iter()) {
        assert_eq!(n.text, m.text);
        assert_eq!(n.completed, m.completed);
    }
}

#[test]
fn state_round_trip_basic() {
    let state = TaskState {
        current: vec![
            task("Buy milk", vec![note("skim", false), note("paid", true)]),
            task("Write report", vec![]),
        ],
        shelf: vec![task("Sharpen saw", vec![note("find file", false)])],
    };
    let text = state_json(&state);
    let back = parse_state_json(&text).expect("canonical output must parse");
    assert_states_equal(&state, &back);
}

#[test]
fn state_round_trip_unicode_and_escapes() {
    let tricky = "quote \" backslash \\ newline \n tab \t bell \u{7} del \u{7f} emoji \u{1f600} umlaut \u{e4}";
    let state = TaskState {
        current: vec![task(tricky, vec![note("inner \"x\"\r\n", true)])],
        shelf: vec![task("", vec![note("", false)])],
    };
    let text = state_json(&state);
    let back = parse_state_json(&text).expect("escaped output must parse");
    assert_states_equal(&state, &back);
}

#[test]
fn empty_state_round_trip() {
    let state = TaskState { current: vec![], shelf: vec![] };
    let text = state_json(&state);
    assert_eq!(text.as_str(), "{\n  \"current\": [],\n  \"shelf\": []\n}");
    let back = parse_state_json(&text).expect("empty state must parse");
    assert_eq!(back.current.len(), 0);
    assert_eq!(back.shelf.len(), 0);
}

#[test]
fn golden_pretty_output() {
    let state = TaskState {
        current: vec![task("Buy milk", vec![note("skim", true)])],
        shelf: vec![],
    };
    let expected = "{\n  \"current\": [\n    {\n      \"text\": \"Buy milk\",\n      \"notes\": [\n        {\n          \"text\": \"skim\",\n          \"completed\": true\n        }\n      ]\n    }\n  ],\n  \"shelf\": []\n}";
    assert_eq!(state_json(&state).as_str(), expected);
}

#[test]
fn save_then_load_as_a_fresh_process_would() {
    let state = TaskState {
        current: vec![task("alpha", vec![note("a1", true)])],
        shelf: vec![task("beta", vec![])],
    };
    // what a save writes is exactly what a later start reads back
    let written = state_json(&state);
    let (loaded, corrupted) = load_tasks(&FileRead::Content(written));
    assert!(!corrupted);
    assert_states_equal(&state, &loaded);
}

#[test]
fn corrupt_state_yields_default_and_backup_request() {
    let read = FileRead::Content("this is not json at all {{{".to_string());
    let (state, corrupted) = load_tasks(&read);
    assert_eq!(state.current.len(), 0);
    assert_eq!(state.shelf.len(), 0);
    assert!(corrupted);
}

#[test]
fn missing_state_yields_default_without_backup() {
    let (state, corrupted) = load_tasks(&FileRead::Missing);
    assert_eq!(state.current.len(), 0);
    assert_eq!(state.shelf.len(), 0);
    assert!(!corrupted);
}

#[test]
fn parse_rejects_garbage() {
    assert!(parse_state_json("").is_none());
    assert!(parse_state_json("hello").is_none());
    assert!(parse_state_json("{\"current\": []}").is_none());
    assert!(parse_state_json("{\"current\": [], \"shelf\": [}").is_none());
    assert!(parse_state_json("{\"current\": [], \"shelf\": []} trailing").is_none());
    assert!(parse_state_json("{\"current\": [], \"shelf\": [\"x\"]}").is_none());
}

#[test]
fn whitespace_tolerant_parse() {
    let compact = "{\"current\":[{\"text\":\"a\",\"notes\":[{\"text\":\"n\",\"completed\":false}]}],\"shelf\":[]}";
    let back = parse_state_json(compact).expect("compact form must parse");
    assert_eq!(back.current.len(), 1);
    assert_eq!(back.current[0].text, "a");
    assert_eq!(back.current[0].notes.len(), 1);
    assert_eq!(back.current[0].notes[0].text, "n");
    assert!(!back.current[0].notes[0].completed);

    let airy = "  {  \"current\" : [ ] ,\n\t\"shelf\" : [ ]  }  ";
    let back = parse_state_json(airy).expect("spread-out form must parse");
    assert_eq!(back.current.len(), 0);
    assert_eq!(back.shelf.len(), 0);
}

#[test]
fn omitted_members_take_their_defaults() {
    // a task without "notes": the note list defaults to empty
    let no_notes = "{\"current\":[{\"text\":\"a\"}],\"shelf\":[]}";
    let back = parse_state_json(no_notes).expect("a task may omit its notes");
    assert_eq!(back.current.len(), 1);
    assert_eq!(back.current[0].text, "a");
    assert_eq!(back.current[0].notes.len(), 0);

    // a note without "completed": the done flag defaults to false
    let no_flag = "{\"current\":[{\"text\":\"a\",\"notes\":[{\"text\":\"n\"}]}],\"shelf\":[]}";
    let back = parse_state_json(no_flag).expect("a note may omit its done flag");
    assert_eq!(back.current[0].notes.len(), 1);
    assert_eq!(back.current[0].notes[0].text, "n");
    assert!(!back.current[0].notes[0].completed);

    // and loading such a file is not a corruption event
    let (state, corrupted) = load_tasks(&FileRead::Content(no_notes.to_string()));
    assert!(!corrupted);
    assert_eq!(state.current.len(), 1);
    assert_eq!(state.current[0].text, "a");
    assert_eq!(state.current[0].notes.len(), 0);
}

#[test]
fn present_members_are_taken_verbatim() {
    let mixed = "{\"current\":[{\"text\":\"a\",\"notes\":[{\"text\":\"n\",\"completed\":true},{\"text\":\"m\"}]}],\"shelf\":[{\"text\":\"b\"}]}";
    let back = parse_state_json(mixed).expect("mixed omission must parse");
    assert!(back.current[0].notes[0].completed);
    assert!(!back.current[0].notes[1].completed);
    assert_eq!(back.shelf[0].text, "b");
    assert_eq!(back.shelf[0].notes.len(), 0);
}

#[test]
fn escaped_controls_parse_back() {
    let with_escapes =
        "{\"current\":[{\"text\":\"a\\u0001b\\n\\t\\\\\\\"\",\"notes\":[]}],\"shelf\":[]}";
    let back = parse_state_json(with_escapes).expect("escape forms must parse");
    assert_eq!(back.current[0].text, "a\u{1}b\n\t\\\"");
}

#[test]
fn serde_reads_our_output() {
    let state = TaskState {
        current: vec![task("alpha \"x\"", vec![note("line\nbreak", true)])],
        shelf: vec![task("beta", vec![])],
    };
    let text = state_json(&state);
    let value: serde_json::Value = serde_json::from_str(&text).expect("output must be JSON");
    let current = value.get("current").unwrap().as_array().unwrap();
    assert_eq!(current.len(), 1);
    assert_eq!(current[0].get("text").unwrap().as_str().unwrap(), "alpha \"x\"");
    let notes = current[0].get("notes").unwrap().as_array().unwrap();
    assert_eq!(notes[0].get("text").unwrap().as_str().unwrap(), "line\nbreak");
    assert_eq!(notes[0].get("completed").unwrap().as_bool().unwrap(), true);
    let shelf = value.get("shelf").unwrap().as_array().unwrap();
    assert_eq!(shelf[0].get("text").unwrap().as_str().unwrap(), "beta");
}

#[test]
fn config_round_trip() {
    let config = AppConfig { hotkey: "Ctrl+Shift+p".to_string() };
    let text = config_json(&config);
    assert_eq!(text.as_str(), "{\n  \"hotkey\": \"Ctrl+Shift+p\"\n}");
    let back = parse_config_json(&text).expect("canonical config must parse");
    assert_eq!(back.as_str(), "Ctrl+Shift+p");
}

#[test]
fn config_defaults_on_bad_or_missing_file() {
    let bad = load_config(&FileRead::Content("{]".to_string()));
    assert_eq!(bad.hotkey.as_str(), "Cmd+Ctrl+Alt+Shift+=");
    let missing = load_config(&FileRead::Missing);
    assert_eq!(missing.hotkey.as_str(), "Cmd+Ctrl+Alt+Shift+=");
    let unreadable = load_config(&FileRead::Unreadable);
    assert_eq!(unreadable.hotkey.as_str(), "Cmd+Ctrl+Alt+Shift+=");
}

#[test]
fn default_hotkey_text() {
    assert_eq!(tasklog::default_hotkey().as_str(), "Cmd+Ctrl+Alt+Shift+=");
}
