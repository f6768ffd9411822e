//! Hotkeys, window placement, the completion log, the file locations,
//! and the process-state operations.

use tasklog::appstate::{should_toggle, initial_shortcut, AppState, HotkeyEvent};
use tasklog::clock::LocalTime;
use tasklog::donelog::{archive_done, archive_file_name, done_record_string, ArchiveError};
use tasklog::hotkey::{parse_hotkey, HotkeyError, KeyCode, KeyCombination, ModifierSet};
use tasklog::model::{AppConfig, Note, Task, TaskState};
use tasklog::paths::{corrupted_file_name, tasks_dir_of};
use tasklog::placement::{place_window, ScreenRect};

fn at(year: i32, month: u32, day: u32, hour: u32, minute: u32, second: u32) -> LocalTime {
    LocalTime { year, month, day, hour, minute, second }
}

#[test]
fn hotkey_ctrl_alt_k() {
    let c = parse_hotkey("Ctrl+Alt+K").expect("well-formed spec");
    assert_eq!(
        c,
        KeyCombination {
            modifiers: ModifierSet { sup: false, control: true, alt: true, shift: false },
            code: KeyCode::KeyK,
        }
    );
}

#[test]
fn hotkey_bare_equals() {
    let c = parse_hotkey("=").expect("a bare key is legal");
    assert_eq!(
        c,
        KeyCombination {
            modifiers: ModifierSet { sup: false, control: false, alt: false, shift: false },
            code: KeyCode::Equal,
        }
    );
}

#[test]
fn hotkey_empty_fails() {
    match parse_hotkey("") {
        Err(HotkeyError::EmptySpec) => {}
        other => panic!("expected the empty-specification error, got {:?}", other.is_ok()),
    }
    assert_eq!(HotkeyError::EmptySpec.message().as_str(), "Empty hotkey");
}

#[test]
fn hotkey_unknown_key_names_token() {
    match parse_hotkey("Cmd+Foo") {
        Err(HotkeyError::UnknownKey(t)) => {
            assert_eq!(t.as_str(), "Foo");
            assert_eq!(
                HotkeyError::UnknownKey(t).message().as_str(),
                "Unknown key: Foo"
            );
        }
        _ => panic!("expected an unknown-key error"),
    }
}

#[test]
fn hotkey_unknown_modifier_names_token() {
    match parse_hotkey("Hyper+a") {
        Err(HotkeyError::UnknownModifier(t)) => {
            assert_eq!(t.as_str(), "Hyper");
            assert_eq!(
                HotkeyError::UnknownModifier(t).message().as_str(),
                "Unknown modifier: Hyper"
            );
        }
        _ => panic!("expected an unknown-modifier error"),
    }
}

#[test]
fn hotkey_full_default_spec() {
    let c = parse_hotkey("Cmd+Ctrl+Alt+Shift+=").expect("the built-in default");
    assert_eq!(
        c,
        KeyCombination {
            modifiers: ModifierSet { sup: true, control: true, alt: true, shift: true },
            code: KeyCode::Equal,
        }
    );
}

#[test]
fn hotkey_aliases_and_case() {
    let a = parse_hotkey("COMMAND+OPTION+Return").unwrap();
    assert_eq!(
        a,
        KeyCombination {
            modifiers: ModifierSet { sup: true, control: false, alt: true, shift: false },
            code: KeyCode::Enter,
        }
    );
    let b = parse_hotkey("meta+control+shift+F12").unwrap();
    assert_eq!(
        b,
        KeyCombination {
            modifiers: ModifierSet { sup: true, control: true, alt: false, shift: true },
            code: KeyCode::F12,
        }
    );
    let c = parse_hotkey("space").unwrap();
    assert_eq!(c.code, KeyCode::Space);
}

#[test]
fn placement_uses_display_under_pointer() {
    // two side-by-side displays of equal height; the primary is the left one
    let left = ScreenRect { x: 0, y: 0, w: 1000, h: 800 };
    let right = ScreenRect { x: 1000, y: 0, w: 1000, h: 800 };
    let screens = vec![left, right];
    let (x, y) = place_window(1500, 400, &screens, &left, 400);
    // anchored to the right display's top-right corner, not the primary's
    assert_eq!(x, 1600);
    assert_eq!(y, 0);
}

#[test]
fn placement_flips_with_primary_height() {
    // a shorter secondary display: its top in bottom-left coordinates is
    // below the primary's top, so the flipped y is positive
    let primary = ScreenRect { x: 0, y: 0, w: 1000, h: 800 };
    let small = ScreenRect { x: 1000, y: 0, w: 800, h: 600 };
    let screens = vec![primary, small];
    let (x, y) = place_window(1200, 100, &screens, &primary, 400);
    assert_eq!(x, 1000 + 800 - 400);
    assert_eq!(y, 800 - 600);
}

#[test]
fn placement_falls_back_to_primary() {
    let primary = ScreenRect { x: 0, y: 0, w: 1000, h: 800 };
    let screens = vec![primary];
    let (x, y) = place_window(5000, 5000, &screens, &primary, 400);
    assert_eq!(x, 600);
    assert_eq!(y, 0);
}

#[test]
fn placement_first_match_wins() {
    let a = ScreenRect { x: 0, y: 0, w: 1000, h: 800 };
    let b = ScreenRect { x: 500, y: 0, w: 1000, h: 800 };
    let screens = vec![a, b];
    let (x, _) = place_window(700, 100, &screens, &b, 100);
    assert_eq!(x, 1000 - 100);
}

#[test]
fn done_record_format() {
    let task = Task {
        text: "Ship release".to_string(),
        notes: vec![
            Note { text: "tag build".to_string(), completed: true },
            Note { text: "tell users".to_string(), completed: false },
        ],
    };
    let now = at(2024, 3, 5, 9, 15, 2);
    let record = done_record_string(&task, &now);
    assert_eq!(
        record.as_str(),
        "- 2024-03-05: Ship release\n  \u{2713} tag build\n  \u{25cb} tell users\n"
    );
}

#[test]
fn done_record_without_notes_is_one_line() {
    let task = Task { text: "Water plants".to_string(), notes: vec![] };
    let record = done_record_string(&task, &at(1999, 12, 31, 23, 59, 59));
    assert_eq!(record.as_str(), "- 1999-12-31: Water plants\n");
}

#[test]
fn archive_names_by_timestamp() {
    let now = at(2024, 3, 5, 9, 15, 2);
    assert_eq!(archive_file_name(&now).as_str(), "done_2024-03-05_091502.md");
}

#[test]
fn archive_twice_without_new_completions() {
    let now = at(2024, 3, 5, 9, 15, 2);
    // the log holds some bytes: the first archive succeeds
    let first = archive_done(Some(120), &now);
    assert_eq!(first.unwrap().as_str(), "done_2024-03-05_091502.md");
    // a successful archive truncates the log; the repeat finds it empty
    let second = archive_done(Some(0), &at(2024, 3, 5, 9, 15, 3));
    match second {
        Err(ArchiveError::NothingToArchive) => {}
        Ok(_) => panic!("an empty log must not be archived"),
    }
    // and with no log file at all there is nothing to archive either
    assert!(archive_done(None, &now).is_err());
    assert_eq!(
        ArchiveError::NothingToArchive.message().as_str(),
        "No completed tasks to archive"
    );
}

#[test]
fn file_locations_join_cleanly() {
    assert_eq!(tasks_dir_of("/home/u").as_str(), "/home/u/.tasks");
    assert_eq!(
        corrupted_file_name("/home/u/.tasks/state.json").as_str(),
        "/home/u/.tasks/state.json.corrupted"
    );
}

#[test]
fn scenario_save_then_get() {
    // initial empty state, one save, then a snapshot read
    let mut app = AppState::new(TaskState::default(), AppConfig::default());
    assert_eq!(app.get_tasks().current.len(), 0);
    assert_eq!(app.get_tasks().shelf.len(), 0);
    let new_state = TaskState {
        current: vec![Task { text: "Buy milk".to_string(), notes: vec![] }],
        shelf: vec![],
    };
    let _to_write = app.save_state(new_state);
    let snapshot = app.get_tasks();
    assert_eq!(snapshot.current.len(), 1);
    assert_eq!(snapshot.current[0].text, "Buy milk");
    assert_eq!(snapshot.current[0].notes.len(), 0);
    assert_eq!(snapshot.shelf.len(), 0);
}

#[test]
fn get_tasks_returns_a_deep_copy() {
    let mut app = AppState::new(TaskState::default(), AppConfig::default());
    let _ = app.save_state(TaskState {
        current: vec![Task { text: "original".to_string(), notes: vec![] }],
        shelf: vec![],
    });
    let mut copy = app.get_tasks();
    copy.current[0].text = "mutated".to_string();
    assert_eq!(app.get_tasks().current[0].text, "original");
}

#[test]
fn hotkey_swap_bookkeeping() {
    let mut app = AppState::new(TaskState::default(), AppConfig::default());
    assert!(app.current_shortcut.is_none());
    let plan = app.set_hotkey_begin("Ctrl+X").expect("valid spec");
    assert!(plan.unregister.is_none());
    let _config_text = app.set_hotkey_commit("Ctrl+X".to_string(), plan.register);
    assert_eq!(app.current_shortcut.unwrap().code, KeyCode::KeyX);
    assert_eq!(app.get_hotkey().as_str(), "Ctrl+X");
    // a second swap releases exactly the first binding
    let plan2 = app.set_hotkey_begin("Alt+Y").expect("valid spec");
    assert_eq!(plan2.unregister.unwrap().code, KeyCode::KeyX);
    let _ = app.set_hotkey_commit("Alt+Y".to_string(), plan2.register);
    assert_eq!(app.current_shortcut.unwrap().code, KeyCode::KeyY);
    // a failed registration leaves nothing bound
    app.set_hotkey_fail();
    assert!(app.current_shortcut.is_none());
}

#[test]
fn invalid_hotkey_leaves_old_binding() {
    let mut app = AppState::new(TaskState::default(), AppConfig::default());
    let plan = app.set_hotkey_begin("Ctrl+X").unwrap();
    let _ = app.set_hotkey_commit("Ctrl+X".to_string(), plan.register);
    assert!(app.set_hotkey_begin("Ctrl+NoSuchKey").is_err());
    assert_eq!(app.current_shortcut.unwrap().code, KeyCode::KeyX);
    assert_eq!(app.get_hotkey().as_str(), "Ctrl+X");
}

#[test]
fn initial_shortcut_falls_back_to_default() {
    let bad = AppConfig { hotkey: "garbage spec".to_string() };
    let c = initial_shortcut(&bad);
    assert_eq!(
        c,
        KeyCombination {
            modifiers: ModifierSet { sup: true, control: true, alt: true, shift: true },
            code: KeyCode::Equal,
        }
    );
    let good = AppConfig { hotkey: "Shift+9".to_string() };
    let c = initial_shortcut(&good);
    assert_eq!(c.code, KeyCode::Digit9);
    assert!(c.modifiers.shift);
}

#[test]
fn startup_binds_configured_shortcut() {
    let config = AppConfig { hotkey: "Ctrl+K".to_string() };
    let mut app = AppState::new(TaskState::default(), config);
    assert!(app.current_shortcut.is_none());
    let c = initial_shortcut(&app.config);
    app.bind_initial(c);
    let bound = app.current_shortcut.unwrap();
    assert_eq!(bound.code, KeyCode::KeyK);
    assert!(bound.modifiers.control);
    assert!(!bound.modifiers.sup);
}

#[test]
fn only_presses_toggle() {
    assert!(should_toggle(&HotkeyEvent::Pressed));
    assert!(!should_toggle(&HotkeyEvent::Released));
}
