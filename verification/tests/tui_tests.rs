use ccs::config::{Config, Profile, Provider, PROFILE_FIELD_COUNT};
use ccs::strmap::StrMap;
use ccs::text::char_to_byte;
use ccs::tui::{
    bullet, build_field_items, field_list_idx_of, handle_edit_key, with_cursor_mark, App,
    FieldRow, Focus, InputState, Key, KeyPress, Outcome, ValueStyle,
};

/// Rows rendered for `profile` with nothing being edited.
fn rows_for(profile: &Profile) -> Vec<FieldRow> {
    build_field_items(profile, 0, &InputState::Idle, true)
}

/// Row count for a profile without any env entries.
fn baseline_rows() -> usize {
    rows_for(&Profile::default()).len()
}

fn row_text(row: &FieldRow) -> String {
    match row {
        FieldRow::Header { title } => title.to_string(),
        FieldRow::Entry { marker, label, value, .. } => format!("{marker}{label}  {value}"),
    }
}

#[test]
fn field_items_include_readonly_env_section() {
    let mut env = StrMap::new();
    env.insert("CLAUDE_CODE_MAX_OUTPUT_TOKENS".to_string(), "16000".to_string());
    let profile = Profile { env: Some(env), ..Default::default() };
    let items = rows_for(&profile);
    // the Env section contributes exactly its header plus one entry
    assert_eq!(items.len(), baseline_rows() + 2);

    // read-only rows render at the end of the list
    let header = row_text(&items[items.len() - 2]);
    let entry = row_text(&items[items.len() - 1]);
    assert!(header.contains("Env") && header.contains("config.toml"));
    assert!(entry.contains("CLAUDE_CODE_MAX_OUTPUT_TOKENS"));
    assert!(entry.contains("16000"));
}

#[test]
fn empty_env_table_renders_no_section() {
    let profile = Profile { env: Some(StrMap::new()), ..Default::default() };
    assert_eq!(rows_for(&profile).len(), baseline_rows());
}

#[test]
fn field_rows_follow_their_headers() {
    let items = rows_for(&Profile::default());
    assert_eq!(items.len(), 12);
    assert!(matches!(items[0], FieldRow::Header { title: "Profile" }));
    assert!(matches!(items[2], FieldRow::Header { title: "Models" }));
    assert!(matches!(items[9], FieldRow::Header { title: "Provider" }));
    for i in 0..PROFILE_FIELD_COUNT {
        let row = field_list_idx_of(i);
        assert!(matches!(items[row], FieldRow::Entry { .. }));
    }
    assert_eq!(field_list_idx_of(0), 1);
    assert_eq!(field_list_idx_of(1), 3);
    assert_eq!(field_list_idx_of(6), 8);
    assert_eq!(field_list_idx_of(7), 10);
    assert_eq!(field_list_idx_of(8), 11);
    match &items[1] {
        FieldRow::Entry { marker, label, value, style } => {
            assert_eq!(*marker, " ▸");
            assert_eq!(label, "description");
            assert_eq!(value, "");
            assert_eq!(*style, ValueStyle::Unset);
        }
        _ => panic!("expected an entry"),
    }
}

#[test]
fn editing_row_shows_cursor() {
    let profile = Profile {
        provider: Some(Provider { base_url: "u".to_string(), env_key: "K".to_string() }),
        ..Default::default()
    };
    let input = InputState::Editing { buffer: "abc".to_string(), cursor: 1 };
    let items = build_field_items(&profile, 8, &input, false);
    match &items[11] {
        FieldRow::Entry { marker, value, style, .. } => {
            assert_eq!(*marker, "  ");
            assert_eq!(value, "a█bc");
            assert_eq!(*style, ValueStyle::Typed);
        }
        _ => panic!("expected an entry"),
    }
    match &items[10] {
        FieldRow::Entry { value, style, .. } => {
            assert_eq!(value, "u");
            assert_eq!(*style, ValueStyle::Configured);
        }
        _ => panic!("expected an entry"),
    }
}

#[test]
fn bullet_marks_focused_current_row() {
    assert_eq!(bullet(true, true), " ▸");
    assert_eq!(bullet(true, false), "  ");
    assert_eq!(bullet(false, true), "  ");
}

#[test]
fn char_to_byte_counts_utf8() {
    assert_eq!(char_to_byte("héllo", 0), 0);
    assert_eq!(char_to_byte("héllo", 2), 3);
    assert_eq!(char_to_byte("héllo", 5), 6);
    assert_eq!(char_to_byte("héllo", 9), 6);
}

#[test]
fn edit_keys_insert_delete_and_move() {
    let mut buffer = String::from("hé");
    let mut cursor = 2usize;
    handle_edit_key(&mut buffer, &mut cursor, Key::Char('x'));
    assert_eq!((buffer.as_str(), cursor), ("héx", 3));
    handle_edit_key(&mut buffer, &mut cursor, Key::Left);
    handle_edit_key(&mut buffer, &mut cursor, Key::Left);
    assert_eq!(cursor, 1);
    handle_edit_key(&mut buffer, &mut cursor, Key::Backspace);
    assert_eq!((buffer.as_str(), cursor), ("éx", 0));
    handle_edit_key(&mut buffer, &mut cursor, Key::Backspace);
    assert_eq!((buffer.as_str(), cursor), ("éx", 0));
    handle_edit_key(&mut buffer, &mut cursor, Key::Left);
    assert_eq!(cursor, 0);
    for _ in 0..5 {
        handle_edit_key(&mut buffer, &mut cursor, Key::Right);
    }
    assert_eq!(cursor, 2);
    handle_edit_key(&mut buffer, &mut cursor, Key::Up);
    assert_eq!((buffer.as_str(), cursor), ("éx", 2));
}

#[test]
fn type_then_backspace_restores() {
    let mut buffer = String::from("añb");
    let mut cursor = 2usize;
    handle_edit_key(&mut buffer, &mut cursor, Key::Char('€'));
    assert_eq!(buffer, "añ€b");
    handle_edit_key(&mut buffer, &mut cursor, Key::Backspace);
    assert_eq!((buffer.as_str(), cursor), ("añb", 2));
}

#[test]
fn cursor_mark_goes_in_at_cursor() {
    assert_eq!(with_cursor_mark("abc", 0), "█abc");
    assert_eq!(with_cursor_mark("héllo", 2), "hé█llo");
    assert_eq!(with_cursor_mark("abc", 7), "abc█");
}

fn config_with(names: &[&str]) -> Config {
    let mut c = Config::new();
    for n in names {
        c.profiles.insert(n.to_string(), Profile::default());
    }
    c
}

fn press(key: Key) -> KeyPress {
    KeyPress { key, ctrl: false }
}

fn exit_name(o: Outcome) -> Option<Option<String>> {
    match o {
        Outcome::Exit(n) => Some(n),
        _ => None,
    }
}

#[test]
fn new_app_lists_sorted_names_and_selects_first() {
    let app = App::new(config_with(&["zed", "alpha", "mid"]));
    assert_eq!(app.names(), &vec!["alpha".to_string(), "mid".to_string(), "zed".to_string()]);
    assert_eq!(app.selected_name(), Some("alpha"));
    assert_eq!(app.focus(), Focus::Left);
    assert_eq!(app.field_idx(), 0);
    let empty = App::new(Config::new());
    assert_eq!(empty.selected_name(), None);
    assert_eq!(empty.selected_index(), 0);
}

#[test]
fn profile_selection_wraps_both_ways() {
    let mut app = App::new(config_with(&["a", "b", "c"]));
    app.handle_key(press(Key::Up));
    assert_eq!(app.selected_name(), Some("c"));
    app.handle_key(press(Key::Char('j')));
    assert_eq!(app.selected_name(), Some("a"));
    app.handle_key(press(Key::Down));
    app.handle_key(press(Key::Char('k')));
    assert_eq!(app.selected_name(), Some("a"));
}

#[test]
fn enter_launches_selected_and_quit_keys_exit() {
    let mut app = App::new(config_with(&["a", "b"]));
    app.handle_key(press(Key::Down));
    assert_eq!(exit_name(app.handle_key(press(Key::Enter))), Some(Some("b".to_string())));
    assert_eq!(exit_name(app.handle_key(press(Key::Esc))), Some(None));
    assert_eq!(exit_name(app.handle_key(press(Key::Char('q')))), Some(None));
    assert_eq!(exit_name(app.handle_key(KeyPress { key: Key::Char('c'), ctrl: true })), Some(None));
    assert!(matches!(app.handle_key(press(Key::Char('c'))), Outcome::Continue));
    let mut empty = App::new(Config::new());
    assert_eq!(exit_name(empty.handle_key(press(Key::Enter))), Some(None));
}

#[test]
fn creating_a_profile_selects_it_and_saves() {
    let mut app = App::new(config_with(&["b", "d"]));
    app.handle_key(press(Key::Char('n')));
    assert!(matches!(app.input(), InputState::Creating { .. }));
    assert_eq!(app.footer_keys(), vec!["Enter", "Esc"]);
    for c in "  c ".chars() {
        app.handle_key(press(Key::Char(c)));
    }
    assert!(matches!(app.handle_key(press(Key::Enter)), Outcome::Save));
    assert!(matches!(app.input(), InputState::Idle));
    assert_eq!(app.names(), &vec!["b".to_string(), "c".to_string(), "d".to_string()]);
    assert_eq!(app.selected_name(), Some("c"));
}

#[test]
fn creating_a_blank_or_existing_name_changes_nothing() {
    let mut app = App::new(config_with(&["b"]));
    app.handle_key(press(Key::Char('n')));
    app.handle_key(press(Key::Char(' ')));
    assert!(matches!(app.handle_key(press(Key::Enter)), Outcome::Continue));
    app.handle_key(press(Key::Char('n')));
    app.handle_key(press(Key::Char('b')));
    assert!(matches!(app.handle_key(press(Key::Enter)), Outcome::Continue));
    assert_eq!(app.names(), &vec!["b".to_string()]);
    app.handle_key(press(Key::Char('n')));
    app.handle_key(press(Key::Char('x')));
    app.handle_key(press(Key::Esc));
    assert!(matches!(app.input(), InputState::Idle));
    assert_eq!(app.names().len(), 1);
}

#[test]
fn deleting_keeps_selection_in_range() {
    let mut app = App::new(config_with(&["a", "b", "c"]));
    app.handle_key(press(Key::Up));
    assert_eq!(app.selected_name(), Some("c"));
    assert!(matches!(app.handle_key(press(Key::Char('d'))), Outcome::Save));
    assert_eq!(app.names(), &vec!["a".to_string(), "b".to_string()]);
    assert_eq!(app.selected_name(), Some("b"));
    app.handle_key(press(Key::Char('d')));
    app.handle_key(press(Key::Char('d')));
    assert!(app.names().is_empty());
    assert_eq!(app.selected_name(), None);
    assert!(matches!(app.handle_key(press(Key::Char('d'))), Outcome::Continue));
    assert!(app.config().profiles.is_empty());
}

#[test]
fn editing_a_field_writes_the_profile() {
    let mut app = App::new(config_with(&["work"]));
    app.handle_key(press(Key::Char('l')));
    assert_eq!(app.focus(), Focus::Right);
    assert_eq!(app.footer_keys(), vec!["↑↓/jk", "←/h", "Enter", "q/ESC"]);
    app.handle_key(press(Key::Down));
    app.handle_key(press(Key::Down));
    assert_eq!(app.field_idx(), 2);
    assert_eq!(app.field_list_idx(), 4);
    app.handle_key(press(Key::Enter));
    for c in "fable-x".chars() {
        app.handle_key(press(Key::Char(c)));
    }
    assert!(matches!(app.handle_key(press(Key::Enter)), Outcome::Save));
    let profile = app.selected_profile().unwrap();
    assert_eq!(
        profile.models.as_ref().unwrap().default_fable.as_deref(),
        Some("fable-x")
    );
    // editing starts from the current value, cursor at its end
    app.handle_key(press(Key::Enter));
    match app.input() {
        InputState::Editing { buffer, cursor } => {
            assert_eq!(buffer, "fable-x");
            assert_eq!(*cursor, 7);
        }
        _ => panic!("expected editing"),
    }
    app.handle_key(press(Key::Esc));
    app.handle_key(press(Key::Up));
    app.handle_key(press(Key::Up));
    app.handle_key(press(Key::Up));
    assert_eq!(app.field_idx(), PROFILE_FIELD_COUNT - 1);
    app.handle_key(press(Key::Char('h')));
    assert_eq!(app.focus(), Focus::Left);
    let config = app.into_config();
    assert!(config.profiles.get("work").unwrap().models.is_some());
}

#[test]
fn profile_rows_show_descriptions_when_set() {
    let mut c = config_with(&["a", "b"]);
    c.profiles.insert(
        "b".to_string(),
        Profile { description: Some("desc".to_string()), ..Default::default() },
    );
    c.profiles.insert(
        "a".to_string(),
        Profile { description: Some(String::new()), ..Default::default() },
    );
    let app = App::new(c);
    let rows = app.profile_rows();
    assert_eq!(rows.len(), 2);
    assert_eq!(rows[0].marker, " ▸");
    assert_eq!(rows[0].name, "a");
    assert_eq!(rows[0].description, None);
    assert_eq!(rows[1].marker, "  ");
    assert_eq!(rows[1].description.as_deref(), Some("desc"));
    assert_eq!(app.footer_keys(), vec!["↑↓/jk", "n", "d", "→/l", "Enter", "q/ESC"]);
}

#[test]
fn field_moves_wrap_and_undo() {
    let mut app = App::new(config_with(&["p"]));
    app.handle_key(press(Key::Right));
    app.handle_key(press(Key::Up));
    assert_eq!(app.field_idx(), PROFILE_FIELD_COUNT - 1);
    app.handle_key(press(Key::Down));
    assert_eq!(app.field_idx(), 0);
    app.handle_key(press(Key::Char('j')));
    app.handle_key(press(Key::Char('k')));
    assert_eq!(app.field_idx(), 0);
}

#[test]
fn created_name_is_trimmed_of_unicode_white_space() {
    let mut app = App::new(Config::new());
    app.handle_key(press(Key::Char('n')));
    for c in ['\u{3000}', ' ', 'q', '\u{2009}', '\t'] {
        app.handle_key(press(Key::Char(c)));
    }
    assert!(matches!(app.handle_key(press(Key::Enter)), Outcome::Save));
    assert_eq!(app.names(), &vec!["q".to_string()]);
}

#[test]
fn right_stops_at_the_end_of_the_text() {
    let mut buffer = String::from("ab");
    let mut cursor = 2usize;
    handle_edit_key(&mut buffer, &mut cursor, Key::Right);
    assert_eq!(cursor, 2);
    let mut past = 5usize;
    handle_edit_key(&mut buffer, &mut past, Key::Right);
    assert_eq!(past, 2);
    let mut far = 9usize;
    handle_edit_key(&mut buffer, &mut far, Key::Char('c'));
    assert_eq!((buffer.as_str(), far), ("abc", 10));
}
