use shiloh::script_editor::{
    default_new_script, shiloh_script_catalog, CompleterKeys, ScriptEditorState, SymbolKind,
};

#[test]
fn catalog_covers_host_api() {
    let names: Vec<_> = shiloh_script_catalog().iter().map(|s| s.name).collect();
    for need in [
        "on_ready",
        "on_update",
        "log",
        "spawn_named",
        "set_translation",
        "emit_signal",
        "play_audio",
    ] {
        assert!(names.contains(&need), "missing {need}");
    }
}

#[test]
fn completion_replaces_prefix() {
    let mut ed = ScriptEditorState::default();
    ed.buffer = "lo".to_string();
    ed.cursor_ccursor = 2;
    ed.recompute_completions();
    assert!(ed.completer_open);
    // Prefer `log`
    if let Some(i) = ed
        .completer_filtered
        .iter()
        .position(|&ci| shiloh_script_catalog()[ci].name == "log")
    {
        ed.completer_index = i;
    }
    ed.apply_completion();
    assert!(ed.buffer.starts_with("log"));
}

#[test]
fn completion_of_log_replaces_word_and_keeps_rest() {
    let mut ed = ScriptEditorState::default();
    ed.buffer = "x = lo; y".to_string();
    ed.cursor_ccursor = 6;
    ed.recompute_completions();
    assert!(ed.completer_open);
    let i = ed
        .completer_filtered
        .iter()
        .position(|&ci| shiloh_script_catalog()[ci].name == "log")
        .expect("log offered");
    ed.completer_index = i;
    let insert = shiloh_script_catalog()[ed.completer_filtered[i]].insert;
    ed.apply_completion();
    assert_eq!(ed.buffer, format!("x = {insert}; y"));
    assert!(!ed.completer_open);
}

#[test]
fn word_before_cursor_stops_at_non_identifier() {
    let mut ed = ScriptEditorState::default();
    ed.buffer = "let spawn_na".to_string();
    ed.cursor_ccursor = 12;
    assert_eq!(ed.word_before_cursor(), (4, "spawn_na".to_string()));
    ed.cursor_ccursor = 100;
    assert_eq!(ed.word_before_cursor(), (4, "spawn_na".to_string()));
    ed.cursor_ccursor = 3;
    assert_eq!(ed.word_before_cursor(), (0, "let".to_string()));
}

#[test]
fn no_match_closes_completer() {
    let mut ed = ScriptEditorState::default();
    ed.buffer = "zzqq".to_string();
    ed.cursor_ccursor = 4;
    ed.recompute_completions();
    assert!(!ed.completer_open);
    assert!(ed.completer_filtered.is_empty());
    assert_eq!(ed.completer_query, "zzqq");
}

#[test]
fn completion_is_case_insensitive() {
    let mut ed = ScriptEditorState::default();
    ed.buffer = "SPAWN".to_string();
    ed.cursor_ccursor = 5;
    ed.recompute_completions();
    assert!(ed.completer_open);
    assert!(ed
        .completer_filtered
        .iter()
        .all(|&ci| shiloh_script_catalog()[ci].name.to_ascii_lowercase().contains("spawn")));
    assert!(ed
        .completer_filtered
        .iter()
        .any(|&ci| shiloh_script_catalog()[ci].name == "spawn_named"));
}

#[test]
fn new_script_resets_buffer() {
    let mut ed = ScriptEditorState::default();
    ed.buffer = "junk".to_string();
    ed.new_script();
    assert_eq!(ed.buffer, default_new_script());
    assert!(ed.dirty);
    assert!(ed.open_path.is_none());
    assert_eq!(ed.status, "New untitled script");
    assert!(default_new_script().contains("fn on_ready()"));
}

#[test]
fn symbol_kind_labels() {
    assert_eq!(SymbolKind::Keyword.label(), "keyword");
    assert_eq!(SymbolKind::Lifecycle.label(), "lifecycle");
    assert_eq!(SymbolKind::Api.label(), "api");
    assert_eq!(SymbolKind::Snippet.label(), "snippet");
}

#[test]
fn file_list_is_sorted() {
    let mut ed = ScriptEditorState::default();
    ed.set_file_list(vec![
        "player.rhai".to_string(),
        "ai.rhai".to_string(),
        "Boss.rhai".to_string(),
        "ai.rhai".to_string(),
    ]);
    assert_eq!(
        ed.file_list,
        vec!["Boss.rhai".to_string(), "ai.rhai".to_string(), "ai.rhai".to_string(), "player.rhai".to_string()]
    );
}

#[test]
fn open_and_save_update_state() {
    let mut ed = ScriptEditorState::default();
    assert_eq!(ed.save_file_name(), Some("untitled.rhai".to_string()));
    ed.file_opened(std::path::PathBuf::from("scripts/door.rhai"), "door.rhai", "fn on_ready() {}".to_string());
    assert_eq!(ed.buffer, "fn on_ready() {}");
    assert_eq!(ed.open_rel, "Scripts/door.rhai");
    assert_eq!(ed.status, "Opened door.rhai");
    assert_eq!(ed.selected_file.as_deref(), Some("door.rhai"));
    assert!(!ed.dirty);
    assert_eq!(ed.save_file_name(), None);
    ed.dirty = true;
    ed.file_saved(std::path::PathBuf::from("scripts/door.rhai"), None, "scripts/door.rhai");
    assert!(!ed.dirty);
    assert_eq!(ed.status, "Saved scripts/door.rhai");
    assert_eq!(ed.open_rel, "Scripts/door.rhai");
}

#[test]
fn save_of_new_script_names_selected_file() {
    let mut ed = ScriptEditorState::default();
    ed.selected_file = Some("enemy.rhai".to_string());
    assert_eq!(ed.save_file_name(), Some("enemy.rhai".to_string()));
    ed.file_saved(std::path::PathBuf::from("s/enemy.rhai"), Some("enemy.rhai"), "s/enemy.rhai");
    assert_eq!(ed.open_path, Some(std::path::PathBuf::from("s/enemy.rhai")));
    assert_eq!(ed.open_rel, "Scripts/enemy.rhai");
}

fn keys(escape: bool, down: bool, up: bool, accept: bool) -> CompleterKeys {
    CompleterKeys { escape, down, up, accept }
}

#[test]
fn completer_keys_move_wrap_close_and_accept() {
    let mut ed = ScriptEditorState::default();
    ed.buffer = "o".to_string();
    ed.cursor_ccursor = 1;
    ed.recompute_completions();
    assert!(ed.completer_open);
    let n = ed.completer_filtered.len();
    assert!(n >= 2);
    ed.completer_index = 0;
    ed.completer_keys(keys(false, false, true, false));
    assert_eq!(ed.completer_index, n - 1);
    ed.completer_keys(keys(false, true, false, false));
    assert_eq!(ed.completer_index, 0);
    ed.completer_keys(keys(false, true, false, false));
    assert_eq!(ed.completer_index, 1);
    let chosen = shiloh_script_catalog()[ed.completer_filtered[1]];
    ed.completer_keys(keys(false, false, false, true));
    assert!(!ed.completer_open);
    assert!(ed.buffer.starts_with(chosen.insert));
    assert!(ed.dirty);
    // With the popup closed, keys do nothing.
    let before = ed.buffer.clone();
    ed.completer_keys(keys(false, true, false, true));
    assert_eq!(ed.buffer, before);
    assert_eq!(ed.completer_index, 1);
}

#[test]
fn escape_closes_completer() {
    let mut ed = ScriptEditorState::default();
    ed.buffer = "lo".to_string();
    ed.cursor_ccursor = 2;
    ed.recompute_completions();
    ed.completer_keys(keys(true, false, false, false));
    assert!(!ed.completer_open);
    assert_eq!(ed.buffer, "lo");
}
