use lazypkg::app::{App, AppEvent, DeleteError, Panel};
use lazypkg::keys::{Key, KeyAction};
use lazypkg::managers::{ManagerKind, Tool};
use lazypkg::view::{loading_text, manager_label, spinner_frame};

fn tool(name: &str, manager: &str) -> Tool {
    Tool { name: name.to_string(), version: Some("1".to_string()), manager: manager.to_string() }
}

/// A browser with cargo (bat, fd, rg) and npm (eslint) loaded.
fn loaded() -> App {
    let mut app = App::new();
    let ms = app.load_tools(&vec![true, false, false, false, true, false]);
    assert_eq!(ms, vec![ManagerKind::Cargo, ManagerKind::Npm]);
    assert!(app.loading);
    let reqs = app.handle_events(vec![
        AppEvent::ManagerLoaded(
            ManagerKind::Cargo,
            Ok(vec![tool("bat", "cargo"), tool("fd", "cargo"), tool("rg", "cargo")]),
        ),
        AppEvent::ManagerLoaded(ManagerKind::Npm, Ok(vec![tool("eslint", "npm")])),
    ]);
    // all loaded: the selected tool's cheatsheet is asked for
    assert_eq!(reqs, vec!["bat".to_string()]);
    app
}

fn names(app: &App) -> Vec<String> {
    app.current_tools().into_iter().map(|t| t.name).collect()
}

#[test]
fn new_app_is_empty() {
    let app = App::new();
    assert!(app.managers.is_empty());
    assert_eq!(app.active_panel, Panel::Managers);
    assert!(app.current_manager().is_none());
    assert!(app.current_tools().is_empty());
    assert!(app.selected_tool_item().is_none());
    assert!(!app.loading);
}

#[test]
fn loading_nothing_stops_at_once() {
    let mut app = App::new();
    let ms = app.load_tools(&vec![]);
    assert!(ms.is_empty());
    assert!(!app.loading);
    assert_eq!(app.managers_loading, 0);
}

#[test]
fn loading_counts_down() {
    let mut app = App::new();
    app.load_tools(&vec![true, true]);
    assert_eq!(app.managers_loading, 2);
    let r = app.handle_event(AppEvent::ManagerLoaded(ManagerKind::Dnf, Err("boom".to_string())));
    assert_eq!(r, None);
    assert_eq!(app.managers_loading, 1);
    assert!(app.loading);
    assert_eq!(app.status_message, Some("dnf: boom".to_string()));
    let r = app.handle_event(AppEvent::ManagerLoaded(ManagerKind::Cargo, Ok(vec![])));
    assert_eq!(r, None);
    assert!(!app.loading);
    assert_eq!(app.managers_loading, 0);
}

#[test]
fn cheatsheet_for_selected_tool_is_shown() {
    let mut app = loaded();
    assert!(app.loading);
    app.handle_event(AppEvent::CheatsheetLoaded("fd".to_string(), "not this".to_string()));
    assert_eq!(app.cheatsheet, None);
    app.handle_event(AppEvent::CheatsheetLoaded("bat".to_string(), "cat clone".to_string()));
    assert_eq!(app.cheatsheet, Some("cat clone".to_string()));
    assert!(!app.loading);
}

#[test]
fn tool_navigation_wraps() {
    let mut app = loaded();
    app.active_panel = Panel::Tools;
    app.cheatsheet = Some("x".to_string());
    assert_eq!(app.next_tool(), Some("fd".to_string()));
    assert_eq!(app.selected_tool, 1);
    assert_eq!(app.cheatsheet, None);
    app.next_tool();
    assert_eq!(app.next_tool(), Some("bat".to_string()));
    assert_eq!(app.selected_tool, 0);
    assert_eq!(app.prev_tool(), Some("rg".to_string()));
    assert_eq!(app.selected_tool, 2);
}

#[test]
fn tool_navigation_outside_tools_panel_asks_nothing() {
    let mut app = loaded();
    app.active_panel = Panel::Managers;
    assert_eq!(app.next_tool(), None);
    assert_eq!(app.selected_tool, 1);
}

#[test]
fn manager_navigation_wraps_and_resets_tool() {
    let mut app = loaded();
    app.selected_tool = 2;
    app.next_manager();
    assert_eq!(app.selected_manager, 1);
    assert_eq!(app.selected_tool, 0);
    assert_eq!(names(&app), vec!["eslint".to_string()]);
    app.next_manager();
    assert_eq!(app.selected_manager, 0);
    app.prev_manager();
    assert_eq!(app.selected_manager, 1);
    app.prev_manager();
    assert_eq!(app.selected_manager, 0);
}

#[test]
fn navigation_without_entries_does_nothing() {
    let mut app = App::new();
    app.next_manager();
    app.prev_manager();
    assert_eq!(app.next_tool(), None);
    assert_eq!(app.prev_tool(), None);
    assert_eq!(app.selected_manager, 0);
    assert_eq!(app.selected_tool, 0);
}

#[test]
fn search_filters_case_insensitively() {
    let mut app = loaded();
    app.search_query = "R".to_string();
    assert_eq!(names(&app), vec!["rg".to_string()]);
    app.search_query = "".to_string();
    assert_eq!(names(&app).len(), 3);
    app.search_query = "zzz".to_string();
    assert!(names(&app).is_empty());
    assert!(app.selected_tool_item().is_none());
}

#[test]
fn keys_edit_the_search() {
    let mut app = loaded();
    assert!(matches!(app.handle_key(Key::Char('/'), false), KeyAction::Continue));
    assert!(app.search_active);
    app.selected_tool = 1;
    app.handle_key(Key::Char('q'), false);
    app.handle_key(Key::Char('f'), false);
    assert_eq!(app.search_query, "qf");
    assert_eq!(app.selected_tool, 0);
    app.handle_key(Key::Backspace, false);
    assert_eq!(app.search_query, "q");
    app.handle_key(Key::Esc, false);
    assert_eq!(app.search_query, "");
    assert!(!app.search_active);
    assert!(matches!(app.handle_key(Key::Char('q'), false), KeyAction::Quit));
}

#[test]
fn ctrl_c_quits() {
    let mut app = App::new();
    assert!(matches!(app.handle_key(Key::Char('c'), true), KeyAction::Quit));
    assert!(matches!(app.handle_key(Key::Char('c'), false), KeyAction::Continue));
}

#[test]
fn panels_move_with_keys() {
    let mut app = loaded();
    app.cheatsheet = None;
    app.loading = false;
    app.handle_key(Key::Char('l'), false);
    assert_eq!(app.active_panel, Panel::Tools);
    match app.handle_key(Key::Tab, false) {
        KeyAction::LoadCheatsheet(n) => assert_eq!(n, "bat"),
        _ => panic!("expected a cheatsheet request"),
    }
    assert_eq!(app.active_panel, Panel::Cheatsheet);
    assert!(app.loading);
    app.cheatsheet = Some("text".to_string());
    app.handle_key(Key::Left, false);
    assert_eq!(app.active_panel, Panel::Tools);
    assert_eq!(app.cheatsheet, None);
    app.handle_key(Key::Char('h'), false);
    assert_eq!(app.active_panel, Panel::Managers);
    app.handle_key(Key::Down, false);
    assert_eq!(app.selected_manager, 1);
    app.handle_key(Key::Char('k'), false);
    assert_eq!(app.selected_manager, 0);
}

#[test]
fn enter_opens_cheatsheet_only_from_tools() {
    let mut app = loaded();
    app.cheatsheet = None;
    assert!(matches!(app.handle_key(Key::Enter, false), KeyAction::Continue));
    assert_eq!(app.active_panel, Panel::Managers);
    app.active_panel = Panel::Tools;
    assert!(matches!(app.handle_key(Key::Enter, false), KeyAction::LoadCheatsheet(_)));
    assert_eq!(app.active_panel, Panel::Cheatsheet);
}

#[test]
fn delete_confirmation_flow() {
    let mut app = loaded();
    app.handle_key(Key::Char('d'), false);
    assert!(!app.show_confirm_delete); // not on the tools panel
    app.active_panel = Panel::Tools;
    app.handle_key(Key::Char('d'), false);
    assert!(app.show_confirm_delete);
    assert!(matches!(app.handle_key(Key::Char('r'), false), KeyAction::Continue));
    app.handle_key(Key::Char('n'), false);
    assert!(!app.show_confirm_delete);
    app.handle_key(Key::Char('d'), false);
    assert!(matches!(app.handle_key(Key::Char('y'), false), KeyAction::DeleteSelected));
    assert!(!app.show_confirm_delete);
    assert!(matches!(app.handle_key(Key::Char('y'), false), KeyAction::Continue));
    assert!(matches!(app.handle_key(Key::Char('r'), false), KeyAction::Refresh));
    assert!(matches!(app.handle_key(Key::Char('e'), false), KeyAction::Export));
}

#[test]
fn help_and_import_keys() {
    let mut app = App::new();
    app.handle_key(Key::Char('?'), false);
    assert!(app.show_help);
    app.handle_key(Key::Char('?'), false);
    assert!(!app.show_help);
    app.handle_key(Key::Char('?'), false);
    assert!(app.show_help);
    app.handle_key(Key::Esc, false);
    assert!(!app.show_help);
    app.handle_key(Key::Char('i'), false);
    assert_eq!(
        app.status_message,
        Some("Use 'lazypkg import' from command line to import".to_string())
    );
}

#[test]
fn delete_removes_tool_and_clamps() {
    let mut app = loaded();
    app.selected_tool = 2;
    let mut called = Vec::new();
    let r = app.delete_selected_tool(|k, t| {
        called.push((k, t.name.clone()));
        Ok(())
    });
    assert!(r.is_ok());
    assert_eq!(called, vec![(ManagerKind::Cargo, "rg".to_string())]);
    assert_eq!(names(&app), vec!["bat".to_string(), "fd".to_string()]);
    assert_eq!(app.selected_tool, 1);
    assert_eq!(app.status_message, Some("Deleted 'rg'".to_string()));
}

#[test]
fn failed_uninstall_changes_nothing() {
    let mut app = loaded();
    let r = app.delete_selected_tool(|_, _| Err("permission denied".to_string()));
    match r {
        Err(DeleteError::Uninstall(e)) => assert_eq!(e, "permission denied"),
        _ => panic!("expected an uninstall error"),
    }
    assert_eq!(names(&app).len(), 3);
    app.delete_failed("permission denied");
    assert_eq!(app.status_message, Some("Error: permission denied".to_string()));
}

#[test]
fn delete_with_unknown_manager_is_an_error() {
    let mut app = App::new();
    app.load_tools(&vec![true]);
    app.handle_event(AppEvent::ManagerLoaded(ManagerKind::Cargo, Ok(vec![tool("x", "brew")])));
    let r = app.delete_selected_tool(|_, _| Ok(()));
    match r {
        Err(e) => assert_eq!(e.message(), "Manager not found: brew"),
        Ok(()) => panic!("expected an error"),
    }
}

#[test]
fn delete_with_manager_not_loaded_is_tool_not_found() {
    let mut app = App::new();
    app.load_tools(&vec![true, false, false, false, true]);
    app.handle_event(AppEvent::ManagerLoaded(ManagerKind::Cargo, Ok(vec![tool("x", "npm")])));
    let r = app.delete_selected_tool(|_, _| Ok(()));
    match r {
        Err(e) => assert_eq!(e.message(), "Tool not found: x"),
        Ok(()) => panic!("expected an error"),
    }
}

#[test]
fn delete_without_selection_is_ok() {
    let mut app = App::new();
    let r = app.delete_selected_tool(|_, _| panic!("must not be called"));
    assert!(r.is_ok());
}

#[test]
fn refresh_resets_search_and_reloads() {
    let mut app = loaded();
    app.search_query = "b".to_string();
    app.search_active = true;
    app.selected_tool = 1;
    let ms = app.refresh(&vec![false, true]);
    assert_eq!(ms, vec![ManagerKind::Dnf]);
    assert_eq!(app.search_query, "");
    assert!(!app.search_active);
    assert_eq!(app.selected_tool, 0);
    assert!(app.current_tools().is_empty());
    assert!(app.loading);
}

#[test]
fn status_message_lasts_one_frame() {
    let mut app = App::new();
    let msg = app.export_snapshot("/tmp/s.toml");
    assert_eq!(msg, "Exported to /tmp/s.toml");
    app.maybe_clear_status();
    assert_eq!(app.status_message, Some("Exported to /tmp/s.toml".to_string()));
    assert!(app.status_shown);
    app.maybe_clear_status();
    assert_eq!(app.status_message, None);
    assert!(!app.status_shown);
    app.maybe_clear_status();
    assert_eq!(app.status_message, None);
    app.export_failed("disk full");
    assert_eq!(app.status_message, Some("Export failed: disk full".to_string()));
}

#[test]
fn spinner_ticks_only_while_loading() {
    let mut app = App::new();
    app.tick_spinner();
    assert_eq!(app.spinner_tick, 0);
    app.loading = true;
    app.tick_spinner();
    assert_eq!(app.spinner_tick, 1);
    app.spinner_tick = usize::MAX;
    app.tick_spinner();
    assert_eq!(app.spinner_tick, 0);
}

#[test]
fn view_texts() {
    let mut app = loaded();
    assert_eq!(app.tools_title(), "Tools [3]");
    assert_eq!(app.cheatsheet_title(), "Cheatsheet: bat");
    assert_eq!(app.confirm_text(), "Delete bat (cargo)?\n\n[y] Yes  [n] No");
    assert_eq!(
        app.status_text(),
        "j/k: navigate  h/l: switch panel  d: delete  /: search  e: export  q: quit"
    );
    app.search_active = true;
    app.search_query = "zz".to_string();
    assert_eq!(app.tools_title(), "Tools [/zz]");
    assert_eq!(app.cheatsheet_title(), "Cheatsheet");
    assert_eq!(app.confirm_text(), "Delete this tool?\n\n[y] Yes  [n] No");
    assert_eq!(manager_label(ManagerKind::Cargo), "🦀 cargo");
    assert_eq!(spinner_frame(0), "⠋");
    assert_eq!(spinner_frame(13), "⠸");
    assert_eq!(loading_text(9), "⠏ Loading...");
}
