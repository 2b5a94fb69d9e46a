use lope::app::{discover_entries, App, Event, Walked, Widget};
use lope::input::{Action, InputHandler, KeyCode, KeyEvent};
use lope::widgets::file_browser::{EntryType, TreeEntry};
use lope::widgets::options::{self, AppOption};
use lope::widgets::prompt_editor;

fn ctrl(c: char) -> KeyEvent {
    KeyEvent::with_control(KeyCode::Char(c))
}

fn key(c: char) -> KeyEvent {
    KeyEvent::plain(KeyCode::Char(c))
}

fn app() -> App {
    App::new(vec![
        TreeEntry::new("d".to_string(), 0, true),
        TreeEntry::new("d/a".to_string(), 1, false),
    ])
}

fn with_focus(focus: Widget) -> App {
    let mut app = app();
    app.selected_widget = focus;
    app
}

#[test]
fn app_starts_on_the_prompt_editor() {
    let app = app();
    assert_eq!(app.selected_widget, Widget::PromptEditor);
    assert_eq!(app.prompt_editor_state.get_display_text(), "");
    assert_eq!(app.options_state.selected_option(), AppOption::Send);
    assert_eq!(app.file_browser_state.list_state.selected(), Some(0));
    assert_eq!(app.file_browser_state.file_list.len(), 2);
}

#[test]
fn focus_walks_round_the_widgets() {
    let mut app = app();
    assert_eq!(app.selected_widget, Widget::PromptEditor);
    assert!(app.process_key(ctrl('h')).is_none());
    assert_eq!(app.selected_widget, Widget::FileBrowser);
    assert!(app.process_key(ctrl('l')).is_none());
    assert_eq!(app.selected_widget, Widget::PromptEditor);
    assert!(app.process_key(ctrl('j')).is_none());
    assert_eq!(app.selected_widget, Widget::Options);
    assert!(app.process_key(ctrl('k')).is_none());
    assert_eq!(app.selected_widget, Widget::PromptEditor);
}

#[test]
fn focus_table_from_every_state() {
    let table = [
        (Widget::FileBrowser, 'h', Widget::FileBrowser),
        (Widget::PromptEditor, 'h', Widget::FileBrowser),
        (Widget::Options, 'h', Widget::Options),
        (Widget::FileBrowser, 'l', Widget::PromptEditor),
        (Widget::PromptEditor, 'l', Widget::PromptEditor),
        (Widget::Options, 'l', Widget::Options),
        (Widget::FileBrowser, 'k', Widget::FileBrowser),
        (Widget::PromptEditor, 'k', Widget::PromptEditor),
        (Widget::Options, 'k', Widget::PromptEditor),
        (Widget::FileBrowser, 'j', Widget::Options),
        (Widget::PromptEditor, 'j', Widget::Options),
        (Widget::Options, 'j', Widget::Options),
        (Widget::FileBrowser, 'x', Widget::FileBrowser),
        (Widget::PromptEditor, 'x', Widget::PromptEditor),
        (Widget::Options, 'x', Widget::Options),
    ];
    for (from, c, to) in table {
        let mut app = with_focus(from);
        assert!(app.process_key(ctrl(c)).is_none());
        assert_eq!(app.selected_widget, to);
    }
}

#[test]
fn control_keys_reach_no_widget() {
    let mut app = with_focus(Widget::PromptEditor);
    app.process_key(ctrl('x'));
    app.process_key(KeyEvent::with_control(KeyCode::Enter));
    app.process_key(KeyEvent::with_control(KeyCode::Backspace));
    assert_eq!(app.prompt_editor_state.get_display_text(), "");
    assert_eq!(app.selected_widget, Widget::PromptEditor);
    let mut app = with_focus(Widget::Options);
    assert!(app.process_key(KeyEvent::with_control(KeyCode::Enter)).is_none());
}

#[test]
fn control_c_quits_from_every_widget() {
    for focus in [Widget::FileBrowser, Widget::PromptEditor, Widget::Options] {
        let mut app = with_focus(focus);
        assert_eq!(app.process_key(ctrl('c')), Some(Action::Quit));
        assert_eq!(app.selected_widget, focus);
    }
}

#[test]
fn plain_keys_go_to_the_focused_widget() {
    let mut app = app();
    assert!(app.process_key(key('h')).is_none());
    assert!(app.process_key(key('j')).is_none());
    assert_eq!(app.prompt_editor_state.get_display_text(), "hj");
    assert_eq!(app.file_browser_state.list_state.selected(), Some(0));
    assert_eq!(app.options_state.selected_option(), AppOption::Send);

    app.process_key(ctrl('h'));
    assert!(app.process_key(key('j')).is_none());
    assert!(app.process_key(KeyEvent::plain(KeyCode::Enter)).is_none());
    assert_eq!(app.file_browser_state.list_state.selected(), Some(1));
    assert!(!app.file_browser_state.file_list[1].excluded);
    assert_eq!(app.prompt_editor_state.get_display_text(), "hj");

    app.process_key(ctrl('j'));
    assert!(app.process_key(key('l')).is_none());
    assert_eq!(app.options_state.selected_option(), AppOption::Quit);
    assert_eq!(app.file_browser_state.list_state.selected(), Some(1));
    assert_eq!(app.process_key(KeyEvent::plain(KeyCode::Enter)), Some(Action::Quit));
    assert!(app.process_key(key('h')).is_none());
    assert_eq!(app.process_key(KeyEvent::plain(KeyCode::Enter)), Some(Action::Send));
}

#[test]
fn tick_changes_nothing() {
    for focus in [Widget::FileBrowser, Widget::PromptEditor, Widget::Options] {
        let mut app = with_focus(focus);
        app.process_tick();
        assert_eq!(app.selected_widget, focus);
        assert_eq!(app.prompt_editor_state.get_display_text(), "");
        assert_eq!(app.options_state.selected_option(), AppOption::Send);
        assert_eq!(app.file_browser_state.list_state.selected(), Some(0));
    }
}

#[test]
fn options_bar_selects_and_commits() {
    let mut bar = options::State::new();
    assert_eq!(bar.selected_option(), AppOption::Send);
    assert_eq!(bar.process_key(KeyEvent::plain(KeyCode::Enter)), Some(Action::Send));
    assert!(bar.process_key(key('l')).is_none());
    assert_eq!(bar.selected_option(), AppOption::Quit);
    assert!(bar.process_key(key('l')).is_none());
    assert_eq!(bar.selected_option(), AppOption::Quit);
    assert_eq!(bar.process_key(KeyEvent::plain(KeyCode::Enter)), Some(Action::Quit));
    assert_eq!(bar.selected_option(), AppOption::Quit);
    assert!(bar.process_key(key('h')).is_none());
    assert_eq!(bar.selected_option(), AppOption::Send);
    assert!(bar.process_key(key('x')).is_none());
    assert!(bar.process_key(KeyEvent::plain(KeyCode::Backspace)).is_none());
    assert!(bar.process_key(KeyEvent::plain(KeyCode::Other)).is_none());
    bar.process_tick();
    assert_eq!(bar.selected_option(), AppOption::Send);
    assert_eq!(options::State::default().selected_option(), AppOption::Send);
}

#[test]
fn prompt_editor_appends_and_removes_at_the_end() {
    let mut editor = prompt_editor::State::new();
    assert_eq!(editor.get_display_text(), "");
    assert!(editor.process_key(KeyEvent::plain(KeyCode::Backspace)).is_none());
    assert_eq!(editor.get_display_text(), "");
    assert!(editor.process_key(key('a')).is_none());
    assert!(editor.process_key(key('é')).is_none());
    assert!(editor.process_key(KeyEvent::plain(KeyCode::Enter)).is_none());
    assert!(editor.process_key(key('b')).is_none());
    assert_eq!(editor.get_display_text(), "aé\nb");
    assert!(editor.process_key(KeyEvent::plain(KeyCode::Other)).is_none());
    editor.process_tick();
    assert_eq!(editor.get_display_text(), "aé\nb");
    editor.process_key(KeyEvent::plain(KeyCode::Backspace));
    editor.process_key(KeyEvent::plain(KeyCode::Backspace));
    assert_eq!(editor.get_display_text(), "aé");
    editor.process_key(KeyEvent::plain(KeyCode::Backspace));
    assert_eq!(editor.get_display_text(), "a");
    assert_eq!(prompt_editor::State::default().get_display_text(), "");
}

#[test]
fn key_events_carry_their_modifier() {
    assert_eq!(key('a'), KeyEvent { code: KeyCode::Char('a'), control: false });
    assert_eq!(ctrl('a'), KeyEvent { code: KeyCode::Char('a'), control: true });
}

#[test]
fn walk_reports_become_entries() {
    let walk = vec![
        Walked { path: ".".to_string(), depth: 0, is_dir: Some(true) },
        Walked { path: "<stdin>".to_string(), depth: 0, is_dir: None },
        Walked { path: "./a.rs".to_string(), depth: 1, is_dir: Some(false) },
    ];
    let entries = discover_entries(&walk);
    assert_eq!(entries.len(), 2);
    assert_eq!(entries[0].path, ".");
    assert_eq!(entries[0].depth, 0);
    assert!(matches!(entries[0].entry_type, EntryType::Directory(_)));
    assert!(entries[0].excluded);
    assert_eq!(entries[1].path, "./a.rs");
    assert_eq!(entries[1].depth, 1);
    assert!(matches!(entries[1].entry_type, EntryType::File));
    assert!(entries[1].excluded);
    assert_eq!(discover_entries(&Vec::new()).len(), 0);
}

#[test]
fn events_are_input_or_tick() {
    let events = vec![Event::Input(key('a')), Event::Tick];
    let mut app = app();
    for event in events {
        match event {
            Event::Input(input) => {
                app.process_key(input);
            }
            Event::Tick => app.process_tick(),
        }
    }
    assert_eq!(app.prompt_editor_state.get_display_text(), "a");
}
