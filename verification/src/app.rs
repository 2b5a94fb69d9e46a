//! The focus router: it owns the three widgets, moves the focus between them
//! on control-qualified keys, and hands every other key to the focused one.

use crate::input::{Action, InputHandler, KeyCode, KeyEvent};
use crate::widgets::file_browser::{browser_after, entries_of, TreeEntry};
use crate::widgets::options::{action_on, option_after, AppOption};
use crate::widgets::prompt_editor::text_after;
use crate::widgets::tree_model::{Browser, Entry, EntryKind};
use crate::widgets::{file_browser, options, prompt_editor};
use vstd::prelude::*;

verus! {

/// The widget that has the focus.
#[derive(Clone, Copy, Debug, PartialEq, Eq, Structural)]
pub enum Widget {
    FileBrowser,
    PromptEditor,
    Options,
}

/// What the input worker sends to the main loop: an input event, or the
/// periodic tick.
pub enum Event<I> {
    Input(I),
    Tick,
}

/// What a control-qualified key asks of the router.
pub enum FocusInput {
    Left,
    Right,
    Up,
    Down,
    ForceQuit,
    Unbound,
}

/// The meaning of a key code under the control modifier: `h`, `l`, `k` and
/// `j` move the focus left, right, up and down, `c` quits at once. Nothing
/// else is bound.
pub open spec fn focus_input(code: KeyCode) -> FocusInput {
    match code {
        KeyCode::Char(c) => if c == 'h' {
            FocusInput::Left
        } else if c == 'l' {
            FocusInput::Right
        } else if c == 'k' {
            FocusInput::Up
        } else if c == 'j' {
            FocusInput::Down
        } else if c == 'c' {
            FocusInput::ForceQuit
        } else {
            FocusInput::Unbound
        },
        _ => FocusInput::Unbound,
    }
}

/// The transition table of the focus. A move whose guard does not hold, and
/// every input that is no move, leaves the focus where it is.
pub open spec fn focus_after(focus: Widget, input: FocusInput) -> Widget {
    match (input, focus) {
        (FocusInput::Left, Widget::PromptEditor) => Widget::FileBrowser,
        (FocusInput::Right, Widget::FileBrowser) => Widget::PromptEditor,
        (FocusInput::Up, Widget::Options) => Widget::PromptEditor,
        (FocusInput::Down, Widget::FileBrowser) => Widget::Options,
        (FocusInput::Down, Widget::PromptEditor) => Widget::Options,
        _ => focus,
    }
}

/// What the directory walk reports of one path: the path, its nesting level,
/// and whether it is a directory, where the walk could tell.
pub struct Walked {
    pub path: String,
    pub depth: usize,
    pub is_dir: Option<bool>,
}

/// The entries that a walk gives rise to, among its first `n` reports: one
/// fresh entry for each report that has a file type, in walk order.
pub open spec fn discovered_below(walk: Seq<Walked>, n: int) -> Seq<Entry>
    decreases n,
{
    if n <= 0 {
        Seq::empty()
    } else {
        match walk[n - 1].is_dir {
            Some(is_dir) => discovered_below(walk, n - 1).push(
                Entry {
                    path: walk[n - 1].path@,
                    depth: walk[n - 1].depth as nat,
                    kind: if is_dir {
                        EntryKind::Directory { expanded: true }
                    } else {
                        EntryKind::File
                    },
                    included: false,
                },
            ),
            None => discovered_below(walk, n - 1),
        }
    }
}

/// The entries that a whole walk gives rise to.
pub open spec fn discovered(walk: Seq<Walked>) -> Seq<Entry> {
    discovered_below(walk, walk.len() as int)
}

/// Builds the entry store from the reports of the directory walk. A report
/// without a file type is skipped.
pub fn discover_entries(walk: &Vec<Walked>) -> (entries: Vec<TreeEntry>)
    ensures
        entries_of(entries@) == discovered(walk@),
{
    let mut entries: Vec<TreeEntry> = Vec::new();
    let mut idx: usize = 0;
    while idx < walk.len()
        invariant
            idx <= walk.len(),
            entries_of(entries@) == discovered_below(walk@, idx as int),
        decreases walk.len() - idx,
    {
        let report = &walk[idx];
        match report.is_dir {
            Some(is_dir) => {
                let entry = TreeEntry::new(report.path.clone(), report.depth, is_dir);
                assert(entries_of(entries@.push(entry)) =~= entries_of(entries@).push(entry@));
                entries.push(entry);
            },
            None => {},
        }
        idx += 1;
    }
    entries
}

/// The router and its widgets as a value.
pub struct AppView {
    pub focus: Widget,
    pub browser: Browser,
    pub prompt: Seq<char>,
    pub option: AppOption,
}

/// The state after a key press. Under the control modifier only the focus
/// can change. Without it only the focused widget changes, as that widget
/// says.
pub open spec fn app_after(app: AppView, input: KeyEvent) -> AppView {
    if input.control {
        AppView { focus: focus_after(app.focus, focus_input(input.code)), ..app }
    } else {
        match app.focus {
            Widget::FileBrowser => AppView {
                browser: browser_after(app.browser, input.code),
                ..app
            },
            Widget::PromptEditor => AppView { prompt: text_after(app.prompt, input.code), ..app },
            Widget::Options => AppView { option: option_after(app.option, input.code), ..app },
        }
    }
}

/// The action that a key press yields. Control with `c` quits, whatever has
/// the focus; no other control-qualified key yields anything. A plain key
/// yields what the focused widget yields: only the options bar ever does.
pub open spec fn app_action(app: AppView, input: KeyEvent) -> Option<Action> {
    if input.control {
        if focus_input(input.code) is ForceQuit {
            Some(Action::Quit)
        } else {
            None
        }
    } else {
        match app.focus {
            Widget::Options => action_on(app.option, input.code),
            _ => None,
        }
    }
}

/// The application state: which widget has the focus, and the state of each.
pub struct App {
    pub selected_widget: Widget,
    pub file_browser_state: file_browser::State,
    pub prompt_editor_state: prompt_editor::State,
    pub options_state: options::State,
}

impl View for App {
    type V = AppView;

    open spec fn view(&self) -> AppView {
        AppView {
            focus: self.selected_widget,
            browser: self.file_browser_state@,
            prompt: self.prompt_editor_state@,
            option: self.options_state@,
        }
    }
}

impl App {
    /// The state at startup over the entries that the directory walk gave:
    /// the focus on the prompt editor, the cursor on the first entry, an
    /// empty prompt, and Send selected.
    pub fn new(entries: Vec<TreeEntry>) -> (app: App)
        ensures
            app.file_browser_state.file_list == entries,
            app@ == (AppView {
                focus: Widget::PromptEditor,
                browser: Browser { entries: entries_of(entries@), cursor: Some(0) },
                prompt: Seq::empty(),
                option: AppOption::Send,
            }),
    {
        App {
            selected_widget: Widget::PromptEditor,
            file_browser_state: file_browser::State::new(entries),
            prompt_editor_state: prompt_editor::State::new(),
            options_state: options::State::new(),
        }
    }
}

impl InputHandler for App {
    fn process_key(&mut self, input: KeyEvent) -> (action: Option<Action>)
        ensures
            final(self)@ == app_after(old(self)@, input),
            action == app_action(old(self)@, input),
    {
        if input.control {
            match input.code {
                KeyCode::Char('h') => {
                    if let Widget::PromptEditor = self.selected_widget {
                        self.selected_widget = Widget::FileBrowser;
                    }
                },
                KeyCode::Char('l') => {
                    if let Widget::FileBrowser = self.selected_widget {
                        self.selected_widget = Widget::PromptEditor;
                    }
                },
                KeyCode::Char('k') => {
                    if let Widget::Options = self.selected_widget {
                        self.selected_widget = Widget::PromptEditor;
                    }
                },
                KeyCode::Char('j') => {
                    self.selected_widget = match self.selected_widget {
                        Widget::PromptEditor | Widget::FileBrowser => Widget::Options,
                        Widget::Options => Widget::Options,
                    };
                },
                KeyCode::Char('c') => {
                    return Some(Action::Quit);
                },
                _ => {},
            }
            return None;
        }
        match self.selected_widget {
            Widget::FileBrowser => self.file_browser_state.process_key(input),
            Widget::PromptEditor => self.prompt_editor_state.process_key(input),
            Widget::Options => self.options_state.process_key(input),
        }
    }

    /// The tick goes to the focused widget. No widget does anything on it
    /// yet, so the focus and all three widgets stay exactly as they are.
    fn process_tick(&mut self)
        ensures
            *final(self) == *old(self),
    {
        match self.selected_widget {
            Widget::FileBrowser => self.file_browser_state.process_tick(),
            Widget::PromptEditor => self.prompt_editor_state.process_tick(),
            Widget::Options => self.options_state.process_tick(),
        }
    }
}

/// The transition table is total, and it is exactly this: left leads from the
/// prompt editor to the file browser, right leads back, up leads from the
/// options bar to the prompt editor, down leads from either upper widget to
/// the options bar. From every other state, and on every other input, the
/// focus stays.
pub proof fn lemma_focus_table(focus: Widget, input: FocusInput)
    ensures
        focus_after(Widget::PromptEditor, FocusInput::Left) == Widget::FileBrowser,
        focus_after(Widget::FileBrowser, FocusInput::Right) == Widget::PromptEditor,
        focus_after(Widget::Options, FocusInput::Up) == Widget::PromptEditor,
        focus_after(Widget::FileBrowser, FocusInput::Down) == Widget::Options,
        focus_after(Widget::PromptEditor, FocusInput::Down) == Widget::Options,
        input is Left && focus != Widget::PromptEditor ==> focus_after(focus, input) == focus,
        input is Right && focus != Widget::FileBrowser ==> focus_after(focus, input) == focus,
        input is Up && focus != Widget::Options ==> focus_after(focus, input) == focus,
        input is Down && focus == Widget::Options ==> focus_after(focus, input) == focus,
        input is ForceQuit || input is Unbound ==> focus_after(focus, input) == focus,
{
}

/// A key press changes at most one thing: under the control modifier no
/// widget changes, and without it the focus stays and the widgets that do not
/// have it stay as they are.
pub proof fn lemma_key_is_routed(app: AppView, input: KeyEvent)
    ensures
        input.control ==> app_after(app, input) == (AppView {
            focus: app_after(app, input).focus,
            ..app
        }),
        !input.control ==> app_after(app, input).focus == app.focus,
        !input.control && app.focus != Widget::FileBrowser ==> app_after(app, input).browser
            == app.browser,
        !input.control && app.focus != Widget::PromptEditor ==> app_after(app, input).prompt
            == app.prompt,
        !input.control && app.focus != Widget::Options ==> app_after(app, input).option
            == app.option,
{
}

} // verus!
