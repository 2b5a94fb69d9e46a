//! The file browser: the entry store, the selection cursor, and the visible
//! subsequence under the current collapse state.

use crate::input::{Action, InputHandler, KeyCode, KeyEvent};
use crate::widgets::list_state::{fresh_list_state, selected_of};
use crate::widgets::tree_model::{
    covers, cursor_resolves, hidden, included_below, included_paths, indentation, is_ancestor,
    is_collapsed, lemma_covers_shrinks, lemma_expansion_keeps_selection, lemma_moves_keep_cursor,
    lemma_toggle_keeps_visible, lemma_visible_below, moved_down, moved_up, rendered_below,
    rendered_tree, selected_entry, settled, tree_line, visible, visible_below, with_expanded,
    with_toggled, Browser, Entry, EntryKind,
};
use ratatui::widgets::ListState;
use vstd::prelude::*;
use vstd::string::StringExecFns;

verus! {

/// Whether a directory shows its children.
pub struct DirectoryState {
    pub expanded: bool,
}

/// What an entry is: a directory with its collapse state, or a file.
pub enum EntryType {
    Directory(DirectoryState),
    File,
}

/// One entry of the tree: its path, its depth (for indentation and nesting),
/// what it is, and whether it is left out of the query.
pub struct TreeEntry {
    pub path: String,
    pub depth: usize,
    pub entry_type: EntryType,
    pub excluded: bool,
}

impl View for EntryType {
    type V = EntryKind;

    open spec fn view(&self) -> EntryKind {
        match *self {
            EntryType::Directory(state) => EntryKind::Directory { expanded: state.expanded },
            EntryType::File => EntryKind::File,
        }
    }
}

impl View for TreeEntry {
    type V = Entry;

    open spec fn view(&self) -> Entry {
        Entry {
            path: self.path@,
            depth: self.depth as nat,
            kind: self.entry_type@,
            included: !self.excluded,
        }
    }
}

/// The model of a stored list of entries.
pub open spec fn entries_of(list: Seq<TreeEntry>) -> Seq<Entry> {
    Seq::new(list.len(), |i: int| list[i]@)
}

/// A sequence of machine indices, read as mathematical integers.
pub open spec fn as_ints(indices: Seq<usize>) -> Seq<int> {
    Seq::new(indices.len(), |k: int| indices[k] as int)
}

impl TreeEntry {
    /// A freshly discovered entry. Directories start expanded. Every entry
    /// starts excluded: a file goes into the query only once the user has
    /// picked it.
    pub fn new(path: String, depth: usize, is_dir: bool) -> (entry: TreeEntry)
        ensures
            entry@ == (Entry {
                path: path@,
                depth: depth as nat,
                kind: if is_dir {
                    EntryKind::Directory { expanded: true }
                } else {
                    EntryKind::File
                },
                included: false,
            }),
    {
        TreeEntry {
            path,
            depth,
            entry_type: match is_dir {
                true => EntryType::Directory(DirectoryState { expanded: true }),
                false => EntryType::File,
            },
            excluded: true,
        }
    }
}

/// The indices of the entries of `list` that no collapsed ancestor hides, in
/// store order.
pub fn visible_in(list: &Vec<TreeEntry>) -> (indices: Vec<usize>)
    ensures
        as_ints(indices@) == visible(entries_of(list@)),
{
    let ghost entries = entries_of(list@);
    let mut indices: Vec<usize> = Vec::new();
    let mut collapsed_stack: Vec<usize> = Vec::new();
    // The collapsed directory whose depth is on the stack, when there is one.
    let ghost mut anchor: int = 0;
    let mut idx: usize = 0;
    while idx < list.len()
        invariant
            idx <= list.len(),
            entries == entries_of(list@),
            as_ints(indices@) == visible_below(entries, idx as int),
            collapsed_stack.len() <= 1,
            collapsed_stack.len() == 0 ==> forall|j: int|
                0 <= j < idx && is_collapsed(#[trigger] entries[j]) ==> !covers(
                    entries,
                    j,
                    idx - 1,
                ),
            collapsed_stack.len() == 1 ==> {
                &&& 0 <= anchor < idx
                &&& is_collapsed(entries[anchor])
                &&& entries[anchor].depth == collapsed_stack[0]
                &&& covers(entries, anchor, idx - 1)
                &&& forall|j: int|
                    0 <= j < anchor && is_collapsed(#[trigger] entries[j]) ==> !covers(
                        entries,
                        j,
                        anchor,
                    )
            },
        decreases list.len() - idx,
    {
        let entry = &list[idx];
        assert(entries[idx as int] == entry@);
        let ghost stack_before = collapsed_stack@;
        // Leave every collapsed subtree that ends before this entry.
        while collapsed_stack.len() > 0 && entry.depth <= collapsed_stack[collapsed_stack.len() - 1]
            invariant
                collapsed_stack.len() <= 1,
                collapsed_stack.len() == 1 ==> collapsed_stack@ == stack_before,
                collapsed_stack.len() == 0 && stack_before.len() == 1 ==> entry.depth
                    <= stack_before[0],
            decreases collapsed_stack.len(),
        {
            collapsed_stack.pop();
        }
        if collapsed_stack.len() > 0 {
            // Still inside a collapsed directory: the entry is hidden.
            proof {
                assert(covers(entries, anchor, idx as int));
                assert(is_ancestor(entries, anchor, idx as int));
                assert(hidden(entries, idx as int));
            }
        } else {
            proof {
                assert forall|j: int|
                    0 <= j < idx && is_collapsed(#[trigger] entries[j]) implies !covers(
                    entries,
                    j,
                    idx as int,
                ) by {
                    if covers(entries, j, idx as int) {
                        if stack_before.len() == 0 {
                            lemma_covers_shrinks(entries, j, idx - 1, idx as int);
                        } else if j < anchor {
                            lemma_covers_shrinks(entries, j, anchor, idx as int);
                        } else if j == anchor {
                            assert(entries[idx as int].depth > entries[j].depth);
                        } else {
                            assert(entries[j].depth > entries[anchor].depth);
                            assert(entries[idx as int].depth > entries[j].depth);
                        }
                    }
                }
                assert(!hidden(entries, idx as int));
                assert(as_ints(indices@.push(idx)) =~= as_ints(indices@).push(idx as int));
            }
            indices.push(idx);
            if let EntryType::Directory(dir_state) = &entry.entry_type {
                if !dir_state.expanded {
                    collapsed_stack.push(entry.depth);
                    proof {
                        anchor = idx as int;
                    }
                }
            }
        }
        idx += 1;
    }
    indices
}

/// A cursor of the list state, read as a mathematical offset.
pub open spec fn cursor_of(selected: Option<usize>) -> Option<int> {
    match selected {
        Some(offset) => Some(offset as int),
        None => None,
    }
}

/// A store index, read as a mathematical integer.
pub open spec fn index_of(index: Option<usize>) -> Option<int> {
    cursor_of(index)
}

/// The texts of a list of strings.
pub open spec fn texts(list: Seq<String>) -> Seq<Seq<char>> {
    Seq::new(list.len(), |i: int| list[i]@)
}

/// What a key press does to the browser: `k` and `j` move the cursor up and
/// down, `l` and `h` expand and collapse the selected directory, Enter flips
/// the inclusion of the selected file. Every other key changes nothing.
pub open spec fn browser_after(browser: Browser, code: KeyCode) -> Browser {
    match code {
        KeyCode::Char(c) => if c == 'k' {
            moved_up(browser)
        } else if c == 'j' {
            moved_down(browser)
        } else if c == 'l' {
            with_expanded(browser, true)
        } else if c == 'h' {
            with_expanded(browser, false)
        } else {
            browser
        },
        KeyCode::Enter => with_toggled(browser),
        _ => browser,
    }
}

/// State of the file browser: the entry store, in walk order, and the list
/// state that holds the selection cursor.
pub struct State {
    pub file_list: Vec<TreeEntry>,
    pub list_state: ListState,
}

impl View for State {
    type V = Browser;

    open spec fn view(&self) -> Browser {
        Browser {
            entries: entries_of(self.file_list@),
            cursor: cursor_of(selected_of(self.list_state)),
        }
    }
}

impl State {
    /// A browser over the given entries, with the cursor on the first row.
    pub fn new(entries: Vec<TreeEntry>) -> (state: State)
        ensures
            state.file_list == entries,
            state@ == (Browser { entries: entries_of(entries@), cursor: Some(0) }),
    {
        let mut list_state = fresh_list_state();
        list_state.select(Some(0));
        State { file_list: entries, list_state }
    }

    /// The index in the store of the entry under the cursor, if there is one.
    /// An unset cursor is put on the first row.
    pub fn get_selected_idx(&mut self) -> (index: Option<usize>)
        ensures
            index_of(index) == selected_entry(old(self)@),
            index matches Some(i) ==> i < old(self).file_list.len(),
            final(self).file_list == old(self).file_list,
            final(self)@ == (Browser { cursor: settled(old(self)@.cursor), ..old(self)@ }),
            selected_entry(final(self)@) == selected_entry(old(self)@),
    {
        let visible = self.visible_entries();
        proof {
            lemma_visible_below(self@.entries, self@.entries.len() as int);
        }
        match self.list_state.selected() {
            Some(offset) => {
                if offset < visible.len() {
                    assert(as_ints(visible@)[offset as int] == visible[offset as int]);
                    Some(visible[offset])
                } else {
                    None
                }
            },
            None => {
                self.list_state.select(Some(0));
                if visible.len() > 0 {
                    assert(as_ints(visible@)[0] == visible[0]);
                    Some(visible[0])
                } else {
                    None
                }
            },
        }
    }

    /// Moves the cursor one row down; on the last row it stays. An unset
    /// cursor is put on the first row.
    pub fn increment_selected(&mut self)
        ensures
            final(self).file_list == old(self).file_list,
            final(self)@ == moved_down(old(self)@),
    {
        let visible = self.visible_entries();
        assert(as_ints(visible@).len() == visible@.len());
        if let Some(offset) = self.list_state.selected() {
            if offset < visible.len().saturating_sub(1) {
                self.list_state.select(Some(offset + 1));
            }
        } else {
            self.list_state.select(Some(0));
        }
    }

    /// Moves the cursor one row up; on the first row it stays. An unset
    /// cursor is put on the last row.
    pub fn decrement_selected(&mut self)
        ensures
            final(self).file_list == old(self).file_list,
            final(self)@ == moved_up(old(self)@),
    {
        let visible = self.visible_entries();
        assert(as_ints(visible@).len() == visible@.len());
        if let Some(offset) = self.list_state.selected() {
            if offset > 0 {
                self.list_state.select(Some(offset - 1));
            }
        } else {
            self.list_state.select(Some(visible.len().saturating_sub(1)));
        }
    }

    /// The indices of the entries that no collapsed ancestor hides, in store
    /// order.
    pub fn visible_entries(&self) -> (indices: Vec<usize>)
        ensures
            as_ints(indices@) == visible(self@.entries),
    {
        visible_in(&self.file_list)
    }

    /// Expands (`value` true) or collapses (`value` false) the selected
    /// entry, if it is a directory.
    pub fn set_expanded(&mut self, value: bool)
        ensures
            final(self)@ == with_expanded(old(self)@, value),
    {
        if let Some(idx) = self.get_selected_idx() {
            let ghost before = self@.entries;
            if let EntryType::Directory(_) = self.file_list[idx].entry_type {
                self.file_list[idx].entry_type = EntryType::Directory(
                    DirectoryState { expanded: value },
                );
                assert(self@.entries =~= before.update(
                    idx as int,
                    Entry { kind: EntryKind::Directory { expanded: value }, ..before[idx as int] },
                ));
            }
        }
    }

    /// Flips the inclusion of the selected entry, if it is a file.
    pub fn toggle_included(&mut self)
        ensures
            final(self)@ == with_toggled(old(self)@),
    {
        if let Some(idx) = self.get_selected_idx() {
            let ghost before = self@.entries;
            if let EntryType::File = self.file_list[idx].entry_type {
                let excluded = self.file_list[idx].excluded;
                self.file_list[idx].excluded = !excluded;
                assert(self@.entries =~= before.update(
                    idx as int,
                    Entry { included: !before[idx as int].included, ..before[idx as int] },
                ));
            }
        }
    }

    /// The paths of the included files, in store order.
    pub fn get_included_entries(&self) -> (paths: Vec<String>)
        ensures
            texts(paths@) == included_paths(self@.entries),
    {
        let ghost entries = self@.entries;
        let mut paths: Vec<String> = Vec::new();
        let mut idx: usize = 0;
        while idx < self.file_list.len()
            invariant
                idx <= self.file_list.len(),
                entries == entries_of(self.file_list@),
                texts(paths@) == included_below(entries, idx as int),
            decreases self.file_list.len() - idx,
        {
            let entry = &self.file_list[idx];
            assert(entries[idx as int] == entry@);
            if let EntryType::File = entry.entry_type {
                if !entry.excluded {
                    let path = entry.path.clone();
                    assert(texts(paths@.push(path)) =~= texts(paths@).push(path@));
                    paths.push(path);
                }
            }
            idx += 1;
        }
        paths
    }

    /// The whole tree as text, one line for each entry of the store whether
    /// it is visible or not.
    pub fn get_entire_tree(&self) -> (tree: String)
        ensures
            tree@ == rendered_tree(self@.entries),
    {
        let ghost entries = self@.entries;
        let mut tree = String::new();
        let mut idx: usize = 0;
        while idx < self.file_list.len()
            invariant
                idx <= self.file_list.len(),
                entries == entries_of(self.file_list@),
                tree@ == rendered_below(entries, idx as int),
            decreases self.file_list.len() - idx,
        {
            let entry = &self.file_list[idx];
            assert(entries[idx as int] == entry@);
            let ghost before = tree@;
            let mut level: usize = 0;
            while level < entry.depth
                invariant
                    level <= entry.depth,
                    tree@ == before + indentation(level as nat),
                decreases entry.depth - level,
            {
                proof {
                    reveal_strlit("  ");
                    assert("  "@ =~= seq![' ', ' ']);
                    assert(indentation(level as nat) + seq![' ', ' '] =~= indentation(
                        (level + 1) as nat,
                    ));
                }
                tree.append("  ");
                level += 1;
            }
            if !entry.excluded {
                proof {
                    reveal_strlit("* ");
                    assert("* "@ =~= seq!['*', ' ']);
                }
                tree.append("* ");
            }
            tree.append(entry.path.as_str());
            proof {
                reveal_strlit("\n");
                assert("\n"@ =~= seq!['\n']);
            }
            tree.append("\n");
            assert(tree@ =~= before + tree_line(entry@));
            idx += 1;
        }
        tree
    }
}

impl InputHandler for State {
    fn process_key(&mut self, input: KeyEvent) -> (action: Option<Action>)
        ensures
            action is None,
            final(self)@ == browser_after(old(self)@, input.code),
    {
        match input.code {
            KeyCode::Char('k') => {
                self.decrement_selected();
            },
            KeyCode::Char('j') => {
                self.increment_selected();
            },
            KeyCode::Char('l') => {
                self.set_expanded(true);
            },
            KeyCode::Char('h') => {
                self.set_expanded(false);
            },
            KeyCode::Enter => {
                self.toggle_included();
            },
            _ => {},
        }
        None
    }

    fn process_tick(&mut self)
        ensures
            *final(self) == *old(self),
    {
    }
}

/// Whatever key is pressed, no entry comes or goes, and a cursor that
/// resolved before resolves afterwards.
pub proof fn lemma_key_keeps_cursor(browser: Browser, code: KeyCode)
    requires
        cursor_resolves(browser),
    ensures
        cursor_resolves(browser_after(browser, code)),
        browser_after(browser, code).entries.len() == browser.entries.len(),
{
    lemma_moves_keep_cursor(browser);
    lemma_expansion_keeps_selection(browser, true);
    lemma_expansion_keeps_selection(browser, false);
    lemma_toggle_keeps_visible(browser);
    lemma_visible_below(browser.entries, browser.entries.len() as int);
}

} // verus!
