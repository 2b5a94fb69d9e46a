//! The mathematical model of the file tree: a flat sequence of entries in
//! walk order, in which nesting is read off the depths of neighbours.

use vstd::prelude::*;

verus! {

/// What an entry is: a file, or a directory that is expanded or collapsed.
pub enum EntryKind {
    File,
    Directory { expanded: bool },
}

/// One node of the discovered tree.
pub struct Entry {
    pub path: Seq<char>,
    pub depth: nat,
    pub kind: EntryKind,
    pub included: bool,
}

/// A directory whose children are folded away.
pub open spec fn is_collapsed(entry: Entry) -> bool {
    entry.kind == (EntryKind::Directory { expanded: false })
}

/// Every entry after `j`, up to and including `i`, lies deeper than `j`: the
/// subtree that starts at `j` reaches at least as far as `i`.
pub open spec fn covers(entries: Seq<Entry>, j: int, i: int) -> bool {
    &&& 0 <= j <= i < entries.len()
    &&& forall|k: int| j < k <= i ==> (#[trigger] entries[k]).depth > entries[j].depth
}

/// `j` is an ancestor of `i`: it comes earlier, and `i` lies in its subtree.
pub open spec fn is_ancestor(entries: Seq<Entry>, j: int, i: int) -> bool {
    j < i && covers(entries, j, i)
}

/// Entry `i` has a collapsed directory among its ancestors.
pub open spec fn hidden(entries: Seq<Entry>, i: int) -> bool {
    exists|j: int| is_ancestor(entries, j, i) && is_collapsed(#[trigger] entries[j])
}

/// The indices below `n` that are not hidden, in rising order.
pub open spec fn visible_below(entries: Seq<Entry>, n: int) -> Seq<int>
    decreases n,
{
    if n <= 0 {
        Seq::empty()
    } else if hidden(entries, n - 1) {
        visible_below(entries, n - 1)
    } else {
        visible_below(entries, n - 1).push(n - 1)
    }
}

/// The visible set: the indices of all entries that are not hidden, in store
/// order.
pub open spec fn visible(entries: Seq<Entry>) -> Seq<int> {
    visible_below(entries, entries.len() as int)
}

/// The file browser as a value: the entry store and the selection cursor,
/// which is an offset into the visible set.
pub struct Browser {
    pub entries: Seq<Entry>,
    pub cursor: Option<int>,
}

/// The cursor once an operation has looked at it: an unset cursor is put on
/// the first row.
pub open spec fn settled(cursor: Option<int>) -> Option<int> {
    match cursor {
        Some(offset) => Some(offset),
        None => Some(0),
    }
}

/// The index in the store of the entry under the cursor. An unset cursor
/// stands for the first visible row; a cursor beyond the visible set selects
/// nothing.
pub open spec fn selected_entry(browser: Browser) -> Option<int> {
    let shown = visible(browser.entries);
    match browser.cursor {
        Some(offset) => if 0 <= offset < shown.len() {
            Some(shown[offset])
        } else {
            None
        },
        None => if shown.len() > 0 {
            Some(shown[0])
        } else {
            None
        },
    }
}

/// The last offset of a visible set of the given length (0 for an empty one).
pub open spec fn last_offset(len: nat) -> int {
    if len == 0 {
        0
    } else {
        len - 1
    }
}

/// The browser after a move of the cursor towards the first row: one step,
/// stopping at the first row; an unset cursor goes to the last row.
pub open spec fn moved_up(browser: Browser) -> Browser {
    Browser {
        cursor: match browser.cursor {
            Some(offset) => if offset > 0 {
                Some(offset - 1)
            } else {
                Some(offset)
            },
            None => Some(last_offset(visible(browser.entries).len())),
        },
        ..browser
    }
}

/// The browser after a move of the cursor towards the last row: one step,
/// stopping at the last row; an unset cursor goes to the first row.
pub open spec fn moved_down(browser: Browser) -> Browser {
    Browser {
        cursor: match browser.cursor {
            Some(offset) => if offset < last_offset(visible(browser.entries).len()) {
                Some(offset + 1)
            } else {
                Some(offset)
            },
            None => Some(0),
        },
        ..browser
    }
}

/// The browser after the selected entry was expanded (`value` true) or
/// collapsed (`value` false). Only a directory changes; on a file, or with
/// nothing selected, the entries stay as they are.
pub open spec fn with_expanded(browser: Browser, value: bool) -> Browser {
    Browser {
        entries: match selected_entry(browser) {
            Some(i) => if browser.entries[i].kind is Directory {
                browser.entries.update(
                    i,
                    Entry { kind: EntryKind::Directory { expanded: value }, ..browser.entries[i] },
                )
            } else {
                browser.entries
            },
            None => browser.entries,
        },
        cursor: settled(browser.cursor),
    }
}

/// The browser after the inclusion flag of the selected entry was flipped.
/// Only a file changes; on a directory, or with nothing selected, the entries
/// stay as they are.
pub open spec fn with_toggled(browser: Browser) -> Browser {
    Browser {
        entries: match selected_entry(browser) {
            Some(i) => if browser.entries[i].kind is File {
                browser.entries.update(
                    i,
                    Entry { included: !browser.entries[i].included, ..browser.entries[i] },
                )
            } else {
                browser.entries
            },
            None => browser.entries,
        },
        cursor: settled(browser.cursor),
    }
}

/// The paths of the included files among the first `n` entries, in store
/// order.
pub open spec fn included_below(entries: Seq<Entry>, n: int) -> Seq<Seq<char>>
    decreases n,
{
    if n <= 0 {
        Seq::empty()
    } else if entries[n - 1].kind is File && entries[n - 1].included {
        included_below(entries, n - 1).push(entries[n - 1].path)
    } else {
        included_below(entries, n - 1)
    }
}

/// The paths of all included files, in store order.
pub open spec fn included_paths(entries: Seq<Entry>) -> Seq<Seq<char>> {
    included_below(entries, entries.len() as int)
}

/// Two spaces for each level of depth.
pub open spec fn indentation(depth: nat) -> Seq<char> {
    Seq::new(2 * depth, |i: int| ' ')
}

/// The line that stands for an entry in the rendered tree: its indentation,
/// the mark `* ` if it is included, its path, and a line feed.
pub open spec fn tree_line(entry: Entry) -> Seq<char> {
    indentation(entry.depth) + (if entry.included {
        seq!['*', ' ']
    } else {
        Seq::empty()
    }) + entry.path + seq!['\n']
}

/// The lines of the first `n` entries, one after the other.
pub open spec fn rendered_below(entries: Seq<Entry>, n: int) -> Seq<char>
    decreases n,
{
    if n <= 0 {
        Seq::empty()
    } else {
        rendered_below(entries, n - 1) + tree_line(entries[n - 1])
    }
}

/// The whole tree as text: one line for each entry of the store, hidden or
/// not, in store order.
pub open spec fn rendered_tree(entries: Seq<Entry>) -> Seq<char> {
    rendered_below(entries, entries.len() as int)
}

/// A subtree that reaches `i` reaches every entry before `i` too.
pub proof fn lemma_covers_shrinks(entries: Seq<Entry>, j: int, m: int, i: int)
    requires
        covers(entries, j, i),
        j <= m <= i,
    ensures
        covers(entries, j, m),
{
}

/// What `visible_below` holds: exactly the indices below `n` that are not
/// hidden, each once, in rising order.
pub proof fn lemma_visible_below(entries: Seq<Entry>, n: int)
    requires
        0 <= n <= entries.len(),
    ensures
        forall|k: int|
            0 <= k < visible_below(entries, n).len() ==> {
                &&& 0 <= (#[trigger] visible_below(entries, n)[k]) < n
                &&& !hidden(entries, visible_below(entries, n)[k])
            },
        forall|k: int, l: int|
            0 <= k < l < visible_below(entries, n).len() ==> visible_below(entries, n)[k]
                < visible_below(entries, n)[l],
        forall|i: int|
            0 <= i < n && !hidden(entries, i) ==> visible_below(entries, n).contains(i),
        visible_below(entries, n).len() <= n,
    decreases n,
{
    if n > 0 {
        lemma_visible_below(entries, n - 1);
        let before = visible_below(entries, n - 1);
        let now = visible_below(entries, n);
        if !hidden(entries, n - 1) {
            assert(now[before.len() as int] == n - 1);
            assert forall|i: int| 0 <= i < n && !hidden(entries, i) implies now.contains(i) by {
                if i < n - 1 {
                    let k = choose|k: int| 0 <= k < before.len() && before[k] == i;
                    assert(now[k] == i);
                }
            }
        }
    }
}

/// An index is in the visible set exactly when it names an entry of the store
/// that has no collapsed ancestor.
pub proof fn lemma_visible_iff_no_collapsed_ancestor(entries: Seq<Entry>, i: int)
    ensures
        visible(entries).contains(i) <==> 0 <= i < entries.len() && !hidden(entries, i),
{
    lemma_visible_below(entries, entries.len() as int);
}

/// The visible set lists its indices in strictly rising order, so none occurs
/// twice.
pub proof fn lemma_visible_rises(entries: Seq<Entry>, k: int, l: int)
    requires
        0 <= k < l < visible(entries).len(),
    ensures
        visible(entries)[k] < visible(entries)[l],
{
    lemma_visible_below(entries, entries.len() as int);
}

/// Two stores of one length that agree, below `n`, on every depth, and below
/// `n - 1` on which entries are collapsed directories.
pub open spec fn same_shape_below(a: Seq<Entry>, b: Seq<Entry>, n: int) -> bool {
    &&& a.len() == b.len()
    &&& 0 <= n <= a.len()
    &&& forall|k: int| #![trigger a[k]] #![trigger b[k]] 0 <= k < n ==> a[k].depth == b[k].depth
    &&& forall|k: int|
        #![trigger a[k]]
        #![trigger b[k]]
        0 <= k < n - 1 ==> is_collapsed(a[k]) == is_collapsed(b[k])
}

/// Whether an entry is hidden depends only on the depths up to it and on
/// which entries before it are collapsed directories.
pub proof fn lemma_hidden_by_shape(a: Seq<Entry>, b: Seq<Entry>, n: int, i: int)
    requires
        same_shape_below(a, b, n),
        0 <= i < n,
    ensures
        hidden(a, i) == hidden(b, i),
{
    if hidden(a, i) {
        let j = choose|j: int| is_ancestor(a, j, i) && is_collapsed(#[trigger] a[j]);
        assert(is_ancestor(b, j, i));
        assert(is_collapsed(b[j]));
    }
    if hidden(b, i) {
        let j = choose|j: int| is_ancestor(b, j, i) && is_collapsed(#[trigger] b[j]);
        assert(is_ancestor(a, j, i));
        assert(is_collapsed(a[j]));
    }
}

/// Stores of the same shape below `n` show the same entries below `n`.
pub proof fn lemma_visible_below_by_shape(a: Seq<Entry>, b: Seq<Entry>, n: int)
    requires
        same_shape_below(a, b, n),
    ensures
        visible_below(a, n) == visible_below(b, n),
    decreases n,
{
    if n > 0 {
        lemma_visible_below_by_shape(a, b, n - 1);
        lemma_hidden_by_shape(a, b, n, n - 1);
    }
}

/// The visible entries below `n` are the first of the visible entries below
/// any later bound.
pub proof fn lemma_visible_below_is_prefix(entries: Seq<Entry>, n: int, m: int)
    requires
        0 <= n <= m,
    ensures
        visible_below(entries, n).len() <= visible_below(entries, m).len(),
        visible_below(entries, n) == visible_below(entries, m).take(
            visible_below(entries, n).len() as int,
        ),
    decreases m - n,
{
    if n < m {
        lemma_visible_below_is_prefix(entries, n, m - 1);
        let short = visible_below(entries, n);
        let mid = visible_below(entries, m - 1);
        let long = visible_below(entries, m);
        assert(short =~= long.take(short.len() as int));
    } else {
        let short = visible_below(entries, n);
        assert(short =~= short.take(short.len() as int));
    }
}

/// The row at offset `offset` of the visible set is the last of the visible
/// entries up to and including the entry that it shows.
pub proof fn lemma_rows_up_to_selected(entries: Seq<Entry>, offset: int)
    requires
        0 <= offset < visible(entries).len(),
    ensures
        0 <= visible(entries)[offset] < entries.len(),
        visible_below(entries, visible(entries)[offset] + 1).len() == offset + 1,
{
    let shown = visible(entries);
    let i = shown[offset];
    lemma_visible_below(entries, entries.len() as int);
    lemma_visible_below(entries, i + 1);
    lemma_visible_below_is_prefix(entries, i + 1, entries.len() as int);
    let upto = visible_below(entries, i + 1);
    assert(upto.contains(i));
    let k = choose|k: int| 0 <= k < upto.len() && upto[k] == i;
    assert(shown.take(upto.len() as int)[k] == shown[k]);
    // Rising order: `i` stands once in the visible set, and last in `upto`.
    if k < offset {
        assert(shown[k] < shown[offset]);
    }
    if offset < k {
        assert(shown[offset] < shown[k]);
    }
    if k + 1 < upto.len() {
        assert(upto[k] < upto[k + 1]);
    }
}

/// The cursor resolves: whenever anything is visible, an entry is selected.
pub open spec fn cursor_resolves(browser: Browser) -> bool {
    visible(browser.entries).len() > 0 ==> selected_entry(browser) is Some
}

/// Moving the cursor past the first or the last row changes nothing.
pub proof fn lemma_moves_clamp(browser: Browser)
    requires
        visible(browser.entries).len() > 0,
    ensures
        browser.cursor == Some(0int) ==> moved_up(browser) == browser,
        browser.cursor == Some(visible(browser.entries).len() - 1) ==> moved_down(browser)
            == browser,
{
}

/// A move keeps a cursor that resolves within the visible set, and changes
/// no entry.
pub proof fn lemma_moves_keep_cursor(browser: Browser)
    requires
        cursor_resolves(browser),
    ensures
        cursor_resolves(moved_up(browser)),
        cursor_resolves(moved_down(browser)),
        moved_up(browser).entries == browser.entries,
        moved_down(browser).entries == browser.entries,
{
}

/// Expanding or collapsing the selected entry leaves the rows up to and
/// including that entry as they are, so the cursor stays on it.
pub proof fn lemma_expansion_keeps_selection(browser: Browser, value: bool)
    ensures
        selected_entry(with_expanded(browser, value)) == selected_entry(browser),
        cursor_resolves(browser) ==> cursor_resolves(with_expanded(browser, value)),
        with_expanded(browser, value).entries.len() == browser.entries.len(),
{
    let after = with_expanded(browser, value);
    let shown = visible(browser.entries);
    lemma_visible_below(browser.entries, browser.entries.len() as int);
    match selected_entry(browser) {
        Some(i) => {
            let offset = match browser.cursor {
                Some(offset) => offset,
                None => 0,
            };
            assert(shown[offset] == i);
            lemma_rows_up_to_selected(browser.entries, offset);
            assert(same_shape_below(browser.entries, after.entries, i + 1));
            lemma_visible_below_by_shape(browser.entries, after.entries, i + 1);
            lemma_visible_below_is_prefix(browser.entries, i + 1, browser.entries.len() as int);
            lemma_visible_below_is_prefix(after.entries, i + 1, after.entries.len() as int);
            let upto = visible_below(browser.entries, i + 1);
            assert(visible(after.entries).take(upto.len() as int)[offset] == visible(
                after.entries,
            )[offset]);
            assert(shown.take(upto.len() as int)[offset] == shown[offset]);
        },
        None => {
            assert(after.entries == browser.entries);
        },
    }
}

/// Two stores that differ at most in whether entry `i` is a collapsed
/// directory hide the same entries outside the subtree of `i`.
pub proof fn lemma_hidden_outside_subtree(a: Seq<Entry>, b: Seq<Entry>, i: int, m: int)
    requires
        a.len() == b.len(),
        forall|k: int|
            #![trigger a[k]]
            #![trigger b[k]]
            0 <= k < a.len() ==> a[k].depth == b[k].depth,
        forall|k: int|
            #![trigger a[k]]
            #![trigger b[k]]
            0 <= k < a.len() && k != i ==> is_collapsed(a[k]) == is_collapsed(b[k]),
        !is_ancestor(a, i, m),
    ensures
        hidden(a, m) == hidden(b, m),
{
    if hidden(a, m) {
        let j = choose|j: int| is_ancestor(a, j, m) && is_collapsed(#[trigger] a[j]);
        assert(is_ancestor(b, j, m));
        assert(is_collapsed(b[j]));
    }
    if hidden(b, m) {
        let j = choose|j: int| is_ancestor(b, j, m) && is_collapsed(#[trigger] b[j]);
        assert(is_ancestor(a, j, m));
        assert(is_collapsed(a[j]));
    }
}

/// Collapsing a directory hides nothing outside its own subtree, and
/// expanding it shows nothing outside: an entry that is not a descendant of
/// the selected one is hidden afterwards exactly if it was hidden before.
pub proof fn lemma_expansion_is_local(browser: Browser, value: bool, m: int)
    requires
        selected_entry(browser) matches Some(i) && !is_ancestor(browser.entries, i, m),
    ensures
        hidden(with_expanded(browser, value).entries, m) == hidden(browser.entries, m),
{
    let before = browser.entries;
    let after = with_expanded(browser, value).entries;
    let i = selected_entry(browser)->0;
    lemma_visible_below(before, before.len() as int);
    assert(0 <= i < before.len());
    lemma_hidden_outside_subtree(before, after, i, m);
}

/// Flipping the inclusion of an entry changes nothing of what is visible.
pub proof fn lemma_toggle_keeps_visible(browser: Browser)
    ensures
        visible(with_toggled(browser).entries) == visible(browser.entries),
        selected_entry(with_toggled(browser)) == selected_entry(browser),
        cursor_resolves(browser) ==> cursor_resolves(with_toggled(browser)),
{
    let after = with_toggled(browser);
    lemma_visible_below(browser.entries, browser.entries.len() as int);
    assert(same_shape_below(browser.entries, after.entries, browser.entries.len() as int));
    lemma_visible_below_by_shape(browser.entries, after.entries, browser.entries.len() as int);
}

/// Flipping the inclusion of the selected entry twice gives back the entries
/// as they were, and the whole browser where the cursor was set.
pub proof fn lemma_toggle_twice(browser: Browser)
    ensures
        with_toggled(with_toggled(browser)).entries == browser.entries,
        browser.cursor is Some ==> with_toggled(with_toggled(browser)) == browser,
{
    let once = with_toggled(browser);
    let twice = with_toggled(once);
    lemma_toggle_keeps_visible(browser);
    lemma_visible_below(browser.entries, browser.entries.len() as int);
    assert(twice.entries =~= browser.entries);
}

} // verus!
