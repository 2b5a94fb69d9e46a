//! The selection cursor of the file browser is kept in the list state of the
//! rendering library, so that the renderer can scroll with it. The verifier
//! sees that type as opaque; this file states what the browser relies on.

use ratatui::widgets::ListState;
use vstd::prelude::*;

verus! {

/// `ratatui::widgets::ListState`, taken as an opaque value: of what it holds
/// only the selected offset is spoken of, through [`selected_of`].
#[verifier::external_type_specification]
#[verifier::external_body]
pub struct ExListState(ListState);

/// The offset that a list state holds as selected, if any.
pub uninterp spec fn selected_of(list_state: ListState) -> Option<usize>;

/// `ListState::default`: a fresh list state has nothing selected.
#[verifier::external_body]
pub(crate) fn fresh_list_state() -> (list_state: ListState)
    ensures
        selected_of(list_state) is None,
{
    ListState::default()
}

/// `ListState::selected` hands out the selected offset as it is stored.
pub assume_specification[ ListState::selected ](list_state: &ListState) -> (index: Option<usize>)
    ensures
        index == selected_of(*list_state),
;

/// `ListState::select` stores the given offset as the selected one, whatever
/// was selected before.
pub assume_specification[ ListState::select ](list_state: &mut ListState, index: Option<usize>)
    ensures
        selected_of(*final(list_state)) == index,
;

} // verus!
