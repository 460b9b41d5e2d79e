//! Choosing one item of a list, key by key: a cursor moves over the items
//! and one of them may be selected.

use crate::editor::ResultKind;
use crate::feedback::{decimal_of, label};
use vstd::prelude::*;

verus! {

/// What the user did in a list.
#[derive(Clone, Copy, Debug, PartialEq, Eq, Structural)]
pub enum ChoiceEvent {
    Select,
    NextItem,
    PrevItem,
    NextBlock,
    EnterKey,
    PrevBlock,
    Redraw,
    Cancel,
}

/// A list of items with a cursor and perhaps a selected item.
#[derive(Debug)]
pub struct OneOfWrapper {
    items: Vec<String>,
    cursor: usize,
    selected: Option<usize>,
}

/// The cursor after a move down, if there is an item below.
pub open spec fn cursor_down(cursor: usize, len: nat) -> Option<usize> {
    if cursor + 1 < len {
        Some((cursor + 1) as usize)
    } else {
        None
    }
}

/// The cursor after a move up, if there is an item above.
pub open spec fn cursor_up(cursor: usize) -> Option<usize> {
    if cursor > 0 {
        Some((cursor - 1) as usize)
    } else {
        None
    }
}

/// The cursor, the selection and the ending after an event in a list of
/// `len` items.
pub open spec fn choice_after(
    cursor: usize,
    selected: Option<usize>,
    len: nat,
    event: ChoiceEvent,
) -> (usize, Option<usize>, Option<ResultKind>) {
    match event {
        ChoiceEvent::Select => (cursor, Some(cursor), None),
        ChoiceEvent::NextItem => match cursor_down(cursor, len) {
            Some(c) => (c, selected, None),
            None => (cursor, selected, Some(ResultKind::NextBlock)),
        },
        ChoiceEvent::PrevItem => match cursor_up(cursor) {
            Some(c) => (c, selected, None),
            None => (cursor, selected, Some(ResultKind::PrevBlock)),
        },
        ChoiceEvent::NextBlock => if selected is Some {
            (cursor, selected, Some(ResultKind::NextBlock))
        } else {
            match cursor_down(cursor, len) {
                Some(c) => (c, selected, None),
                None => (cursor, selected, Some(ResultKind::NextBlock)),
            }
        },
        ChoiceEvent::EnterKey => if selected is Some {
            (cursor, selected, Some(ResultKind::Finished))
        } else {
            match cursor_down(cursor, len) {
                Some(c) => (c, selected, None),
                None => (cursor, selected, None),
            }
        },
        ChoiceEvent::PrevBlock => if selected is Some {
            (cursor, selected, Some(ResultKind::PrevBlock))
        } else {
            match cursor_up(cursor) {
                Some(c) => (c, selected, None),
                None => (cursor, selected, Some(ResultKind::PrevBlock)),
            }
        },
        ChoiceEvent::Redraw => (cursor, selected, None),
        ChoiceEvent::Cancel => (cursor, selected, Some(ResultKind::Canceled)),
    }
}

impl OneOfWrapper {
    pub closed spec fn items_spec(&self) -> Seq<Seq<char>> {
        self.items.deep_view()
    }

    pub closed spec fn cursor_spec(&self) -> usize {
        self.cursor
    }

    pub closed spec fn selected_spec(&self) -> Option<usize> {
        self.selected
    }

    /// The cursor and the selection stand on items.
    pub open spec fn wf(&self) -> bool {
        &&& (self.items_spec().len() == 0 ==> self.cursor_spec() == 0)
        &&& (self.items_spec().len() > 0 ==> self.cursor_spec() < self.items_spec().len())
        &&& (self.selected_spec() matches Some(s) ==> s < self.items_spec().len())
    }

    /// A list with the cursor on the first item and nothing selected.
    pub fn new(items: Vec<String>) -> (r: OneOfWrapper)
        ensures
            r.wf(),
            r.items_spec() == items.deep_view(),
            r.cursor_spec() == 0,
            r.selected_spec() is None,
    {
        OneOfWrapper { items, cursor: 0, selected: None }
    }

    pub fn cursor(&self) -> (r: usize)
        ensures
            r == self.cursor_spec(),
    {
        self.cursor
    }

    pub fn selected(&self) -> (r: Option<usize>)
        ensures
            r == self.selected_spec(),
    {
        self.selected
    }

    /// The answer: the position of the selected item, or of the first where
    /// none is selected.
    pub fn finalize(self) -> (r: Vec<String>)
        ensures
            r.deep_view() == seq![
                decimal_of(
                    match self.selected_spec() {
                        Some(s) => s as nat,
                        None => 0,
                    },
                ),
            ],
    {
        let n: u64 = match self.selected {
            Some(s) => s as u64,
            None => 0,
        };
        let mut r: Vec<String> = Vec::new();
        r.push(label("", n, ""));
        proof {
            reveal_strlit("");
        }
        assert(""@ + decimal_of(n as nat) + ""@ =~= decimal_of(n as nat));
        assert(r.deep_view() =~= seq![decimal_of(n as nat)]);
        r
    }

    /// Puts the cursor on the first item; `None` for an empty list.
    pub fn select_first_placeholder(&mut self) -> (r: Option<()>)
        requires
            old(self).wf(),
        ensures
            final(self).wf(),
            r is None <==> old(self).items_spec().len() == 0,
            final(self).cursor_spec() == 0,
            final(self).items_spec() == old(self).items_spec(),
            final(self).selected_spec() == old(self).selected_spec(),
    {
        if self.items.len() == 0 {
            None
        } else {
            self.cursor = 0;
            Some(())
        }
    }

    /// Puts the cursor on the last item; `None` for an empty list.
    pub fn select_last_placeholder(&mut self) -> (r: Option<()>)
        requires
            old(self).wf(),
        ensures
            final(self).wf(),
            r is None <==> old(self).items_spec().len() == 0,
            r is Some ==> final(self).cursor_spec() == old(self).items_spec().len() - 1,
            r is None ==> *final(self) == *old(self),
            final(self).items_spec() == old(self).items_spec(),
            final(self).selected_spec() == old(self).selected_spec(),
    {
        if self.items.len() == 0 {
            None
        } else {
            self.cursor = self.items.len() - 1;
            Some(())
        }
    }

    /// Moves the cursor down: whether there was an item below; `None` for
    /// an empty list.
    pub fn select_next_placeholder(&mut self) -> (r: Option<bool>)
        requires
            old(self).wf(),
        ensures
            final(self).wf(),
            r is None <==> old(self).items_spec().len() == 0,
            r is Some ==> r->Some_0 == (cursor_down(
                old(self).cursor_spec(),
                old(self).items_spec().len(),
            ) is Some),
            final(self).cursor_spec() == match cursor_down(
                old(self).cursor_spec(),
                old(self).items_spec().len(),
            ) {
                Some(c) => c,
                None => old(self).cursor_spec(),
            },
            final(self).items_spec() == old(self).items_spec(),
            final(self).selected_spec() == old(self).selected_spec(),
    {
        if self.items.len() == 0 {
            None
        } else if self.cursor + 1 < self.items.len() {
            self.cursor = self.cursor + 1;
            Some(true)
        } else {
            Some(false)
        }
    }

    /// Moves the cursor up: whether there was an item above; `None` for an
    /// empty list.
    pub fn select_prev_placeholder(&mut self) -> (r: Option<bool>)
        requires
            old(self).wf(),
        ensures
            final(self).wf(),
            r is None <==> old(self).items_spec().len() == 0,
            r is Some ==> r->Some_0 == (cursor_up(old(self).cursor_spec()) is Some),
            final(self).cursor_spec() == match cursor_up(old(self).cursor_spec()) {
                Some(c) => c,
                None => old(self).cursor_spec(),
            },
            final(self).items_spec() == old(self).items_spec(),
            final(self).selected_spec() == old(self).selected_spec(),
    {
        if self.items.len() == 0 {
            None
        } else if self.cursor > 0 {
            self.cursor = self.cursor - 1;
            Some(true)
        } else {
            Some(false)
        }
    }

    /// Applies what the user did in a non-empty list; how it ends the input,
    /// if it does.
    pub fn handle_event(&mut self, event: ChoiceEvent) -> (r: Option<ResultKind>)
        requires
            old(self).wf(),
            old(self).items_spec().len() > 0,
        ensures
            final(self).wf(),
            (final(self).cursor_spec(), final(self).selected_spec(), r) == choice_after(
                old(self).cursor_spec(),
                old(self).selected_spec(),
                old(self).items_spec().len(),
                event,
            ),
            final(self).items_spec() == old(self).items_spec(),
    {
        match event {
            ChoiceEvent::Select => {
                self.selected = Some(self.cursor);
                None
            },
            ChoiceEvent::NextItem => {
                if self.select_next_placeholder() == Some(true) {
                    None
                } else {
                    Some(ResultKind::NextBlock)
                }
            },
            ChoiceEvent::PrevItem => {
                if self.select_prev_placeholder() == Some(true) {
                    None
                } else {
                    Some(ResultKind::PrevBlock)
                }
            },
            ChoiceEvent::NextBlock => {
                if self.selected.is_some() {
                    Some(ResultKind::NextBlock)
                } else if self.select_next_placeholder() == Some(true) {
                    None
                } else {
                    Some(ResultKind::NextBlock)
                }
            },
            ChoiceEvent::EnterKey => {
                if self.selected.is_some() {
                    Some(ResultKind::Finished)
                } else {
                    let _ = self.select_next_placeholder();
                    None
                }
            },
            ChoiceEvent::PrevBlock => {
                if self.selected.is_some() {
                    Some(ResultKind::PrevBlock)
                } else if self.select_prev_placeholder() == Some(true) {
                    None
                } else {
                    Some(ResultKind::PrevBlock)
                }
            },
            ChoiceEvent::Redraw => None,
            ChoiceEvent::Cancel => Some(ResultKind::Canceled),
        }
    }
}

} // verus!
