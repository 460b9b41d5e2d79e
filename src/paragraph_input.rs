//! Filling in the blanks of a paragraph, key by key: the keys go to the
//! current blank, and finishing a blank moves on to the next one.

use crate::blocks::ParagraphItem;
use crate::editor::{added_len, after_event, ending, BlankField, Event, ResultKind};
use vstd::prelude::*;

verus! {

/// A piece of a paragraph being filled in: text, or a blank being edited.
#[derive(Debug)]
pub enum ParagraphItemWrapper {
    Text(String),
    Placeholder(BlankField),
}

impl ParagraphItemWrapper {
    pub open spec fn wf(&self) -> bool {
        match self {
            ParagraphItemWrapper::Placeholder(b) => b.wf(),
            ParagraphItemWrapper::Text(_) => true,
        }
    }

    /// The text of a blank.
    pub open spec fn blank_text(&self) -> Option<Seq<char>> {
        match self {
            ParagraphItemWrapper::Placeholder(b) => Some(b.text_spec()),
            ParagraphItemWrapper::Text(_) => None,
        }
    }

    /// A piece ready for editing: a blank starts empty.
    pub fn from_item(item: ParagraphItem) -> (r: ParagraphItemWrapper)
        ensures
            r.wf(),
            r.blank_text() == match item {
                ParagraphItem::Placeholder => Some(Seq::<char>::empty()),
                ParagraphItem::Text(_) => None::<Seq<char>>,
            },
    {
        match item {
            ParagraphItem::Text(s) => ParagraphItemWrapper::Text(s),
            ParagraphItem::Placeholder => ParagraphItemWrapper::Placeholder(BlankField::new()),
        }
    }

    pub fn is_placeholder(&self) -> (r: bool)
        ensures
            r == (self.blank_text() is Some),
    {
        match self {
            ParagraphItemWrapper::Placeholder(_) => true,
            ParagraphItemWrapper::Text(_) => false,
        }
    }

    /// The text of a blank; the piece itself where it is text.
    pub fn finalize(self) -> (r: Result<String, ParagraphItemWrapper>)
        ensures
            r is Ok <==> self.blank_text() is Some,
            r is Ok ==> r->Ok_0@ == self.blank_text()->Some_0,
            r is Err ==> r->Err_0 == self,
    {
        match self {
            ParagraphItemWrapper::Placeholder(b) => Ok(b.text()),
            other => Err(other),
        }
    }
}

/// Item `j` of a paragraph is a blank.
pub open spec fn is_blank(items: Seq<ParagraphItemWrapper>, j: int) -> bool {
    items[j].blank_text() is Some
}

/// `j` is the first blank after `start`.
pub open spec fn is_next_blank(items: Seq<ParagraphItemWrapper>, start: int, j: int) -> bool {
    &&& start < j < items.len()
    &&& is_blank(items, j)
    &&& forall|k: int| start < k < j ==> !#[trigger] is_blank(items, k)
}

/// `j` is the last blank before `start`.
pub open spec fn is_prev_blank(items: Seq<ParagraphItemWrapper>, start: int, j: int) -> bool {
    &&& 0 <= j < start
    &&& is_blank(items, j)
    &&& forall|k: int| j < k < start ==> !#[trigger] is_blank(items, k)
}

/// The texts of the blanks, in order.
pub open spec fn blank_texts(items: Seq<ParagraphItemWrapper>) -> Seq<Seq<char>>
    decreases items.len(),
{
    if items.len() == 0 {
        Seq::empty()
    } else {
        let init = blank_texts(items.drop_last());
        match items.last().blank_text() {
            Some(t) => init.push(t),
            None => init,
        }
    }
}

/// The text of a blank after an event.
pub open spec fn edited_text(item: ParagraphItemWrapper, event: &Event) -> Seq<char> {
    match item {
        ParagraphItemWrapper::Placeholder(b) => after_event(b.text_spec(), b.cursor_spec(), event).0,
        ParagraphItemWrapper::Text(_) => Seq::empty(),
    }
}

/// A paragraph being filled in, with the current piece.
#[derive(Debug)]
pub struct ParagraphWrapper {
    items: Vec<ParagraphItemWrapper>,
    cursor: usize,
}

impl ParagraphWrapper {
    pub closed spec fn items_spec(&self) -> Seq<ParagraphItemWrapper> {
        self.items@
    }

    pub closed spec fn cursor_spec(&self) -> usize {
        self.cursor
    }

    /// Every blank is well formed, and the cursor stands on a piece.
    pub open spec fn wf(&self) -> bool {
        &&& forall|j: int| 0 <= j < self.items_spec().len() ==> (#[trigger] self.items_spec()[j]).wf()
        &&& (self.items_spec().len() > 0 ==> self.cursor_spec() < self.items_spec().len())
        &&& (self.items_spec().len() == 0 ==> self.cursor_spec() == 0)
    }

    /// A paragraph ready for filling in, with the cursor on its first piece.
    pub fn new(paragraph: Vec<ParagraphItem>) -> (r: ParagraphWrapper)
        ensures
            r.wf(),
            r.cursor_spec() == 0,
            r.items_spec().len() == paragraph@.len(),
            forall|j: int|
                0 <= j < paragraph@.len() ==> (#[trigger] r.items_spec()[j]).blank_text() == match paragraph@[j] {
                    ParagraphItem::Placeholder => Some(Seq::<char>::empty()),
                    ParagraphItem::Text(_) => None::<Seq<char>>,
                },
    {
        let mut items: Vec<ParagraphItemWrapper> = Vec::new();
        let mut rest = paragraph;
        let ghost p = rest@;
        let mut i: usize = 0;
        let n = rest.len();
        while i < n
            invariant
                n == p.len(),
                i <= n,
                rest@ == p.subrange(i as int, n as int),
                items@.len() == i,
                forall|j: int| 0 <= j < i ==> (#[trigger] items@[j]).wf(),
                forall|j: int|
                    0 <= j < i ==> (#[trigger] items@[j]).blank_text() == match p[j] {
                        ParagraphItem::Placeholder => Some(Seq::<char>::empty()),
                        ParagraphItem::Text(_) => None::<Seq<char>>,
                    },
            decreases n - i,
        {
            let item = rest.remove(0);
            items.push(ParagraphItemWrapper::from_item(item));
            i += 1;
            proof {
                assert(rest@ =~= p.subrange(i as int, n as int));
            }
        }
        ParagraphWrapper { items, cursor: 0 }
    }

    pub fn cursor(&self) -> (r: usize)
        ensures
            r == self.cursor_spec(),
    {
        self.cursor
    }

    /// Moves the cursor to the next blank: whether there is one (else the
    /// cursor stays).
    pub fn select_next_placeholder(&mut self) -> (r: bool)
        requires
            old(self).wf(),
        ensures
            final(self).wf(),
            final(self).items_spec() == old(self).items_spec(),
            r ==> is_next_blank(
                old(self).items_spec(),
                old(self).cursor_spec() as int,
                final(self).cursor_spec() as int,
            ),
            !r ==> final(self).cursor_spec() == old(self).cursor_spec() && forall|k: int|
                old(self).cursor_spec() < k < old(self).items_spec().len() ==> !#[trigger] is_blank(
                    old(self).items_spec(),
                    k,
                ),
    {
        if self.items.len() == 0 {
            return false;
        }
        let start = self.cursor;
        let mut k = start + 1;
        while k < self.items.len() && !self.items[k].is_placeholder()
            invariant
                self.wf(),
                self.cursor == start,
                self.items@ == old(self).items@,
                start < self.items@.len(),
                start < k <= self.items@.len(),
                forall|m: int| start < m < k ==> !#[trigger] is_blank(self.items@, m),
            decreases self.items.len() - k,
        {
            k += 1;
        }
        if k < self.items.len() {
            self.cursor = k;
            true
        } else {
            false
        }
    }

    /// Moves the cursor to the blank before: whether there is one (else the
    /// cursor stays).
    pub fn select_prev_placeholder(&mut self) -> (r: bool)
        requires
            old(self).wf(),
        ensures
            final(self).wf(),
            final(self).items_spec() == old(self).items_spec(),
            r ==> is_prev_blank(
                old(self).items_spec(),
                old(self).cursor_spec() as int,
                final(self).cursor_spec() as int,
            ),
            !r ==> final(self).cursor_spec() == old(self).cursor_spec() && forall|k: int|
                0 <= k < old(self).cursor_spec() ==> !#[trigger] is_blank(old(self).items_spec(), k),
    {
        let start = self.cursor;
        let mut k = start;
        while k > 0 && !self.items[k - 1].is_placeholder()
            invariant
                self.wf(),
                self.cursor == start,
                self.items@ == old(self).items@,
                k <= start,
                self.items@.len() > 0 ==> start < self.items@.len(),
                self.items@.len() == 0 ==> start == 0,
                forall|m: int| k <= m < start ==> !#[trigger] is_blank(self.items@, m),
            decreases k,
        {
            k -= 1;
        }
        if k > 0 {
            self.cursor = k - 1;
            true
        } else {
            false
        }
    }

    /// Puts the cursor on the first blank; `None` where there is none.
    pub fn select_first_placeholder(&mut self) -> (r: Option<()>)
        requires
            old(self).wf(),
        ensures
            final(self).wf(),
            final(self).items_spec() == old(self).items_spec(),
            r is Some <==> exists|j: int| 0 <= j < old(self).items_spec().len() && is_blank(old(self).items_spec(), j),
            r is Some ==> is_next_blank(old(self).items_spec(), -1, final(self).cursor_spec() as int),
    {
        self.cursor = 0;
        if self.items.len() == 0 {
            return None;
        }
        if self.items[0].is_placeholder() {
            assert(is_blank(self.items@, 0));
            return Some(());
        }
        if self.select_next_placeholder() {
            assert(is_blank(self.items@, self.cursor as int));
            Some(())
        } else {
            proof {
                assert forall|j: int| 0 <= j < self.items@.len() implies !is_blank(self.items@, j) by {
                    if j > 0 {
                        assert(!is_blank(self.items@, j));
                    }
                }
            }
            None
        }
    }

    /// Puts the cursor on the last blank; `None` where there is none.
    pub fn select_last_placeholder(&mut self) -> (r: Option<()>)
        requires
            old(self).wf(),
        ensures
            final(self).wf(),
            final(self).items_spec() == old(self).items_spec(),
            r is Some <==> exists|j: int| 0 <= j < old(self).items_spec().len() && is_blank(old(self).items_spec(), j),
            r is Some ==> is_prev_blank(
                old(self).items_spec(),
                old(self).items_spec().len() as int,
                final(self).cursor_spec() as int,
            ),
    {
        if self.items.len() == 0 {
            return None;
        }
        self.cursor = self.items.len() - 1;
        if self.items[self.items.len() - 1].is_placeholder() {
            assert(is_blank(self.items@, self.items@.len() - 1));
            return Some(());
        }
        if self.select_prev_placeholder() {
            assert(is_blank(self.items@, self.cursor as int));
            Some(())
        } else {
            proof {
                let n = self.items@.len();
                assert forall|j: int| 0 <= j < n implies !is_blank(self.items@, j) by {
                    if j < n - 1 {
                        assert(!is_blank(self.items@, j));
                    }
                }
            }
            None
        }
    }

    /// What follows the end of the input of the current blank: finishing it
    /// or moving forward goes to the next blank, moving back to the blank
    /// before; the paragraph's input ends where there is none, or on a
    /// cancel.
    pub fn after_blank(&mut self, kind: ResultKind) -> (r: Option<ResultKind>)
        requires
            old(self).wf(),
        ensures
            final(self).wf(),
            final(self).items_spec() == old(self).items_spec(),
            kind == ResultKind::Canceled ==> r == Some(ResultKind::Canceled)
                && final(self).cursor_spec() == old(self).cursor_spec(),
            (kind == ResultKind::Finished || kind == ResultKind::NextBlock) ==> (r is None
                <==> exists|j: int| is_next_blank(old(self).items_spec(), old(self).cursor_spec() as int, j))
                && (r is None ==> is_next_blank(
                old(self).items_spec(),
                old(self).cursor_spec() as int,
                final(self).cursor_spec() as int,
            )) && (r is Some ==> r == Some(kind)),
            kind == ResultKind::PrevBlock ==> (r is None <==> exists|j: int|
                is_prev_blank(old(self).items_spec(), old(self).cursor_spec() as int, j)) && (r is None
                ==> is_prev_blank(
                old(self).items_spec(),
                old(self).cursor_spec() as int,
                final(self).cursor_spec() as int,
            )) && (r is Some ==> r == Some(ResultKind::PrevBlock)),
    {
        match kind {
            ResultKind::Canceled => Some(ResultKind::Canceled),
            ResultKind::PrevBlock => {
                if self.select_prev_placeholder() {
                    None
                } else {
                    Some(ResultKind::PrevBlock)
                }
            },
            _ => {
                if self.select_next_placeholder() {
                    None
                } else {
                    Some(kind)
                }
            },
        }
    }

    /// Hands an event to the current blank; where that ends the blank's
    /// input, moves on as [`ParagraphWrapper::after_blank`] says.
    pub fn handle_event(&mut self, event: Event) -> (r: Option<ResultKind>)
        requires
            old(self).wf(),
            old(self).items_spec().len() > 0,
            is_blank(old(self).items_spec(), old(self).cursor_spec() as int),
            old(self).items_spec()[old(self).cursor_spec() as int].blank_text()->Some_0.len()
                + added_len(&event) < usize::MAX,
        ensures
            final(self).wf(),
            final(self).items_spec().len() == old(self).items_spec().len(),
            forall|j: int|
                0 <= j < old(self).items_spec().len() && j != old(self).cursor_spec()
                    ==> final(self).items_spec()[j] == old(self).items_spec()[j],
            final(self).items_spec()[old(self).cursor_spec() as int].blank_text() == Some(
                edited_text(old(self).items_spec()[old(self).cursor_spec() as int], &event),
            ),
            ending(&event) is None ==> r is None && final(self).cursor_spec() == old(self).cursor_spec(),
            ending(&event) == Some(ResultKind::Canceled) ==> r == Some(ResultKind::Canceled),
            (ending(&event) == Some(ResultKind::Finished) || ending(&event) == Some(
                ResultKind::NextBlock,
            )) ==> (r is None ==> is_next_blank(
                old(self).items_spec(),
                old(self).cursor_spec() as int,
                final(self).cursor_spec() as int,
            )) && (r is Some ==> r == ending(&event)),
            ending(&event) == Some(ResultKind::PrevBlock) ==> (r is None ==> is_prev_blank(
                old(self).items_spec(),
                old(self).cursor_spec() as int,
                final(self).cursor_spec() as int,
            )) && (r is Some ==> r == ending(&event)),
    {
        let item = self.items.remove(self.cursor);
        match item {
            ParagraphItemWrapper::Placeholder(mut b) => {
                let ending = b.handle_event(event);
                self.items.insert(self.cursor, ParagraphItemWrapper::Placeholder(b));
                proof {
                    assert forall|j: int|
                        0 <= j < old(self).items@.len() && j != self.cursor implies self.items@[j]
                        == old(self).items@[j] by {}
                    assert forall|j: int| 0 <= j < self.items@.len() implies (#[trigger] self.items@[j]).wf() by {
                        if j != self.cursor {
                            assert(self.items@[j] == old(self).items@[j]);
                        }
                    }
                }
                proof {
                    assert forall|k: int| 0 <= k < self.items@.len() implies #[trigger] is_blank(
                        self.items@,
                        k,
                    ) == is_blank(old(self).items@, k) by {
                        if k != self.cursor {
                            assert(self.items@[k] == old(self).items@[k]);
                        }
                    }
                }
                let ghost mid = self.items@;
                let ghost c0 = self.cursor as int;
                let r = match ending {
                    Some(kind) => self.after_blank(kind),
                    None => None,
                };
                proof {
                    let c1 = self.cursor as int;
                    if is_next_blank(mid, c0, c1) {
                        assert(is_blank(mid, c1));
                        assert forall|k: int| c0 < k < c1 implies !#[trigger] is_blank(
                            old(self).items@,
                            k,
                        ) by {
                            assert(!is_blank(mid, k));
                        }
                    }
                    if is_prev_blank(mid, c0, c1) {
                        assert(is_blank(mid, c1));
                        assert forall|k: int| c1 < k < c0 implies !#[trigger] is_blank(
                            old(self).items@,
                            k,
                        ) by {
                            assert(!is_blank(mid, k));
                        }
                    }
                }
                r
            },
            other => {
                self.items.insert(self.cursor, other);
                proof {
                    assert(false);
                }
                None
            },
        }
    }

    /// The text of each blank, in order.
    pub fn finalize(self) -> (r: Vec<String>)
        ensures
            r.deep_view() == blank_texts(self.items_spec()),
    {
        let mut out: Vec<String> = Vec::new();
        let mut rest = self.items;
        let ghost p = rest@;
        let n = rest.len();
        let mut i: usize = 0;
        proof {
            assert(p.take(0) =~= Seq::<ParagraphItemWrapper>::empty());
            assert(out.deep_view() =~= Seq::<Seq<char>>::empty());
        }
        while i < n
            invariant
                n == p.len(),
                i <= n,
                rest@ == p.subrange(i as int, n as int),
                out.deep_view() == blank_texts(p.take(i as int)),
            decreases n - i,
        {
            let item = rest.remove(0);
            proof {
                assert(p.take(i + 1).drop_last() =~= p.take(i as int));
                assert(item == p[i as int]);
            }
            let ghost before = out.deep_view();
            match item.finalize() {
                Ok(t) => {
                    out.push(t);
                    proof {
                        assert(out.deep_view() =~= before.push(t@));
                    }
                },
                Err(_) => {},
            }
            i += 1;
            proof {
                assert(rest@ =~= p.subrange(i as int, n as int));
            }
        }
        proof {
            assert(p.take(n as int) =~= p);
        }
        out
    }
}

} // verus!
