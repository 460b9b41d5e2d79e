//! Text fields edited key by key: a one-line blank and a multi-line input.
//! Reading keys from the terminal is the caller's part; what each key does
//! is decided here.

use crate::blocks::{trim_of, trimmed};
use vstd::prelude::*;

verus! {

/// How an input ended.
#[derive(Clone, Copy, Debug, PartialEq, Eq, Structural)]
pub enum ResultKind {
    Finished,
    Canceled,
    NextBlock,
    PrevBlock,
}

/// What the user did.
#[derive(Debug)]
pub enum Event {
    AddChar(char),
    RemoveCurrentChar,
    RemoveNextChar,
    MoveCursorLeft,
    MoveCursorRight,
    Finish,
    NextField,
    PrevField,
    Redraw,
    AddString(String),
    Cancel,
}

/// Relies on `FromIterator<char>` for `String`: the characters in order.
#[verifier::external_body]
fn collect_chars(v: &Vec<char>) -> (r: String)
    ensures
        r@ == v@,
{
    v.iter().collect()
}

/// Relies on `str::chars`: the characters of the text in order.
#[verifier::external_body]
fn chars_of(s: &String) -> (r: Vec<char>)
    ensures
        r@ == s@,
{
    s.chars().collect()
}

/// The text after typing `c` at the cursor.
pub open spec fn typed(text: Seq<char>, cursor: usize, c: char) -> Seq<char> {
    text.insert(cursor as int, c)
}

/// The cursor after a move to the left.
pub open spec fn left_of(cursor: usize) -> usize {
    if cursor > 0 {
        (cursor - 1) as usize
    } else {
        0
    }
}

/// The cursor after a move to the right, within `len`.
pub open spec fn right_of(cursor: usize, len: nat) -> usize {
    if cursor < len {
        (cursor + 1) as usize
    } else {
        len as usize
    }
}

/// The text and cursor after an event: typing inserts at the cursor and
/// moves it past what was typed; the deleting keys remove the character
/// before or after the cursor, where there is one; the arrows move the
/// cursor within the text; the other events change nothing.
pub open spec fn after_event(text: Seq<char>, cursor: usize, event: &Event) -> (Seq<char>, usize) {
    match event {
        Event::AddChar(c) => (typed(text, cursor, *c), (cursor + 1) as usize),
        Event::RemoveCurrentChar => if cursor > 0 {
            (text.remove(cursor - 1), (cursor - 1) as usize)
        } else {
            (text, cursor)
        },
        Event::RemoveNextChar => if cursor < text.len() {
            (text.remove(cursor as int), cursor)
        } else {
            (text, cursor)
        },
        Event::MoveCursorLeft => (text, left_of(cursor)),
        Event::MoveCursorRight => (text, right_of(cursor, text.len())),
        Event::AddString(s) => (
            text.take(cursor as int) + s@ + text.skip(cursor as int),
            (cursor + s@.len()) as usize,
        ),
        _ => (text, cursor),
    }
}

/// How an event ends the input, if it does.
pub open spec fn ending(event: &Event) -> Option<ResultKind> {
    match event {
        Event::Finish => Some(ResultKind::Finished),
        Event::NextField => Some(ResultKind::NextBlock),
        Event::PrevField => Some(ResultKind::PrevBlock),
        Event::Cancel => Some(ResultKind::Canceled),
        _ => None,
    }
}

/// The length of text that an event may add.
pub open spec fn added_len(event: &Event) -> nat {
    match event {
        Event::AddChar(_) => 1,
        Event::AddString(s) => s@.len(),
        _ => 0,
    }
}

/// A text with a cursor, shared by both kinds of field.
#[derive(Debug)]
struct Cursor {
    text: Vec<char>,
    cursor: usize,
}

impl Cursor {
    spec fn wf(&self) -> bool {
        self.cursor <= self.text@.len()
    }

    fn add_char(&mut self, c: char)
        requires
            old(self).wf(),
            old(self).text@.len() < usize::MAX,
        ensures
            final(self).wf(),
            final(self).text@ == typed(old(self).text@, old(self).cursor, c),
            final(self).cursor == old(self).cursor + 1,
    {
        self.text.insert(self.cursor, c);
        self.cursor = self.cursor + 1;
    }

    fn remove_current_char(&mut self)
        requires
            old(self).wf(),
        ensures
            final(self).wf(),
            old(self).cursor > 0 ==> final(self).text@ == old(self).text@.remove(
                old(self).cursor - 1,
            ) && final(self).cursor == old(self).cursor - 1,
            old(self).cursor == 0 ==> *final(self) == *old(self),
    {
        if self.cursor != 0 {
            self.text.remove(self.cursor - 1);
            self.cursor = self.cursor - 1;
        }
    }

    fn remove_next_char(&mut self)
        requires
            old(self).wf(),
        ensures
            final(self).wf(),
            old(self).cursor < old(self).text@.len() ==> final(self).text@ == old(self).text@.remove(
                old(self).cursor as int,
            ) && final(self).cursor == old(self).cursor,
            old(self).cursor == old(self).text@.len() ==> *final(self) == *old(self),
    {
        if self.cursor < self.text.len() {
            self.text.remove(self.cursor);
        }
    }

    fn move_cursor_left(&mut self)
        requires
            old(self).wf(),
        ensures
            final(self).wf(),
            final(self).text == old(self).text,
            final(self).cursor == left_of(old(self).cursor),
    {
        if self.cursor > 0 {
            self.cursor = self.cursor - 1;
        }
    }

    fn move_cursor_right(&mut self)
        requires
            old(self).wf(),
        ensures
            final(self).wf(),
            final(self).text == old(self).text,
            final(self).cursor == right_of(old(self).cursor, old(self).text@.len()),
    {
        if self.cursor < self.text.len() {
            self.cursor = self.cursor + 1;
        } else {
            self.cursor = self.text.len();
        }
    }

    fn add_string(&mut self, s: &String)
        requires
            old(self).wf(),
            old(self).text@.len() + s@.len() < usize::MAX,
        ensures
            final(self).wf(),
            final(self).text@ == old(self).text@.take(old(self).cursor as int) + s@
                + old(self).text@.skip(old(self).cursor as int),
            final(self).cursor == old(self).cursor + s@.len(),
    {
        let chars = chars_of(s);
        let ghost t0 = self.text@;
        let ghost c0 = self.cursor as int;
        let mut i: usize = 0;
        while i < chars.len()
            invariant
                chars@ == s@,
                t0 == old(self).text@,
                c0 == old(self).cursor,
                0 <= c0 <= t0.len(),
                t0.len() + s@.len() < usize::MAX,
                i <= chars.len(),
                self.wf(),
                self.cursor == c0 + i,
                self.text@ == t0.take(c0) + chars@.take(i as int) + t0.skip(c0),
            decreases chars.len() - i,
        {
            self.add_char(chars[i]);
            proof {
                assert(chars@.take(i + 1) =~= chars@.take(i as int).push(chars@[i as int]));
                assert(self.text@ =~= t0.take(c0) + chars@.take(i + 1) + t0.skip(c0));
            }
            i += 1;
        }
        proof {
            assert(chars@.take(chars.len() as int) =~= chars@);
        }
    }

    /// Applies an event; how it ends the input, if it does.
    fn handle_event(&mut self, event: Event) -> (r: Option<ResultKind>)
        requires
            old(self).wf(),
            old(self).text@.len() + added_len(&event) < usize::MAX,
        ensures
            final(self).wf(),
            r == ending(&event),
            (final(self).text@, final(self).cursor) == after_event(
                old(self).text@,
                old(self).cursor,
                &event,
            ),
    {
        match event {
            Event::AddChar(c) => self.add_char(c),
            Event::RemoveCurrentChar => self.remove_current_char(),
            Event::RemoveNextChar => self.remove_next_char(),
            Event::MoveCursorLeft => self.move_cursor_left(),
            Event::MoveCursorRight => self.move_cursor_right(),
            Event::Finish => return Some(ResultKind::Finished),
            Event::NextField => return Some(ResultKind::NextBlock),
            Event::PrevField => return Some(ResultKind::PrevBlock),
            Event::Redraw => {},
            Event::AddString(s) => self.add_string(&s),
            Event::Cancel => return Some(ResultKind::Canceled),
        }
        None
    }
}

/// A one-line blank to fill in.
#[derive(Debug)]
pub struct BlankField {
    inner: Cursor,
}

/// A text of several lines; a line break is a character like any other.
#[derive(Debug)]
pub struct MultilineInput {
    inner: Cursor,
}

impl BlankField {
    pub closed spec fn text_spec(&self) -> Seq<char> {
        self.inner.text@
    }

    pub closed spec fn cursor_spec(&self) -> usize {
        self.inner.cursor
    }

    pub open spec fn wf(&self) -> bool {
        self.cursor_spec() <= self.text_spec().len()
    }

    /// An empty field.
    pub fn new() -> (r: BlankField)
        ensures
            r.wf(),
            r.text_spec() == Seq::<char>::empty(),
            r.cursor_spec() == 0,
    {
        BlankField { inner: Cursor { text: Vec::new(), cursor: 0 } }
    }

    pub fn text(&self) -> (r: String)
        ensures
            r@ == self.text_spec(),
    {
        collect_chars(&self.inner.text)
    }

    pub fn cursor(&self) -> (r: usize)
        ensures
            r == self.cursor_spec(),
    {
        self.inner.cursor
    }

    /// Whether the field holds nothing but white space.
    pub fn is_empty(&self) -> (r: bool)
        ensures
            r == (trim_of(self.text_spec()).len() == 0),
    {
        let t = self.text();
        trimmed(&t).as_str().is_empty()
    }

    /// Applies what the user did (see [`after_event`]); how it ends the
    /// input, if it does.
    pub fn handle_event(&mut self, event: Event) -> (r: Option<ResultKind>)
        requires
            old(self).wf(),
            old(self).text_spec().len() + added_len(&event) < usize::MAX,
        ensures
            final(self).wf(),
            r == ending(&event),
            (final(self).text_spec(), final(self).cursor_spec()) == after_event(
                old(self).text_spec(),
                old(self).cursor_spec(),
                &event,
            ),
    {
        self.inner.handle_event(event)
    }
}

impl MultilineInput {
    pub closed spec fn text_spec(&self) -> Seq<char> {
        self.inner.text@
    }

    pub closed spec fn cursor_spec(&self) -> usize {
        self.inner.cursor
    }

    pub open spec fn wf(&self) -> bool {
        self.cursor_spec() <= self.text_spec().len()
    }

    /// An empty input.
    pub fn new() -> (r: MultilineInput)
        ensures
            r.wf(),
            r.text_spec() == Seq::<char>::empty(),
            r.cursor_spec() == 0,
    {
        MultilineInput { inner: Cursor { text: Vec::new(), cursor: 0 } }
    }

    pub fn text(&self) -> (r: String)
        ensures
            r@ == self.text_spec(),
    {
        collect_chars(&self.inner.text)
    }

    pub fn cursor(&self) -> (r: usize)
        ensures
            r == self.cursor_spec(),
    {
        self.inner.cursor
    }

    /// Applies what the user did, as [`BlankField::handle_event`] does.
    pub fn handle_event(&mut self, event: Event) -> (r: Option<ResultKind>)
        requires
            old(self).wf(),
            old(self).text_spec().len() + added_len(&event) < usize::MAX,
        ensures
            final(self).wf(),
            r == ending(&event),
            (final(self).text_spec(), final(self).cursor_spec()) == after_event(
                old(self).text_spec(),
                old(self).cursor_spec(),
                &event,
            ),
    {
        self.inner.handle_event(event)
    }
}

} // verus!
