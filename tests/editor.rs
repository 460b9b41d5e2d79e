use ssr::blocks::{Block, ParagraphItem};
use ssr::editor::{BlankField, Event, MultilineInput, ResultKind};
use ssr::telegram::TelegramInteraction;

#[test]
fn blank_field_typing_and_deleting() {
    let mut f = BlankField::new();
    assert!(f.is_empty());
    for c in "abc".chars() {
        assert_eq!(f.handle_event(Event::AddChar(c)), None);
    }
    assert_eq!(f.text(), "abc");
    f.handle_event(Event::MoveCursorLeft);
    f.handle_event(Event::RemoveCurrentChar);
    assert_eq!(f.text(), "ac");
    assert_eq!(f.cursor(), 1);
    f.handle_event(Event::RemoveNextChar);
    assert_eq!(f.text(), "a");
    f.handle_event(Event::RemoveNextChar);
    assert_eq!(f.text(), "a");
    f.handle_event(Event::MoveCursorLeft);
    f.handle_event(Event::MoveCursorLeft);
    assert_eq!(f.cursor(), 0);
    f.handle_event(Event::RemoveCurrentChar);
    assert_eq!(f.text(), "a");
    f.handle_event(Event::AddString("xy".to_string()));
    assert_eq!(f.text(), "xya");
    assert_eq!(f.cursor(), 2);
    f.handle_event(Event::MoveCursorRight);
    f.handle_event(Event::MoveCursorRight);
    assert_eq!(f.cursor(), 3);
    f.handle_event(Event::Redraw);
    assert_eq!(f.handle_event(Event::Finish), Some(ResultKind::Finished));
    assert_eq!(f.text(), "xya");
}

#[test]
fn blank_field_endings() {
    let mut f = BlankField::new();
    assert_eq!(f.handle_event(Event::NextField), Some(ResultKind::NextBlock));
    assert_eq!(f.handle_event(Event::PrevField), Some(ResultKind::PrevBlock));
    assert_eq!(f.handle_event(Event::Cancel), Some(ResultKind::Canceled));
}

#[test]
fn blank_field_of_spaces_is_empty() {
    let mut f = BlankField::new();
    f.handle_event(Event::AddString(" \t ".to_string()));
    assert!(f.is_empty());
    f.handle_event(Event::AddChar('x'));
    assert!(!f.is_empty());
}

#[test]
fn multiline_input_keeps_line_breaks() {
    let mut m = MultilineInput::new();
    m.handle_event(Event::AddString("one".to_string()));
    m.handle_event(Event::AddChar('\n'));
    m.handle_event(Event::AddString("two".to_string()));
    assert_eq!(m.text(), "one\ntwo");
    assert_eq!(m.cursor(), 7);
}

#[test]
fn telegram_pieces_become_blocks() {
    match TelegramInteraction::Image("/tmp/cat.png".to_string()).into_block() {
        Block::Paragraph(items) => {
            assert!(matches!(&items[..], [ParagraphItem::Text(t)] if t == "image: /tmp/cat.png"))
        }
        other => panic!("unexpected {other:?}"),
    }
    assert!(matches!(TelegramInteraction::UserInput.into_block(),
        Block::Paragraph(items) if matches!(&items[..], [ParagraphItem::Placeholder])));
    assert!(matches!(TelegramInteraction::OneOf(vec!["a".to_string()]).into_block(),
        Block::OneOf(items) if items == vec!["a".to_string()]));
}

#[test]
fn blocks_become_telegram_pieces() {
    let text = Block::Paragraph(vec![ParagraphItem::Text("hi".to_string())]);
    assert!(matches!(TelegramInteraction::from_block(text),
        Ok(TelegramInteraction::Text(t)) if t == "hi"));
    let two = Block::Paragraph(vec![ParagraphItem::Placeholder, ParagraphItem::Placeholder]);
    assert_eq!(
        TelegramInteraction::from_block(two).unwrap_err(),
        "Paragraph must contain exactly one item"
    );
    assert_eq!(
        TelegramInteraction::from_block(Block::AnyOf(vec![])).unwrap_err(),
        "Unsupported block type"
    );
}
