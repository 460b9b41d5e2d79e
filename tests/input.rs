use ssr::blocks::{Block, ParagraphItem};
use ssr::blocks_input::BlocksWrapper;
use ssr::choice::{ChoiceEvent, OneOfWrapper};
use ssr::editor::{Event, ResultKind};
use ssr::paragraph_input::{ParagraphItemWrapper, ParagraphWrapper};

fn items() -> Vec<String> {
    vec!["a".to_string(), "b".to_string(), "c".to_string()]
}

#[test]
fn choice_moves_and_selects() {
    let mut o = OneOfWrapper::new(items());
    assert_eq!(o.handle_event(ChoiceEvent::PrevItem), Some(ResultKind::PrevBlock));
    assert_eq!(o.handle_event(ChoiceEvent::NextItem), None);
    assert_eq!(o.cursor(), 1);
    assert_eq!(o.handle_event(ChoiceEvent::EnterKey), None);
    assert_eq!(o.cursor(), 2);
    assert_eq!(o.handle_event(ChoiceEvent::NextItem), Some(ResultKind::NextBlock));
    assert_eq!(o.handle_event(ChoiceEvent::Select), None);
    assert_eq!(o.selected(), Some(2));
    assert_eq!(o.handle_event(ChoiceEvent::EnterKey), Some(ResultKind::Finished));
    assert_eq!(o.handle_event(ChoiceEvent::NextBlock), Some(ResultKind::NextBlock));
    assert_eq!(o.handle_event(ChoiceEvent::Cancel), Some(ResultKind::Canceled));
    assert_eq!(o.finalize(), vec!["2".to_string()]);
}

#[test]
fn choice_without_selection_answers_first() {
    let mut o = OneOfWrapper::new(items());
    assert_eq!(o.select_last_placeholder(), Some(()));
    assert_eq!(o.cursor(), 2);
    assert_eq!(o.select_next_placeholder(), Some(false));
    assert_eq!(o.select_prev_placeholder(), Some(true));
    assert_eq!(o.finalize(), vec!["0".to_string()]);
    let mut empty = OneOfWrapper::new(vec![]);
    assert_eq!(empty.select_first_placeholder(), None);
    assert_eq!(empty.select_next_placeholder(), None);
}

fn paragraph() -> Vec<ParagraphItem> {
    vec![
        ParagraphItem::Text("x = ".to_string()),
        ParagraphItem::Placeholder,
        ParagraphItem::Text(", y = ".to_string()),
        ParagraphItem::Placeholder,
    ]
}

#[test]
fn paragraph_blanks_in_turn() {
    let mut p = ParagraphWrapper::new(paragraph());
    assert_eq!(p.select_first_placeholder(), Some(()));
    assert_eq!(p.cursor(), 1);
    assert_eq!(p.handle_event(Event::AddChar('4')), None);
    assert_eq!(p.handle_event(Event::Finish), None);
    assert_eq!(p.cursor(), 3);
    assert_eq!(p.handle_event(Event::AddString("2".to_string())), None);
    assert_eq!(p.handle_event(Event::PrevField), None);
    assert_eq!(p.cursor(), 1);
    assert_eq!(p.handle_event(Event::PrevField), Some(ResultKind::PrevBlock));
    assert_eq!(p.handle_event(Event::NextField), None);
    assert_eq!(p.handle_event(Event::Finish), Some(ResultKind::Finished));
    assert_eq!(p.finalize(), vec!["4".to_string(), "2".to_string()]);
}

#[test]
fn paragraph_without_blanks() {
    let mut p = ParagraphWrapper::new(vec![ParagraphItem::Text("only text".to_string())]);
    assert_eq!(p.select_first_placeholder(), None);
    assert_eq!(p.select_last_placeholder(), None);
    assert!(p.finalize().is_empty());
    let mut q = ParagraphWrapper::new(paragraph());
    assert_eq!(q.select_last_placeholder(), Some(()));
    assert_eq!(q.cursor(), 3);
}

#[test]
fn blocks_in_turn() {
    let mut b = BlocksWrapper::new(vec![
        Block::OneOf(items()),
        Block::Paragraph(paragraph()),
    ]);
    assert_eq!(b.select_first_block(), Some(()));
    assert_eq!(b.after_block(ResultKind::PrevBlock), None);
    assert_eq!(b.cursor(), 0);
    assert!(b.start_from_left());
    assert_eq!(b.after_block(ResultKind::Finished), None);
    assert_eq!(b.cursor(), 1);
    assert_eq!(b.after_block(ResultKind::NextBlock), None);
    assert!(!b.start_from_left());
    assert_eq!(b.after_block(ResultKind::Finished), Some(ResultKind::Finished));
    assert_eq!(b.after_block(ResultKind::Canceled), Some(ResultKind::Canceled));
    let answers = b.finalize();
    assert_eq!(answers, vec![vec!["0".to_string()], vec![String::new(), String::new()]]);
}

#[test]
fn text_piece_is_handed_back() {
    let piece = ParagraphItemWrapper::from_item(ParagraphItem::Text("t".to_string()));
    assert!(matches!(piece.finalize(), Err(ParagraphItemWrapper::Text(t)) if t == "t"));
    let blank = ParagraphItemWrapper::from_item(ParagraphItem::Placeholder);
    assert_eq!(blank.finalize().unwrap(), "");
}
