use ssr::blocks::{
    eq_response, response_as_any_of, response_as_one_of, response_as_order,
    response_as_placeholders, to_answered, Block, BlockAnswered, ParagraphItem,
    ParagraphItemAnswered,
};
use std::collections::BTreeSet;

fn s(x: &str) -> String {
    x.to_string()
}

fn resp(items: &[&[&str]]) -> Vec<Vec<String>> {
    items.iter().map(|i| i.iter().map(|x| s(x)).collect()).collect()
}

#[test]
fn eq_response_trims_when_asked() {
    let a = resp(&[&["  Paris "]]);
    let b = resp(&[&["Paris"]]);
    assert!(eq_response(&a, &b, true, false));
    assert!(!eq_response(&a, &b, false, false));
}

#[test]
fn eq_response_case_policy() {
    let a = resp(&[&["paris"]]);
    let b = resp(&[&["PARIS"]]);
    assert!(!eq_response(&a, &b, true, false));
    assert!(eq_response(&a, &b, true, true));
    assert!(eq_response(&a, &b, false, true));
}

#[test]
fn eq_response_lengths_must_agree() {
    assert!(!eq_response(&resp(&[&["a"]]), &resp(&[&["a"], &["b"]]), true, false));
    assert!(!eq_response(&resp(&[&["a", "b"]]), &resp(&[&["a"]]), true, false));
    assert!(eq_response(&resp(&[]), &resp(&[]), false, false));
    assert!(eq_response(&resp(&[&["a", "b"], &[]]), &resp(&[&["a", "b"], &[]]), false, false));
}

#[test]
fn order_response_is_sorted_by_start() {
    let r = response_as_order(vec![s("2"), s("0"), s("1")]).unwrap();
    assert_eq!(r, vec![(0, 1), (1, 2), (2, 0)]);
}

#[test]
fn order_response_rejects_non_numbers() {
    assert!(response_as_order(vec![s("1"), s("x")]).is_err());
    assert!(response_as_order(vec![s("-1")]).is_err());
    assert_eq!(response_as_order(vec![]).unwrap(), vec![]);
}

#[test]
fn any_of_response_is_a_set() {
    let r = response_as_any_of(vec![s("3"), s("1"), s("3")]).unwrap();
    assert_eq!(r, BTreeSet::from([1, 3]));
    assert!(response_as_any_of(vec![s("")]).is_err());
}

#[test]
fn one_of_response_needs_one_number() {
    assert!(response_as_one_of(vec![]).is_none());
    assert!(response_as_one_of(vec![s("1"), s("2")]).is_none());
    assert_eq!(response_as_one_of(vec![s("4")]).unwrap().unwrap(), 4);
    assert_eq!(response_as_one_of(vec![s("+7")]).unwrap().unwrap(), 7);
    assert!(response_as_one_of(vec![s("a")]).unwrap().is_err());
    assert!(response_as_one_of(vec![s(" 4")]).unwrap().is_err());
}

#[test]
fn placeholders_response_is_kept() {
    assert_eq!(response_as_placeholders(vec![s("a"), s("b")]), vec![s("a"), s("b")]);
}

#[test]
fn one_of_builder() {
    match Block::one_of(vec![s("x"), s("y")]) {
        Block::OneOf(items) => assert_eq!(items, vec![s("x"), s("y")]),
        other => panic!("unexpected {other:?}"),
    }
}

#[test]
fn to_answered_single_choice() {
    let blocks = vec![Block::OneOf(vec![s("a"), s("b"), s("c")])];
    let r = to_answered(blocks, resp(&[&["1"]]), resp(&[&["2"]]));
    assert_eq!(r.len(), 1);
    match &r[0] {
        BlockAnswered::OneOf { items, user_answer, correct_answer } => {
            assert_eq!(items.len(), 3);
            assert_eq!(*user_answer, 1);
            assert_eq!(*correct_answer, 2);
        }
        other => panic!("unexpected {other:?}"),
    }
}

#[test]
fn to_answered_paragraph_fills_blanks_in_order() {
    let blocks = vec![Block::Paragraph(vec![
        ParagraphItem::Text(s("a")),
        ParagraphItem::Placeholder,
        ParagraphItem::Text(s("b")),
        ParagraphItem::Placeholder,
    ])];
    let r = to_answered(blocks, resp(&[&["x"]]), resp(&[&["y"]]));
    match &r[0] {
        BlockAnswered::Paragraph(items) => {
            assert_eq!(items.len(), 4);
            assert!(matches!(&items[0], ParagraphItemAnswered::Text(t) if t == "a"));
            assert!(matches!(&items[1],
                ParagraphItemAnswered::Answer { user_answer, correct_answer }
                    if user_answer == "x" && correct_answer == "y"));
            assert!(matches!(&items[2], ParagraphItemAnswered::Text(t) if t == "b"));
            assert!(matches!(&items[3],
                ParagraphItemAnswered::Answer { user_answer, correct_answer }
                    if user_answer.is_empty() && correct_answer.is_empty()));
        }
        other => panic!("unexpected {other:?}"),
    }
}

#[test]
fn to_answered_stops_at_the_shorter() {
    let blocks = vec![
        Block::Paragraph(vec![ParagraphItem::Placeholder]),
        Block::Paragraph(vec![ParagraphItem::Placeholder]),
    ];
    let r = to_answered(blocks, resp(&[&["x"]]), resp(&[&["y"]]));
    assert_eq!(r.len(), 1);
}
