//! The forms that show a user's answer beside the correct one and ask for a
//! choice, and the reading of that choice.

use crate::blocks::{
    all_answerable, answerable, copy_blocks, copy_response, copy_texts, is_usize_text, response_as_one_of,
    to_answered, to_answered_model, usize_value, Block, BlockAnsweredModel, BlockModel, Blocks,
    ParagraphItem, ParagraphItemModel, Response,
};
use vstd::prelude::*;

verus! {

pub open spec fn digit_char(d: nat) -> char {
    "0123456789"@[d as int]
}

/// The decimal digits of `n`, with no sign and no leading zero.
pub open spec fn decimal_of(n: nat) -> Seq<char>
    decreases n,
{
    if n < 10 {
        seq![digit_char(n)]
    } else {
        decimal_of(n / 10).push(digit_char(n % 10))
    }
}

/// Relies on the `Display` of `u64`, which writes its decimal digits with no
/// sign and no padding, between the two texts.
#[verifier::external_body]
pub(crate) fn label(prefix: &str, n: u64, unit: &str) -> (r: String)
    ensures
        r@ == prefix@ + decimal_of(n as nat) + unit@,
{
    format!("{prefix}{n}{unit}")
}

/// A text of the library's own as a `String`.
pub(crate) fn text(s: &str) -> (r: String)
    ensures
        r@ == s@,
{
    s.to_owned()
}

/// Each answered block as a block to show.
pub open spec fn shown_answered(s: Seq<BlockAnsweredModel>) -> Seq<BlockModel> {
    Seq::new(s.len(), |i: int| BlockModel::Answered(s[i]))
}

/// A form: the exercise with the user's answer and the one shown as correct,
/// an empty line, then `directive` and the options to choose from.
pub open spec fn feedback_form_model(
    input: Seq<BlockModel>,
    user: Seq<Seq<Seq<char>>>,
    shown: Seq<Seq<Seq<char>>>,
    directive: Seq<char>,
    options: Seq<Seq<char>>,
) -> Seq<BlockModel> {
    shown_answered(to_answered_model(input, user, shown)) + seq![
        BlockModel::Paragraph(Seq::empty()),
        BlockModel::Paragraph(seq![ParagraphItemModel::Text(directive)]),
        BlockModel::OneOf(options),
    ]
}

/// A form without a directive: the exercise with both answers, an empty
/// line, and the options.
pub open spec fn answer_form_model(
    input: Seq<BlockModel>,
    user: Seq<Seq<Seq<char>>>,
    shown: Seq<Seq<Seq<char>>>,
    options: Seq<Seq<char>>,
) -> Seq<BlockModel> {
    shown_answered(to_answered_model(input, user, shown)) + seq![
        BlockModel::Paragraph(Seq::empty()),
        BlockModel::OneOf(options),
    ]
}

/// The answers fit the exercise well enough to be shown beside it.
pub open spec fn showable(
    input: Seq<BlockModel>,
    user: Seq<Seq<Seq<char>>>,
    shown: Seq<Seq<Seq<char>>>,
) -> bool {
    user.len() == shown.len() && all_answerable(input, user, shown)
}

fn is_answerable(block: &Block, user: &Vec<String>, correct: &Vec<String>) -> (r: bool)
    ensures
        r == answerable(block.deep_view(), user.deep_view(), correct.deep_view()),
{
    match block {
        Block::OneOf(_) => {
            if user.len() != 1 || correct.len() != 1 {
                return false;
            }
            let u = response_as_one_of(copy_texts(user));
            let c = response_as_one_of(copy_texts(correct));
            match (u, c) {
                (Some(Ok(_)), Some(Ok(_))) => true,
                _ => false,
            }
        },
        Block::Paragraph(_) => true,
        _ => false,
    }
}

/// Whether the answers can be shown beside the exercise.
pub fn can_show(input: &Blocks, user: &Response, shown: &Response) -> (r: bool)
    ensures
        r == showable(input.deep_view(), user.deep_view(), shown.deep_view()),
{
    if user.len() != shown.len() {
        return false;
    }
    let mut i: usize = 0;
    while i < input.len() && i < user.len()
        invariant
            user.len() == shown.len(),
            forall|j: int|
                0 <= j < i ==> #[trigger] answerable(
                    input.deep_view()[j],
                    user.deep_view()[j],
                    shown.deep_view()[j],
                ),
        decreases input.len() - i,
    {
        if !is_answerable(&input[i], &user[i], &shown[i]) {
            assert(!answerable(
                input.deep_view()[i as int],
                user.deep_view()[i as int],
                shown.deep_view()[i as int],
            ));
            return false;
        }
        i += 1;
    }
    true
}

fn answered_blocks(input: &Blocks, user: &Response, shown: &Response) -> (r: Blocks)
    requires
        showable(input.deep_view(), user.deep_view(), shown.deep_view()),
    ensures
        r.deep_view() == shown_answered(
            to_answered_model(input.deep_view(), user.deep_view(), shown.deep_view()),
        ),
{
    let answered = to_answered(copy_blocks(input), copy_response(user), copy_response(shown));
    let mut out: Blocks = Vec::new();
    let mut i: usize = 0;
    while i < answered.len()
        invariant
            i <= answered.len(),
            out.len() == i,
            forall|j: int|
                0 <= j < i ==> #[trigger] out[j].deep_view() == BlockModel::Answered(
                    answered[j].deep_view(),
                ),
        decreases answered.len() - i,
    {
        out.push(Block::Answered(answered[i].duplicate()));
        i += 1;
    }
    assert(out.deep_view() =~= shown_answered(answered.deep_view()));
    out
}

/// The form that shows both answers, states `directive` and offers `options`.
pub fn feedback_form(
    input: &Blocks,
    user: &Response,
    shown: &Response,
    directive: String,
    options: Vec<String>,
) -> (r: Blocks)
    requires
        showable(input.deep_view(), user.deep_view(), shown.deep_view()),
    ensures
        r.deep_view() == feedback_form_model(
            input.deep_view(),
            user.deep_view(),
            shown.deep_view(),
            directive@,
            options.deep_view(),
        ),
{
    let mut out = answered_blocks(input, user, shown);
    let ghost head = out.deep_view();
    let empty: Vec<ParagraphItem> = Vec::new();
    assert(empty.deep_view() =~= Seq::<ParagraphItemModel>::empty());
    out.push(Block::Paragraph(empty));
    let mut line: Vec<ParagraphItem> = Vec::new();
    line.push(ParagraphItem::Text(directive));
    assert(line.deep_view() =~= seq![ParagraphItemModel::Text(directive@)]);
    out.push(Block::Paragraph(line));
    out.push(Block::OneOf(options));
    assert(out.deep_view() =~= head + seq![
        BlockModel::Paragraph(Seq::empty()),
        BlockModel::Paragraph(seq![ParagraphItemModel::Text(directive@)]),
        BlockModel::OneOf(options.deep_view()),
    ]);
    out
}

/// The form that shows both answers and offers `options`.
pub fn answer_form(input: &Blocks, user: &Response, shown: &Response, options: Vec<String>) -> (r:
    Blocks)
    requires
        showable(input.deep_view(), user.deep_view(), shown.deep_view()),
    ensures
        r.deep_view() == answer_form_model(
            input.deep_view(),
            user.deep_view(),
            shown.deep_view(),
            options.deep_view(),
        ),
{
    let mut out = answered_blocks(input, user, shown);
    let ghost head = out.deep_view();
    let empty: Vec<ParagraphItem> = Vec::new();
    assert(empty.deep_view() =~= Seq::<ParagraphItemModel>::empty());
    out.push(Block::Paragraph(empty));
    out.push(Block::OneOf(options));
    assert(out.deep_view() =~= head + seq![
        BlockModel::Paragraph(Seq::empty()),
        BlockModel::OneOf(options.deep_view()),
    ]);
    out
}

/// The option chosen in a form with `n` options: the last answer of the
/// response holds one number below `n`.
pub open spec fn chosen_option(response: Seq<Seq<Seq<char>>>, n: nat) -> Option<nat> {
    if response.len() > 0 && response.last().len() == 1 && is_usize_text(response.last()[0])
        && usize_value(response.last()[0]) < n {
        Some(usize_value(response.last()[0]) as nat)
    } else {
        None
    }
}

/// Reads which of `n` options was chosen.
pub fn read_choice(response: &Response, n: usize) -> (r: Option<usize>)
    ensures
        r is Some <==> chosen_option(response.deep_view(), n as nat) is Some,
        r is Some ==> r->Some_0 as nat == chosen_option(response.deep_view(), n as nat)->Some_0,
{
    if response.len() == 0 {
        return None;
    }
    let last = copy_texts(&response[response.len() - 1]);
    assert(response.deep_view().last() == last.deep_view());
    match response_as_one_of(last) {
        Some(Ok(i)) => {
            if i < n {
                Some(i)
            } else {
                None
            }
        },
        _ => None,
    }
}

} // verus!
