//! The exercise pieces that a chat can show, and their conversion to and
//! from blocks.

use crate::blocks::{Block, BlockModel, ParagraphItem, ParagraphItemModel};
use vstd::prelude::*;

verus! {

/// What a chat shows: a choice, a text, a request for input, or an image
/// (by the text of its path).
#[derive(Debug)]
pub enum TelegramInteraction {
    OneOf(Vec<String>),
    Text(String),
    UserInput,
    Image(String),
}

pub enum TelegramInteractionModel {
    OneOf(Seq<Seq<char>>),
    Text(Seq<char>),
    UserInput,
    Image(Seq<char>),
}

impl DeepView for TelegramInteraction {
    type V = TelegramInteractionModel;

    open spec fn deep_view(&self) -> TelegramInteractionModel {
        match self {
            TelegramInteraction::OneOf(o) => TelegramInteractionModel::OneOf(o.deep_view()),
            TelegramInteraction::Text(t) => TelegramInteractionModel::Text(t@),
            TelegramInteraction::UserInput => TelegramInteractionModel::UserInput,
            TelegramInteraction::Image(p) => TelegramInteractionModel::Image(p@),
        }
    }
}

/// Relies on `format!` with two `Display` strings: the two texts one after
/// the other.
#[verifier::external_body]
fn concat(a: &str, b: &String) -> (r: String)
    ensures
        r@ == a@ + b@,
{
    format!("{a}{b}")
}

/// The block that shows a chat piece.
pub open spec fn block_of(t: TelegramInteractionModel) -> BlockModel {
    match t {
        TelegramInteractionModel::OneOf(o) => BlockModel::OneOf(o),
        TelegramInteractionModel::Text(c) => BlockModel::Paragraph(
            seq![ParagraphItemModel::Text(c)],
        ),
        TelegramInteractionModel::UserInput => BlockModel::Paragraph(
            seq![ParagraphItemModel::Placeholder],
        ),
        TelegramInteractionModel::Image(p) => BlockModel::Paragraph(
            seq![ParagraphItemModel::Text("image: "@ + p)],
        ),
    }
}

/// The chat piece for a block, if a chat can show it: a choice, or a
/// paragraph of exactly one item.
pub open spec fn interaction_of(b: BlockModel) -> Option<TelegramInteractionModel> {
    match b {
        BlockModel::OneOf(o) => Some(TelegramInteractionModel::OneOf(o)),
        BlockModel::Paragraph(p) => if p.len() == 1 {
            match p[0] {
                ParagraphItemModel::Text(c) => Some(TelegramInteractionModel::Text(c)),
                ParagraphItemModel::Placeholder => Some(TelegramInteractionModel::UserInput),
            }
        } else {
            None
        },
        _ => None,
    }
}

impl TelegramInteraction {
    /// The block that shows this piece.
    pub fn into_block(self) -> (r: Block)
        ensures
            r.deep_view() == block_of(self.deep_view()),
    {
        match self {
            TelegramInteraction::OneOf(options) => Block::OneOf(options),
            TelegramInteraction::Text(content) => {
                let mut p: Vec<ParagraphItem> = Vec::new();
                p.push(ParagraphItem::Text(content));
                assert(p.deep_view() =~= seq![ParagraphItemModel::Text(content@)]);
                Block::Paragraph(p)
            },
            TelegramInteraction::UserInput => {
                let mut p: Vec<ParagraphItem> = Vec::new();
                p.push(ParagraphItem::Placeholder);
                assert(p.deep_view() =~= seq![ParagraphItemModel::Placeholder]);
                Block::Paragraph(p)
            },
            TelegramInteraction::Image(path) => {
                let mut p: Vec<ParagraphItem> = Vec::new();
                p.push(ParagraphItem::Text(concat("image: ", &path)));
                assert(p.deep_view() =~= seq![ParagraphItemModel::Text("image: "@ + path@)]);
                Block::Paragraph(p)
            },
        }
    }

    /// The chat piece for a block; an error where a chat cannot show it.
    pub fn from_block(block: Block) -> (r: Result<TelegramInteraction, &'static str>)
        ensures
            r is Ok <==> interaction_of(block.deep_view()) is Some,
            r is Ok ==> r->Ok_0.deep_view() == interaction_of(block.deep_view())->Some_0,
    {
        match block {
            Block::OneOf(options) => Ok(TelegramInteraction::OneOf(options)),
            Block::Paragraph(items) => {
                if items.len() != 1 {
                    return Err("Paragraph must contain exactly one item");
                }
                match &items[0] {
                    ParagraphItem::Text(content) => Ok(TelegramInteraction::Text(content.clone())),
                    ParagraphItem::Placeholder => Ok(TelegramInteraction::UserInput),
                }
            },
            _ => Err("Unsupported block type"),
        }
    }
}

} // verus!
