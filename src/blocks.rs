//! Exercises ("blocks") shown to the user and the responses given to them.

use std::collections::BTreeSet;
use std::num::ParseIntError;
use vstd::prelude::*;

verus! {

/// The standard library's error for a text that is not an integer. It is
/// carried through to the caller and never inspected.
#[verifier::external_type_specification]
#[verifier::external_body]
pub struct ExParseIntError(ParseIntError);

/// One piece of an exercise.
#[derive(Clone, Debug)]
pub enum Block {
    /// Items to put in order. Response: the starting position of each item, in
    /// the order shown on screen.
    Order(Vec<String>),
    /// Items of which any may be chosen. Response: the chosen positions.
    AnyOf(Vec<String>),
    /// Items of which exactly one is chosen. Response: its position.
    OneOf(Vec<String>),
    /// Text with blanks. Response: the text of each blank, in order.
    Paragraph(Vec<ParagraphItem>),
    /// An exercise shown with its answer.
    Answered(BlockAnswered),
}

pub type Blocks = Vec<Block>;

pub type Paragraph = Vec<ParagraphItem>;

#[derive(Clone, Debug)]
pub enum ParagraphItem {
    Text(String),
    Placeholder,
}

/// The answer to one interactive block: a list of values.
pub type ResponseItem = Vec<String>;

/// The answers to the interactive blocks of an exercise, in order.
pub type Response = Vec<ResponseItem>;

#[derive(Clone, Debug)]
pub struct BlocksWithAnswer {
    pub blocks: Blocks,
    pub answer: Response,
}

#[allow(inconsistent_fields)]
#[derive(Clone, Debug)]
pub enum BlockAnswered {
    Order { items: Vec<String>, user_answer: Vec<usize>, correct_answer: Vec<usize> },
    AnyOf { items: Vec<String>, user_answer: Vec<usize>, correct_answer: Vec<usize> },
    OneOf { items: Vec<String>, user_answer: usize, correct_answer: usize },
    Paragraph(Vec<ParagraphItemAnswered>),
}

#[derive(Clone, Debug)]
pub enum ParagraphItemAnswered {
    Text(String),
    Answer { user_answer: String, correct_answer: String },
}

/// What a [`ParagraphItem`] holds.
pub enum ParagraphItemModel {
    Text(Seq<char>),
    Placeholder,
}

/// What a [`ParagraphItemAnswered`] holds.
pub enum ParagraphItemAnsweredModel {
    Text(Seq<char>),
    Answer { user_answer: Seq<char>, correct_answer: Seq<char> },
}

/// What a [`BlockAnswered`] holds.
#[allow(inconsistent_fields)]
pub enum BlockAnsweredModel {
    Order { items: Seq<Seq<char>>, user_answer: Seq<usize>, correct_answer: Seq<usize> },
    AnyOf { items: Seq<Seq<char>>, user_answer: Seq<usize>, correct_answer: Seq<usize> },
    OneOf { items: Seq<Seq<char>>, user_answer: usize, correct_answer: usize },
    Paragraph(Seq<ParagraphItemAnsweredModel>),
}

/// What a [`Block`] holds.
pub enum BlockModel {
    Order(Seq<Seq<char>>),
    AnyOf(Seq<Seq<char>>),
    OneOf(Seq<Seq<char>>),
    Paragraph(Seq<ParagraphItemModel>),
    Answered(BlockAnsweredModel),
}

impl DeepView for ParagraphItem {
    type V = ParagraphItemModel;

    open spec fn deep_view(&self) -> ParagraphItemModel {
        match self {
            ParagraphItem::Text(s) => ParagraphItemModel::Text(s@),
            ParagraphItem::Placeholder => ParagraphItemModel::Placeholder,
        }
    }
}

impl DeepView for ParagraphItemAnswered {
    type V = ParagraphItemAnsweredModel;

    open spec fn deep_view(&self) -> ParagraphItemAnsweredModel {
        match self {
            ParagraphItemAnswered::Text(s) => ParagraphItemAnsweredModel::Text(s@),
            ParagraphItemAnswered::Answer { user_answer, correct_answer } =>
                ParagraphItemAnsweredModel::Answer {
                    user_answer: user_answer@,
                    correct_answer: correct_answer@,
                },
        }
    }
}

impl DeepView for BlockAnswered {
    type V = BlockAnsweredModel;

    open spec fn deep_view(&self) -> BlockAnsweredModel {
        match self {
            BlockAnswered::Order { items, user_answer, correct_answer } =>
                BlockAnsweredModel::Order {
                    items: items.deep_view(),
                    user_answer: user_answer@,
                    correct_answer: correct_answer@,
                },
            BlockAnswered::AnyOf { items, user_answer, correct_answer } =>
                BlockAnsweredModel::AnyOf {
                    items: items.deep_view(),
                    user_answer: user_answer@,
                    correct_answer: correct_answer@,
                },
            BlockAnswered::OneOf { items, user_answer, correct_answer } =>
                BlockAnsweredModel::OneOf {
                    items: items.deep_view(),
                    user_answer: *user_answer,
                    correct_answer: *correct_answer,
                },
            BlockAnswered::Paragraph(p) => BlockAnsweredModel::Paragraph(p.deep_view()),
        }
    }
}

impl DeepView for Block {
    type V = BlockModel;

    open spec fn deep_view(&self) -> BlockModel {
        match self {
            Block::Order(items) => BlockModel::Order(items.deep_view()),
            Block::AnyOf(items) => BlockModel::AnyOf(items.deep_view()),
            Block::OneOf(items) => BlockModel::OneOf(items.deep_view()),
            Block::Paragraph(p) => BlockModel::Paragraph(p.deep_view()),
            Block::Answered(a) => BlockModel::Answered(a.deep_view()),
        }
    }
}

impl Block {
    /// A single-choice block over the given items.
    pub fn one_of(items: Vec<String>) -> (r: Block)
        ensures
            r.deep_view() == BlockModel::OneOf(items.deep_view()),
    {
        Block::OneOf(items)
    }
}

/// A copy of a list of texts.
pub fn copy_texts(v: &Vec<String>) -> (r: Vec<String>)
    ensures
        r.deep_view() == v.deep_view(),
{
    let r = v.clone();
    assert(r.deep_view() =~= v.deep_view());
    r
}

/// A copy of a response.
pub fn copy_response(v: &Response) -> (r: Response)
    ensures
        r.deep_view() == v.deep_view(),
{
    let mut r: Response = Vec::new();
    let mut i: usize = 0;
    while i < v.len()
        invariant
            i <= v.len(),
            r.len() == i,
            forall|j: int| 0 <= j < i ==> #[trigger] r[j].deep_view() == v[j].deep_view(),
        decreases v.len() - i,
    {
        r.push(copy_texts(&v[i]));
        i += 1;
    }
    assert(r.deep_view() =~= v.deep_view());
    r
}

impl ParagraphItem {
    pub fn duplicate(&self) -> (r: ParagraphItem)
        ensures
            r.deep_view() == self.deep_view(),
    {
        match self {
            ParagraphItem::Text(s) => ParagraphItem::Text(s.clone()),
            ParagraphItem::Placeholder => ParagraphItem::Placeholder,
        }
    }
}

impl ParagraphItemAnswered {
    pub fn duplicate(&self) -> (r: ParagraphItemAnswered)
        ensures
            r.deep_view() == self.deep_view(),
    {
        match self {
            ParagraphItemAnswered::Text(s) => ParagraphItemAnswered::Text(s.clone()),
            ParagraphItemAnswered::Answer { user_answer, correct_answer } =>
                ParagraphItemAnswered::Answer {
                user_answer: user_answer.clone(),
                correct_answer: correct_answer.clone(),
            },
        }
    }
}

fn copy_paragraph(v: &Vec<ParagraphItem>) -> (r: Vec<ParagraphItem>)
    ensures
        r.deep_view() == v.deep_view(),
{
    let mut r: Vec<ParagraphItem> = Vec::new();
    let mut i: usize = 0;
    while i < v.len()
        invariant
            i <= v.len(),
            r.len() == i,
            forall|j: int| 0 <= j < i ==> #[trigger] r[j].deep_view() == v[j].deep_view(),
        decreases v.len() - i,
    {
        r.push(v[i].duplicate());
        i += 1;
    }
    assert(r.deep_view() =~= v.deep_view());
    r
}

fn copy_answered_paragraph(v: &Vec<ParagraphItemAnswered>) -> (r: Vec<ParagraphItemAnswered>)
    ensures
        r.deep_view() == v.deep_view(),
{
    let mut r: Vec<ParagraphItemAnswered> = Vec::new();
    let mut i: usize = 0;
    while i < v.len()
        invariant
            i <= v.len(),
            r.len() == i,
            forall|j: int| 0 <= j < i ==> #[trigger] r[j].deep_view() == v[j].deep_view(),
        decreases v.len() - i,
    {
        r.push(v[i].duplicate());
        i += 1;
    }
    assert(r.deep_view() =~= v.deep_view());
    r
}

fn copy_positions(v: &Vec<usize>) -> (r: Vec<usize>)
    ensures
        r@ == v@,
{
    let r = v.clone();
    assert(r@ =~= v@);
    r
}

impl BlockAnswered {
    pub fn duplicate(&self) -> (r: BlockAnswered)
        ensures
            r.deep_view() == self.deep_view(),
    {
        match self {
            BlockAnswered::Order { items, user_answer, correct_answer } => BlockAnswered::Order {
                items: copy_texts(items),
                user_answer: copy_positions(user_answer),
                correct_answer: copy_positions(correct_answer),
            },
            BlockAnswered::AnyOf { items, user_answer, correct_answer } => BlockAnswered::AnyOf {
                items: copy_texts(items),
                user_answer: copy_positions(user_answer),
                correct_answer: copy_positions(correct_answer),
            },
            BlockAnswered::OneOf { items, user_answer, correct_answer } => BlockAnswered::OneOf {
                items: copy_texts(items),
                user_answer: *user_answer,
                correct_answer: *correct_answer,
            },
            BlockAnswered::Paragraph(p) => BlockAnswered::Paragraph(copy_answered_paragraph(p)),
        }
    }
}

impl Block {
    pub fn duplicate(&self) -> (r: Block)
        ensures
            r.deep_view() == self.deep_view(),
    {
        match self {
            Block::Order(items) => Block::Order(copy_texts(items)),
            Block::AnyOf(items) => Block::AnyOf(copy_texts(items)),
            Block::OneOf(items) => Block::OneOf(copy_texts(items)),
            Block::Paragraph(p) => Block::Paragraph(copy_paragraph(p)),
            Block::Answered(a) => Block::Answered(a.duplicate()),
        }
    }
}

/// A copy of an exercise.
pub fn copy_blocks(v: &Blocks) -> (r: Blocks)
    ensures
        r.deep_view() == v.deep_view(),
{
    let mut r: Blocks = Vec::new();
    let mut i: usize = 0;
    while i < v.len()
        invariant
            i <= v.len(),
            r.len() == i,
            forall|j: int| 0 <= j < i ==> #[trigger] r[j].deep_view() == v[j].deep_view(),
        decreases v.len() - i,
    {
        r.push(v[i].duplicate());
        i += 1;
    }
    assert(r.deep_view() =~= v.deep_view());
    r
}

/// What `str::trim` makes of a text.
pub uninterp spec fn trim_of(s: Seq<char>) -> Seq<char>;

/// What `str::to_lowercase` makes of a text.
pub uninterp spec fn lower_of(s: Seq<char>) -> Seq<char>;

/// Relies on `str::trim`: the text without its leading and trailing white
/// space, which depends on the text alone.
#[verifier::external_body]
pub(crate) fn trimmed(s: &String) -> (r: String)
    ensures
        r@ == trim_of(s@),
{
    s.trim().to_string()
}

/// Relies on `str::to_lowercase`: the lowercase form of the text, which
/// depends on the text alone.
#[verifier::external_body]
fn lowercased(s: &String) -> (r: String)
    ensures
        r@ == lower_of(s@),
{
    s.to_lowercase()
}

/// A text as it is compared: trimmed first, where asked, then lowercased,
/// where asked.
pub open spec fn normalized(s: Seq<char>, trim: bool, case_insensitive: bool) -> Seq<char> {
    let t = if trim {
        trim_of(s)
    } else {
        s
    };
    if case_insensitive {
        lower_of(t)
    } else {
        t
    }
}

/// Two answers to one block match: as many values, pairwise equal once
/// normalized.
pub open spec fn items_match(
    a: Seq<Seq<char>>,
    b: Seq<Seq<char>>,
    trim: bool,
    case_insensitive: bool,
) -> bool {
    &&& a.len() == b.len()
    &&& forall|i: int|
        0 <= i < a.len() ==> #[trigger] normalized(a[i], trim, case_insensitive) == normalized(
            b[i],
            trim,
            case_insensitive,
        )
}

/// Two responses match: as many items, pairwise matching.
pub open spec fn responses_match(
    a: Seq<Seq<Seq<char>>>,
    b: Seq<Seq<Seq<char>>>,
    trim: bool,
    case_insensitive: bool,
) -> bool {
    &&& a.len() == b.len()
    &&& forall|i: int|
        0 <= i < a.len() ==> #[trigger] items_match(a[i], b[i], trim, case_insensitive)
}

fn normalize(s: &String, trim: bool, case_insensitive: bool) -> (r: String)
    ensures
        r@ == normalized(s@, trim, case_insensitive),
{
    let t = if trim {
        trimmed(s)
    } else {
        s.clone()
    };
    if case_insensitive {
        lowercased(&t)
    } else {
        t
    }
}

fn eq_response_item(a: &ResponseItem, b: &ResponseItem, trim: bool, case_insensitive: bool) -> (r:
    bool)
    ensures
        r == items_match(a.deep_view(), b.deep_view(), trim, case_insensitive),
{
    if a.len() != b.len() {
        return false;
    }
    let mut i: usize = 0;
    while i < a.len()
        invariant
            i <= a.len(),
            a.len() == b.len(),
            forall|j: int|
                0 <= j < i ==> #[trigger] normalized(a.deep_view()[j], trim, case_insensitive)
                    == normalized(b.deep_view()[j], trim, case_insensitive),
        decreases a.len() - i,
    {
        let x = normalize(&a[i], trim, case_insensitive);
        let y = normalize(&b[i], trim, case_insensitive);
        if !(x == y) {
            assert(!(normalized(a.deep_view()[i as int], trim, case_insensitive) == normalized(
                b.deep_view()[i as int],
                trim,
                case_insensitive,
            )));
            return false;
        }
        i += 1;
    }
    true
}

/// Whether two responses are equal, value by value, after trimming and
/// lowercasing where asked.
pub fn eq_response(a: &Response, b: &Response, trim: bool, case_insensitive: bool) -> (r: bool)
    ensures
        r == responses_match(a.deep_view(), b.deep_view(), trim, case_insensitive),
{
    if a.len() != b.len() {
        return false;
    }
    let mut i: usize = 0;
    while i < a.len()
        invariant
            i <= a.len(),
            a.len() == b.len(),
            forall|j: int|
                0 <= j < i ==> #[trigger] items_match(
                    a.deep_view()[j],
                    b.deep_view()[j],
                    trim,
                    case_insensitive,
                ),
        decreases a.len() - i,
    {
        if !eq_response_item(&a[i], &b[i], trim, case_insensitive) {
            assert(!items_match(
                a.deep_view()[i as int],
                b.deep_view()[i as int],
                trim,
                case_insensitive,
            ));
            return false;
        }
        i += 1;
    }
    true
}

/// The digits of a decimal text, after an optional leading `+`.
pub open spec fn digits_of(s: Seq<char>) -> Seq<char> {
    if s.len() > 0 && s[0] == '+' {
        s.drop_first()
    } else {
        s
    }
}

pub open spec fn is_decimal_digit(c: char) -> bool {
    '0' <= c <= '9'
}

/// The value of a sequence of decimal digits.
pub open spec fn digits_value(d: Seq<char>) -> nat
    decreases d.len(),
{
    if d.len() == 0 {
        0
    } else {
        digits_value(d.drop_last()) * 10 + ((d.last() as u32 - '0' as u32) as nat)
    }
}

/// A text that `usize` parses: an optional `+`, then at least one decimal
/// digit and nothing else, of a value that fits in `usize`.
pub open spec fn is_usize_text(s: Seq<char>) -> bool {
    let d = digits_of(s);
    &&& d.len() > 0
    &&& forall|i: int| 0 <= i < d.len() ==> #[trigger] is_decimal_digit(d[i])
    &&& digits_value(d) <= usize::MAX
}

/// The number that a text of [`is_usize_text`] stands for.
pub open spec fn usize_value(s: Seq<char>) -> usize {
    digits_value(digits_of(s)) as usize
}

/// Relies on `<usize as FromStr>::from_str`: it accepts an optional `+`
/// followed by decimal digits only, of a value that fits, and returns that
/// value.
#[verifier::external_body]
fn parse_usize(s: &String) -> (r: Result<usize, ParseIntError>)
    ensures
        r is Ok <==> is_usize_text(s@),
        r is Ok ==> r->Ok_0 == usize_value(s@),
{
    s.parse::<usize>()
}

/// Every value of the answer is a number.
pub open spec fn all_usize_texts(v: Seq<Seq<char>>) -> bool {
    forall|i: int| 0 <= i < v.len() ==> #[trigger] is_usize_text(v[i])
}

/// `a` comes before `b`: by the first component, then the second.
pub open spec fn pair_le(a: (usize, usize), b: (usize, usize)) -> bool {
    a.0 < b.0 || (a.0 == b.0 && a.1 <= b.1)
}

pub open spec fn pairs_sorted(s: Seq<(usize, usize)>) -> bool {
    forall|i: int, j: int| 0 <= i < j < s.len() ==> #[trigger] pair_le(s[i], s[j])
}

/// Relies on `slice::sort_unstable`: the same pairs, in ascending order of
/// tuples.
#[verifier::external_body]
fn sort_pairs(v: &mut Vec<(usize, usize)>)
    ensures
        final(v)@.to_multiset() == old(v)@.to_multiset(),
        pairs_sorted(final(v)@),
{
    v.sort_unstable();
}

/// The pairs (starting position, position on screen) of an order response.
pub open spec fn order_pairs(v: Seq<Seq<char>>) -> Seq<(usize, usize)> {
    Seq::new(v.len(), |i: int| (usize_value(v[i]), i as usize))
}

/// Reads the answer to an [`Block::Order`] block: the pairs
/// (starting position, current position), sorted.
pub fn response_as_order(response: ResponseItem) -> (r: Result<Vec<(usize, usize)>, ParseIntError>)
    ensures
        r is Ok <==> all_usize_texts(response.deep_view()),
        r is Ok ==> r->Ok_0@.to_multiset() == order_pairs(response.deep_view()).to_multiset(),
        r is Ok ==> pairs_sorted(r->Ok_0@),
{
    let mut v: Vec<(usize, usize)> = Vec::new();
    let mut i: usize = 0;
    while i < response.len()
        invariant
            i <= response.len(),
            v@ == order_pairs(response.deep_view()).take(i as int),
            forall|j: int| 0 <= j < i ==> #[trigger] is_usize_text(response.deep_view()[j]),
        decreases response.len() - i,
    {
        match parse_usize(&response[i]) {
            Ok(n) => {
                v.push((n, i));
                assert(v@ =~= order_pairs(response.deep_view()).take(i + 1));
            },
            Err(e) => {
                assert(!is_usize_text(response.deep_view()[i as int]));
                return Err(e);
            },
        }
        i += 1;
    }
    assert(v@ =~= order_pairs(response.deep_view()));
    sort_pairs(&mut v);
    Ok(v)
}

/// The numbers that the values of an answer stand for.
pub open spec fn usize_values(v: Seq<Seq<char>>) -> Set<usize> {
    Set::new(|n: usize| exists|i: int| 0 <= i < v.len() && n == usize_value(v[i]))
}

/// Reads the answer to an [`Block::AnyOf`] block: the set of chosen positions.
pub fn response_as_any_of(response: ResponseItem) -> (r: Result<BTreeSet<usize>, ParseIntError>)
    ensures
        r is Ok <==> all_usize_texts(response.deep_view()),
        r is Ok ==> r->Ok_0@ == usize_values(response.deep_view()),
{
    broadcast use vstd::laws_cmp::group_laws_cmp;

    let mut set: BTreeSet<usize> = BTreeSet::new();
    let mut i: usize = 0;
    while i < response.len()
        invariant
            i <= response.len(),
            set@ == usize_values(response.deep_view().take(i as int)),
            forall|j: int| 0 <= j < i ==> #[trigger] is_usize_text(response.deep_view()[j]),
        decreases response.len() - i,
    {
        match parse_usize(&response[i]) {
            Ok(n) => {
                set.insert(n);
                let ghost d = response.deep_view();
                assert(set@ =~= usize_values(d.take(i + 1))) by {
                    assert forall|m: usize| #[trigger] set@.contains(m) implies usize_values(
                        d.take(i + 1),
                    ).contains(m) by {
                        if m != n {
                            let k = choose|k: int|
                                0 <= k < i && m == usize_value(#[trigger] d.take(i as int)[k]);
                            assert(d.take(i + 1)[k] == d.take(i as int)[k]);
                        } else {
                            assert(d.take(i + 1)[i as int] == d[i as int]);
                        }
                    }
                    assert forall|m: usize| #[trigger]
                        usize_values(d.take(i + 1)).contains(m) implies set@.contains(m) by {
                        let k = choose|k: int| 0 <= k < i + 1 && m == usize_value(#[trigger] d.take(i + 1)[k]);
                        if k < i {
                            assert(d.take(i + 1)[k] == d.take(i as int)[k]);
                        }
                    }
                }
            },
            Err(e) => {
                assert(!is_usize_text(response.deep_view()[i as int]));
                return Err(e);
            },
        }
        i += 1;
    }
    assert(response.deep_view().take(response.len() as int) =~= response.deep_view());
    Ok(set)
}

/// Reads the answer to a [`Block::OneOf`] block: `None` unless it holds
/// exactly one value, else that value read as a number.
pub fn response_as_one_of(response: ResponseItem) -> (r: Option<Result<usize, ParseIntError>>)
    ensures
        r is None <==> response@.len() != 1,
        r is Some ==> (r->Some_0 is Ok <==> is_usize_text(response@[0]@)),
        r is Some && r->Some_0 is Ok ==> r->Some_0->Ok_0 == usize_value(response@[0]@),
{
    if response.len() != 1 {
        return None;
    }
    Some(parse_usize(&response[0]))
}

/// Reads the answer to a [`Block::Paragraph`] block: the text of each blank.
pub fn response_as_placeholders(response: ResponseItem) -> (r: Vec<String>)
    ensures
        r.deep_view() == response.deep_view(),
{
    response
}

/// How many blanks stand before position `i` of a paragraph.
pub open spec fn blanks_before(p: Seq<ParagraphItemModel>, i: int) -> nat
    decreases i,
{
    if i <= 0 {
        0
    } else {
        blanks_before(p, i - 1) + if p[i - 1] is Placeholder {
            1nat
        } else {
            0nat
        }
    }
}

/// Item `i` of a paragraph shown with its answers: blank number `k` gets
/// value `k` of both answers where both have one, else empty texts.
pub open spec fn answered_item(
    p: Seq<ParagraphItemModel>,
    user: Seq<Seq<char>>,
    correct: Seq<Seq<char>>,
    i: int,
) -> ParagraphItemAnsweredModel {
    match p[i] {
        ParagraphItemModel::Text(t) => ParagraphItemAnsweredModel::Text(t),
        ParagraphItemModel::Placeholder => {
            let k = blanks_before(p, i) as int;
            if k < user.len() && k < correct.len() {
                ParagraphItemAnsweredModel::Answer { user_answer: user[k], correct_answer: correct[k] }
            } else {
                ParagraphItemAnsweredModel::Answer {
                    user_answer: Seq::empty(),
                    correct_answer: Seq::empty(),
                }
            }
        },
    }
}

pub open spec fn answered_paragraph(
    p: Seq<ParagraphItemModel>,
    user: Seq<Seq<char>>,
    correct: Seq<Seq<char>>,
) -> Seq<ParagraphItemAnsweredModel> {
    Seq::new(p.len(), |i: int| answered_item(p, user, correct, i))
}

/// A block can be shown with its answers: a single-choice block whose two
/// answers are one number each, or a paragraph.
pub open spec fn answerable(b: BlockModel, user: Seq<Seq<char>>, correct: Seq<Seq<char>>) -> bool {
    match b {
        BlockModel::OneOf(_) => {
            &&& user.len() == 1
            &&& correct.len() == 1
            &&& is_usize_text(user[0])
            &&& is_usize_text(correct[0])
        },
        BlockModel::Paragraph(_) => true,
        _ => false,
    }
}

/// A block shown with the user's answer and the correct one.
pub open spec fn answered_model(
    b: BlockModel,
    user: Seq<Seq<char>>,
    correct: Seq<Seq<char>>,
) -> BlockAnsweredModel {
    match b {
        BlockModel::OneOf(items) => BlockAnsweredModel::OneOf {
            items,
            user_answer: usize_value(user[0]),
            correct_answer: usize_value(correct[0]),
        },
        BlockModel::Paragraph(p) => BlockAnsweredModel::Paragraph(
            answered_paragraph(p, user, correct),
        ),
        _ => BlockAnsweredModel::Paragraph(Seq::empty()),
    }
}

impl BlockAnswered {
    /// The block shown with the user's answer and the correct one.
    pub fn answered(block: &Block, user_answer: &ResponseItem, correct_answer: &ResponseItem) -> (r:
        BlockAnswered)
        requires
            answerable(block.deep_view(), user_answer.deep_view(), correct_answer.deep_view()),
        ensures
            r.deep_view() == answered_model(
                block.deep_view(),
                user_answer.deep_view(),
                correct_answer.deep_view(),
            ),
    {
        match block {
            Block::OneOf(items) => {
                let u = parse_usize(&user_answer[0]);
                let c = parse_usize(&correct_answer[0]);
                match (u, c) {
                    (Ok(u), Ok(c)) => BlockAnswered::OneOf {
                        items: copy_texts(items),
                        user_answer: u,
                        correct_answer: c,
                    },
                    _ => {
                        proof {
                            assert(false);
                        }
                        BlockAnswered::Paragraph(Vec::new())
                    },
                }
            },
            Block::Paragraph(p) => {
                let ghost pv = p.deep_view();
                let ghost uv = user_answer.deep_view();
                let ghost cv = correct_answer.deep_view();
                let mut out: Vec<ParagraphItemAnswered> = Vec::new();
                let mut k: usize = 0;
                let mut i: usize = 0;
                while i < p.len()
                    invariant
                        i <= p.len(),
                        pv == p.deep_view(),
                        uv == user_answer.deep_view(),
                        cv == correct_answer.deep_view(),
                        out.len() == i,
                        k == blanks_before(pv, i as int),
                        k <= i,
                        forall|j: int|
                            0 <= j < i ==> #[trigger] out[j].deep_view() == answered_item(
                                pv,
                                uv,
                                cv,
                                j,
                            ),
                    decreases p.len() - i,
                {
                    match &p[i] {
                        ParagraphItem::Text(t) => {
                            out.push(ParagraphItemAnswered::Text(t.clone()));
                        },
                        ParagraphItem::Placeholder => {
                            if k < user_answer.len() && k < correct_answer.len() {
                                out.push(
                                    ParagraphItemAnswered::Answer {
                                        user_answer: user_answer[k].clone(),
                                        correct_answer: correct_answer[k].clone(),
                                    },
                                );
                            } else {
                                out.push(
                                    ParagraphItemAnswered::Answer {
                                        user_answer: String::new(),
                                        correct_answer: String::new(),
                                    },
                                );
                            }
                            k += 1;
                        },
                    }
                    i += 1;
                }
                assert(out.deep_view() =~= answered_paragraph(pv, uv, cv));
                BlockAnswered::Paragraph(out)
            },
            _ => {
                proof {
                    assert(false);
                }
                BlockAnswered::Paragraph(Vec::new())
            },
        }
    }
}

/// Each block of an exercise shown with the user's answer and the correct
/// one; as many as the shorter of the blocks and the answers.
pub open spec fn to_answered_model(
    blocks: Seq<BlockModel>,
    user: Seq<Seq<Seq<char>>>,
    correct: Seq<Seq<Seq<char>>>,
) -> Seq<BlockAnsweredModel> {
    let n = if blocks.len() < user.len() {
        blocks.len()
    } else {
        user.len()
    };
    Seq::new(n, |i: int| answered_model(blocks[i], user[i], correct[i]))
}

/// Each block that has answers can be shown with them.
pub open spec fn all_answerable(
    blocks: Seq<BlockModel>,
    user: Seq<Seq<Seq<char>>>,
    correct: Seq<Seq<Seq<char>>>,
) -> bool {
    forall|i: int|
        0 <= i < blocks.len() && i < user.len() ==> #[trigger] answerable(
            blocks[i],
            user[i],
            correct[i],
        )
}

/// The exercise shown with the user's answers and the correct ones.
pub fn to_answered(blocks: Blocks, user_answers: Response, correct_answers: Response) -> (r: Vec<
    BlockAnswered,
>)
    requires
        user_answers.len() == correct_answers.len(),
        all_answerable(
            blocks.deep_view(),
            user_answers.deep_view(),
            correct_answers.deep_view(),
        ),
    ensures
        r.deep_view() == to_answered_model(
            blocks.deep_view(),
            user_answers.deep_view(),
            correct_answers.deep_view(),
        ),
{
    let n = if blocks.len() < user_answers.len() {
        blocks.len()
    } else {
        user_answers.len()
    };
    let mut out: Vec<BlockAnswered> = Vec::new();
    let mut i: usize = 0;
    while i < n
        invariant
            i <= n,
            n <= blocks.len(),
            n <= user_answers.len(),
            user_answers.len() == correct_answers.len(),
            n == if blocks.len() < user_answers.len() {
                blocks.len()
            } else {
                user_answers.len()
            },
            all_answerable(
                blocks.deep_view(),
                user_answers.deep_view(),
                correct_answers.deep_view(),
            ),
            out.len() == i,
            forall|j: int|
                0 <= j < i ==> #[trigger] out[j].deep_view() == answered_model(
                    blocks[j].deep_view(),
                    user_answers[j].deep_view(),
                    correct_answers[j].deep_view(),
                ),
        decreases n - i,
    {
        assert(answerable(
            blocks.deep_view()[i as int],
            user_answers.deep_view()[i as int],
            correct_answers.deep_view()[i as int],
        ));
        out.push(BlockAnswered::answered(&blocks[i], &user_answers[i], &correct_answers[i]));
        i += 1;
    }
    assert(out.deep_view() =~= to_answered_model(
        blocks.deep_view(),
        user_answers.deep_view(),
        correct_answers.deep_view(),
    ));
    out
}

} // verus!
