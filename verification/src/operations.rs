//! The operations of the first script language, read from the pairs that
//! its grammar yields.

use crate::numbers::parse_u32;
use crate::numbers::u32_of;
use vstd::prelude::*;

verus! {

/// One operation of the first script language.
#[derive(Clone, Copy, Debug, PartialEq, Eq, Structural)]
pub enum Operation {
    Blur(u32),
    FlipHorizontal,
    FlipVertical,
    Resize(u32, u32),
}

/// The list of operations of a script.
pub type Operations = Vec<Operation>;

/// The rules of the grammar that a pair can stand for.
#[derive(Clone, Copy, Debug, PartialEq, Eq, Structural)]
pub enum Rule {
    Blur,
    FlipHorizontal,
    FlipVertical,
    Resize,
    /// Any rule that is no operation.
    Other,
}

/// What the grammar has matched for one rule: the rule, and the texts of
/// the pairs inside the match, in order.
#[derive(Debug, PartialEq, Eq)]
pub struct Pair {
    pub rule: Rule,
    pub inner: Vec<String>,
}

/// The mathematical content of a [`Pair`].
pub struct PairView {
    pub rule: Rule,
    pub inner: Seq<Seq<char>>,
}

impl View for Pair {
    type V = PairView;

    open spec fn view(&self) -> PairView {
        PairView { rule: self.rule, inner: Seq::new(self.inner@.len(), |i: int| self.inner@[i]@) }
    }
}

/// The message with which the standard library refuses to read `text` as an
/// unsigned 32-bit integer, or the empty text where it does not refuse.
pub uninterp spec fn uint_refusal(text: Seq<char>) -> Seq<char>;

/// `str::parse::<u32>`, for the message of its error alone: the `Display`
/// text of the `ParseIntError` that the call returns for `text`, and the
/// empty string where the call succeeds. What the message says is not
/// stated, only that it is the one that belongs to `text`.
#[verifier::external_body]
fn refusal_of(text: &str) -> (message: String)
    ensures
        message@ == uint_refusal(text@),
{
    match text.parse::<u32>() {
        Ok(_) => String::new(),
        Err(error) => error.to_string(),
    }
}

/// What reading `text` as an unsigned integer gives: its value, or the
/// message of the refusal.
pub open spec fn uint_outcome(text: Seq<char>) -> Result<u32, Seq<char>> {
    match u32_of(text) {
        Some(value) => Ok(value),
        None => Err(uint_refusal(text)),
    }
}

/// What reading the value at position `at` of a pair gives: the message
/// `missing` when the pair has no such value.
pub open spec fn value_outcome(inner: Seq<Seq<char>>, at: int, missing: Seq<char>) -> Result<
    u32,
    Seq<char>,
> {
    if 0 <= at < inner.len() {
        uint_outcome(inner[at])
    } else {
        Err(missing)
    }
}

/// The operation that blurring by `value` is, or the error of `value`.
pub open spec fn blur_outcome(value: Result<u32, Seq<char>>) -> Result<Operation, Seq<char>> {
    match value {
        Ok(sigma) => Ok(Operation::Blur(sigma)),
        Err(message) => Err(message),
    }
}

/// The operation that resizing to `x` by `y` is, or the error of `x`, or
/// else that of `y`.
pub open spec fn resize_outcome(x: Result<u32, Seq<char>>, y: Result<u32, Seq<char>>) -> Result<
    Operation,
    Seq<char>,
> {
    match x {
        Ok(width) => match y {
            Ok(height) => Ok(Operation::Resize(width, height)),
            Err(message) => Err(message),
        },
        Err(message) => Err(message),
    }
}

/// The operation that a pair stands for, or the message that says why it
/// stands for none.
pub open spec fn pair_outcome(pair: PairView) -> Result<Operation, Seq<char>> {
    match pair.rule {
        Rule::Blur => blur_outcome(
            value_outcome(pair.inner, 0, "Unable to parse and capture `blur` value."@),
        ),
        Rule::FlipHorizontal => Ok(Operation::FlipHorizontal),
        Rule::FlipVertical => Ok(Operation::FlipVertical),
        Rule::Resize => resize_outcome(
            value_outcome(pair.inner, 0, "Unable to parse `resize <x> <y>`"@),
            value_outcome(pair.inner, 1, "Unable to parse `resize <x> <y>`"@),
        ),
        Rule::Other => Err("Parse failed: Operation doesn't exist"@),
    }
}

/// The index of the first pair at or after `from` that stands for no
/// operation, or the number of pairs when every one from there on does.
pub open spec fn first_failure(pairs: Seq<PairView>, from: int) -> int
    decreases pairs.len() - from,
{
    if 0 <= from < pairs.len() && pair_outcome(pairs[from]) is Ok {
        first_failure(pairs, from + 1)
    } else {
        from
    }
}

/// The operations that the pairs stand for, in order, or the message of the
/// first pair that stands for none.
pub open spec fn operations_outcome(pairs: Seq<PairView>) -> Result<Seq<Operation>, Seq<char>> {
    let bad = first_failure(pairs, 0);
    if bad < pairs.len() {
        Err(pair_outcome(pairs[bad])->Err_0)
    } else {
        Ok(Seq::new(pairs.len(), |i: int| pair_outcome(pairs[i])->Ok_0))
    }
}

/// The contents of the pairs of `v`, in order.
pub open spec fn pair_views(v: Seq<Pair>) -> Seq<PairView> {
    Seq::new(v.len(), |i: int| v[i]@)
}

/// The content of a result whose error is a message.
pub open spec fn message_view<T>(r: Result<T, String>) -> Result<T, Seq<char>> {
    match r {
        Ok(value) => Ok(value),
        Err(message) => Err(message@),
    }
}

/// The position of the first failure, when every pair in `from..at` stands
/// for an operation and the pairs end at `at` or the pair there stands for
/// none.
proof fn lemma_first_failure_at(pairs: Seq<PairView>, from: int, at: int)
    requires
        0 <= from <= at <= pairs.len(),
        forall|j: int| from <= j < at ==> pair_outcome(#[trigger] pairs[j]) is Ok,
        at == pairs.len() || pair_outcome(pairs[at]) is Err,
    ensures
        first_failure(pairs, from) == at,
    decreases at - from,
{
    if from < at {
        assert(pair_outcome(pairs[from]) is Ok);
        lemma_first_failure_at(pairs, from + 1, at);
    }
}

/// The value at position `at` of a pair, or the message `missing` when the
/// pair has no such value.
fn value_at(inner: &Vec<String>, at: usize, missing: &str) -> (r: Result<u32, String>)
    ensures
        message_view(r) == value_outcome(
            Seq::new(inner@.len(), |i: int| inner@[i]@),
            at as int,
            missing@,
        ),
{
    if at < inner.len() {
        let text: &str = inner[at].as_str();
        match parse_u32(text) {
            Ok(value) => Ok(value),
            Err(_) => Err(refusal_of(text)),
        }
    } else {
        Err(missing.to_owned())
    }
}

/// The blur by `value`, or the error that `value` is.
pub fn blur_of(value: Result<u32, String>) -> (r: Result<Operation, String>)
    ensures
        message_view(r) == blur_outcome(message_view(value)),
{
    match value {
        Ok(sigma) => Ok(Operation::Blur(sigma)),
        Err(message) => Err(message),
    }
}

/// The resize to `x` by `y`, or the error that `x` is, or else the error
/// that `y` is.
pub fn resize_of(x: Result<u32, String>, y: Result<u32, String>) -> (r: Result<Operation, String>)
    ensures
        message_view(r) == resize_outcome(message_view(x), message_view(y)),
{
    match x {
        Ok(width) => match y {
            Ok(height) => Ok(Operation::Resize(width, height)),
            Err(message) => Err(message),
        },
        Err(message) => Err(message),
    }
}

/// The operation that one pair stands for.
pub fn parse_pair(pair: &Pair) -> (r: Result<Operation, String>)
    ensures
        message_view(r) == pair_outcome(pair@),
{
    match pair.rule {
        Rule::Blur => blur_of(value_at(&pair.inner, 0, "Unable to parse and capture `blur` value.")),
        Rule::FlipHorizontal => Ok(Operation::FlipHorizontal),
        Rule::FlipVertical => Ok(Operation::FlipVertical),
        Rule::Resize => {
            let x = value_at(&pair.inner, 0, "Unable to parse `resize <x> <y>`");
            let y = value_at(&pair.inner, 1, "Unable to parse `resize <x> <y>`");
            resize_of(x, y)
        },
        Rule::Other => Err("Parse failed: Operation doesn't exist".to_owned()),
    }
}

/// Reads the operations of a script from the pairs that the grammar has
/// matched. The operations keep the order of the pairs; the first pair that
/// stands for no operation ends the reading with its message.
pub fn parse_image_operations(pairs: &Vec<Pair>) -> (r: Result<Operations, String>)
    ensures
        (match r {
            Ok(operations) => Ok::<Seq<Operation>, Seq<char>>(operations@),
            Err(message) => Err(message@),
        }) == operations_outcome(pair_views(pairs@)),
{
    let ghost views = pair_views(pairs@);
    let n: usize = pairs.len();
    let mut operations: Vec<Operation> = Vec::with_capacity(n);
    let mut at: usize = 0;
    while at < n
        invariant
            at <= n,
            n == pairs@.len(),
            views == pair_views(pairs@),
            operations@.len() == at,
            forall|j: int| 0 <= j < at ==> pair_outcome(#[trigger] views[j]) == Ok::<
                Operation,
                Seq<char>,
            >(operations@[j]),
        decreases n - at,
    {
        match parse_pair(&pairs[at]) {
            Ok(operation) => {
                operations.push(operation);
            },
            Err(message) => {
                proof {
                    lemma_first_failure_at(views, 0, at as int);
                }
                return Err(message);
            },
        }
        at += 1;
    }
    proof {
        lemma_first_failure_at(views, 0, n as int);
        assert(operations@ =~= Seq::new(views.len(), |i: int| pair_outcome(views[i])->Ok_0));
    }
    Ok(operations)
}

} // verus!
