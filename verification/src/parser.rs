//! The parser: a state machine over a token source that senses, from the
//! first token, whether the tokens are written in command-line form or in
//! script form, and decodes one instruction at a time.

use crate::errors::ParserError;
use crate::errors::ParserErrorView;
use crate::modifier::decode_declaration;
use crate::modifier::decode_keyword;
use crate::modifier::decode_modifier;
use crate::modifier::modifier_keyword;
use crate::modifier::modifier_starts;
use crate::modifier::Modifier;
use crate::modifier::ModifierId;
use crate::op::decode_operation;
use crate::op::operation_named;
use crate::op::Decoded;
use crate::op::Op;
use crate::op::QuotingPolicy;
use crate::program::assemble;
use crate::program::assembled;
use crate::program::item_views;
use crate::program::program_view;
use crate::program::Core;
use crate::program::CoreView;
use crate::program::Item;
use crate::program::ItemView;
use crate::source::look_ahead;
use crate::source::open_source;
use crate::source::pending;
use crate::source::take_next;
use crate::syntax::cli_arg;
use crate::syntax::head_name;
use crate::syntax::is_cli_arg;
use crate::syntax::is_long_arg;
use crate::syntax::lemma_next_boundary_beyond;
use crate::syntax::lemma_next_flag_at;
use crate::syntax::lemma_next_flag_bounds;
use crate::syntax::locked;
use crate::syntax::long_arg;
use crate::syntax::name_of;
use crate::syntax::next_flag;
use crate::syntax::ParsingMode;
use crate::text::texts;
use crate::text::view_result;
use peekmore::PeekMoreIterator;
use std::vec::IntoIter;
use vstd::prelude::*;

verus! {

/// A type that has a value which marks the end of a token stream. A stream
/// that is written down with its end in it ends with this value. The parser
/// itself never looks for it: its input ends where its source does, and a
/// token that equals the mark is a token like any other.
pub trait StopMark: Sized {
    /// Whether the value is the mark.
    spec fn is_mark(&self) -> bool;

    /// The mark.
    fn mark() -> (mark: Self)
        ensures
            mark.is_mark(),
    ;
}

impl StopMark for String {
    /// The mark of strings is the control character "end of text" alone.
    open spec fn is_mark(&self) -> bool {
        self@ == seq!['\u{3}']
    }

    fn mark() -> (mark: String) {
        proof {
            reveal_strlit("\u{3}");
        }
        let mark = "\u{3}".to_owned();
        assert(mark@ =~= seq!['\u{3}']);
        mark
    }
}

/// What one step of the parser gives: the item or the error, the mode in
/// which the parse goes on, and the tokens that are left.
pub struct Step {
    pub outcome: Result<ItemView, ParserErrorView>,
    pub mode: ParsingMode,
    pub rest: Seq<Seq<char>>,
}

/// What decoding the instruction that the token `token` starts gives, when
/// `rest` follows the token. In this order: an operation; a modifier, given
/// by its keyword alone or by a declaration; a foreign flag, which is passed
/// over together with the tokens up to the next flag; anything else is
/// unexpected.
pub open spec fn decode(
    mode: ParsingMode,
    quoting: QuotingPolicy,
    token: Seq<char>,
    rest: Seq<Seq<char>>,
) -> Decoded<ItemView> {
    let name = head_name(mode, token);
    if let Some(id) = operation_named(name) {
        let decoded = decode_operation(mode, quoting, id, rest);
        Decoded {
            outcome: match decoded.outcome {
                Ok(op) => Ok(ItemView::Operation(op)),
                Err(error) => Err(error),
            },
            consumed: decoded.consumed,
        }
    } else if let Some(id) = modifier_keyword(name) {
        decode_keyword(mode, id, rest)
    } else if modifier_starts(name) {
        decode_declaration(mode, rest)
    } else if cli_arg(token) {
        Decoded { outcome: Ok(ItemView::Skip), consumed: next_flag(rest, 0) as nat }
    } else {
        Decoded { outcome: Err(ParserErrorView::Unexpected(token)), consumed: 0 }
    }
}

/// One step of the parser on the tokens `tokens`: `None` at the end of the
/// input. Otherwise the first token locks the mode if it is undecided, and
/// the instruction that it starts is decoded.
pub open spec fn step(mode: ParsingMode, quoting: QuotingPolicy, tokens: Seq<Seq<char>>) -> Option<
    Step,
> {
    if tokens.len() == 0 {
        None
    } else {
        let mode = locked(mode, tokens[0]);
        let decoded = decode(mode, quoting, tokens[0], tokens.drop_first());
        Some(
            Step {
                outcome: decoded.outcome,
                mode,
                rest: tokens.drop_first().skip(decoded.consumed as int),
            },
        )
    }
}

/// The items that the parser yields on `tokens`, in the order of the input,
/// or the first error, at which the parse ends.
pub open spec fn parse_all(mode: ParsingMode, quoting: QuotingPolicy, tokens: Seq<Seq<char>>) -> Result<
    Seq<ItemView>,
    ParserErrorView,
>
    decreases tokens.len(),
    via parse_all_decreases
{
    match step(mode, quoting, tokens) {
        None => Ok(Seq::empty()),
        Some(Step { outcome: Err(error), .. }) => Err(error),
        Some(Step { outcome: Ok(item), mode: next_mode, rest }) => match parse_all(
            next_mode,
            quoting,
            rest,
        ) {
            Ok(items) => Ok(seq![item] + items),
            Err(error) => Err(error),
        },
    }
}

#[via_fn]
proof fn parse_all_decreases(mode: ParsingMode, quoting: QuotingPolicy, tokens: Seq<Seq<char>>) {
    lemma_step_shrinks(mode, quoting, tokens);
}

/// The program that parsing `tokens` gives: the items of the parse,
/// assembled.
pub open spec fn parsed_program(mode: ParsingMode, quoting: QuotingPolicy, tokens: Seq<Seq<char>>) -> Result<
    Seq<CoreView>,
    ParserErrorView,
> {
    match parse_all(mode, quoting, tokens) {
        Ok(items) => assembled(items),
        Err(error) => Err(error),
    }
}

/// Decoding an instruction consumes no more tokens than follow its head.
pub proof fn lemma_decode_bounded(
    mode: ParsingMode,
    quoting: QuotingPolicy,
    token: Seq<char>,
    rest: Seq<Seq<char>>,
)
    ensures
        decode(mode, quoting, token, rest).consumed <= rest.len(),
{
    lemma_next_boundary_beyond(mode, rest, 0, 0);
    lemma_next_flag_bounds(rest, 0);
    if rest.len() > 0 {
        let inner = decode_modifier(mode, rest.skip(1));
        assert(inner.consumed <= rest.skip(1).len());
    }
}

/// Every step leaves fewer tokens than it found.
pub proof fn lemma_step_shrinks(mode: ParsingMode, quoting: QuotingPolicy, tokens: Seq<Seq<char>>)
    ensures
        step(mode, quoting, tokens) is Some ==> step(mode, quoting, tokens)->0.rest.len()
            < tokens.len(),
{
    if tokens.len() > 0 {
        lemma_decode_bounded(locked(mode, tokens[0]), quoting, tokens[0], tokens.drop_first());
    }
}

/// A parser over a token source.
pub struct Parser {
    source: PeekMoreIterator<IntoIter<String>>,
    mode: ParsingMode,
    quoting: QuotingPolicy,
}

impl Parser {
    /// The tokens that the parser has not consumed yet.
    pub closed spec fn remaining(&self) -> Seq<Seq<char>> {
        pending(self.source)
    }

    /// The mode of the parse: undecided until the first token is decoded,
    /// and fixed from then on.
    pub closed spec fn mode(&self) -> ParsingMode {
        self.mode
    }

    /// How string arguments are taken.
    pub closed spec fn quoting(&self) -> QuotingPolicy {
        self.quoting
    }

    /// A parser over `input` whose mode the first token decides, and which
    /// takes string arguments as they are.
    pub fn new(input: Vec<String>) -> (parser: Parser)
        ensures
            parser.remaining() == texts(input@),
            parser.mode() == ParsingMode::Ambiguous,
            parser.quoting() == QuotingPolicy::Verbatim,
    {
        Parser {
            source: open_source(input),
            mode: ParsingMode::Ambiguous,
            quoting: QuotingPolicy::Verbatim,
        }
    }

    /// A parser over `input` in the given mode and with the given quoting
    /// policy.
    pub fn with_config(input: Vec<String>, mode: ParsingMode, quoting: QuotingPolicy) -> (parser:
        Parser)
        ensures
            parser.remaining() == texts(input@),
            parser.mode() == mode,
            parser.quoting() == quoting,
    {
        Parser { source: open_source(input), mode, quoting }
    }

    /// Whether the next token is a long flag. Nothing is consumed.
    pub fn has_arg_prefix(&mut self) -> (r: bool)
        ensures
            final(self).remaining() == old(self).remaining(),
            final(self).mode() == old(self).mode(),
            final(self).quoting() == old(self).quoting(),
            r == (old(self).remaining().len() > 0 && long_arg(old(self).remaining()[0])),
    {
        match look_ahead(&mut self.source, 0) {
            Some(token) => is_long_arg(token.as_str()),
            None => false,
        }
    }

    /// Passes over the tokens up to the next one that looks like a flag, or
    /// up to the end of the input.
    pub fn skip_non_image_op_cli_arguments(&mut self) -> (r: Option<Result<Item, ParserError>>)
        ensures
            r is Some && r->0 is Ok && r->0->Ok_0@ == ItemView::Skip,
            final(self).remaining() == old(self).remaining().skip(
                next_flag(old(self).remaining(), 0),
            ),
            final(self).mode() == old(self).mode(),
            final(self).quoting() == old(self).quoting(),
    {
        let ghost rest = self.remaining();
        let ghost mut passed: int = 0;
        assert(rest.skip(0) =~= rest);
        loop
            invariant
                0 <= passed <= rest.len(),
                rest == old(self).remaining(),
                self.remaining() == rest.skip(passed),
                self.mode() == old(self).mode(),
                self.quoting() == old(self).quoting(),
                forall|j: int| 0 <= j < passed ==> !cli_arg(#[trigger] rest[j]),
            decreases rest.len() - passed,
        {
            let stop = match look_ahead(&mut self.source, 0) {
                Some(token) => is_cli_arg(token.as_str()),
                None => true,
            };
            if stop {
                proof {
                    lemma_next_flag_at(rest, 0, passed);
                }
                return Some(Ok(Item::Skip));
            }
            let _ = take_next(&mut self.source);
            proof {
                assert(rest.skip(passed).drop_first() =~= rest.skip(passed + 1));
                passed = passed + 1;
            }
        }
    }

    /// Decodes the next instruction. The result is `None` at the end of the
    /// input, and then nothing changes.
    pub fn next(&mut self) -> (r: Option<Result<Item, ParserError>>)
        ensures
            final(self).quoting() == old(self).quoting(),
            match step(old(self).mode(), old(self).quoting(), old(self).remaining()) {
                None => r is None && final(self).mode() == old(self).mode()
                    && final(self).remaining() == old(self).remaining(),
                Some(step) => r is Some && view_result(r->0) == step.outcome && final(self).mode()
                    == step.mode && final(self).remaining() == step.rest,
            },
    {
        let ghost tokens = self.remaining();
        let prefixed = self.has_arg_prefix();
        let token = match take_next(&mut self.source) {
            Some(token) => token,
            None => {
                return None;
            },
        };
        if self.mode == ParsingMode::Ambiguous {
            self.mode = if prefixed {
                ParsingMode::Arg
            } else {
                ParsingMode::Script
            };
        }
        let ghost rest = tokens.drop_first();
        let name = name_of(self.mode, token.as_str());
        if let Some(which) = Op::from_str(&mut self.source, name, self.mode, self.quoting) {
            return Some(
                match which {
                    Ok(op) => Ok(Item::Operation(op)),
                    Err(error) => Err(error),
                },
            );
        }
        if let Some(id) = ModifierId::lookup(name) {
            return Some(Modifier::keyword_for(&mut self.source, id, self.mode));
        }
        if Modifier::modifier_start(name) {
            return Modifier::modifier_for(&mut self.source, self.mode);
        }
        if is_cli_arg(token.as_str()) {
            proof {
                lemma_next_flag_bounds(rest, 0);
            }
            return self.skip_non_image_op_cli_arguments();
        }
        assert(rest.skip(0) =~= rest);
        Some(Err(ParserError::Unexpected(token)))
    }
}

/// Runs the parser to the end of its input and appends the items that it
/// yields to `items`. The first error ends the run.
pub fn collect_items(parser: Parser, items: &mut Vec<Item>) -> (r: Result<(), ParserError>)
    ensures
        match parse_all(parser.mode(), parser.quoting(), parser.remaining()) {
            Ok(more) => r is Ok && item_views(final(items)@) == item_views(old(items)@) + more,
            Err(error) => r is Err && r->Err_0@ == error,
        },
{
    let ghost whole = parse_all(parser.mode(), parser.quoting(), parser.remaining());
    let ghost first = item_views(items@);
    let mut state = parser;
    assert(first + Seq::<ItemView>::empty() =~= first);
    loop
        invariant
            whole == parse_all(parser.mode(), parser.quoting(), parser.remaining()),
            whole == (match parse_all(state.mode(), state.quoting(), state.remaining()) {
                Ok(rest) => Ok::<Seq<ItemView>, ParserErrorView>(
                    item_views(items@).skip(first.len() as int) + rest,
                ),
                Err(error) => Err(error),
            }),
            first.len() <= items@.len(),
            item_views(items@).take(first.len() as int) == first,
            first == item_views(old(items)@),
        decreases state.remaining().len(),
    {
        proof {
            lemma_step_shrinks(state.mode(), state.quoting(), state.remaining());
        }
        let ghost before = item_views(items@);
        match state.next() {
            None => {
                assert(before.skip(first.len() as int) + Seq::<ItemView>::empty()
                    =~= before.skip(first.len() as int));
                assert(before =~= first + before.skip(first.len() as int));
                return Ok(());
            },
            Some(Err(error)) => {
                return Err(error);
            },
            Some(Ok(item)) => {
                let ghost rest = parse_all(state.mode(), state.quoting(), state.remaining());
                items.push(item);
                assert(item_views(items@) =~= before.push(item@));
                assert(item_views(items@).take(first.len() as int) =~= before.take(
                    first.len() as int,
                ));
                assert(rest is Ok ==> before.skip(first.len() as int) + (seq![item@] + rest->Ok_0)
                    =~= item_views(items@).skip(first.len() as int) + rest->Ok_0);
            },
        }
    }
}

/// Parses a flat sequence of tokens into a program. The first token decides
/// whether the tokens are read in command-line form or in script form. The
/// program keeps the order of the input; the first error ends the parse, and
/// no part of a program is returned with it.
pub fn prototype(args: Vec<String>) -> (r: Result<Vec<Core>, ParserError>)
    ensures
        program_view(r) == parsed_program(
            ParsingMode::Ambiguous,
            QuotingPolicy::Verbatim,
            texts(args@),
        ),
{
    let parser = Parser::new(args);
    let mut items: Vec<Item> = Vec::new();
    match collect_items(parser, &mut items) {
        Ok(()) => {
            assert(item_views(items@) =~= Seq::<ItemView>::empty() + item_views(items@));
            assemble(&items)
        },
        Err(error) => Err(error),
    }
}

} // verus!
