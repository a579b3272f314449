//! Programs from command-line arguments.

use crate::errors::ParserError;
use crate::errors::ParserErrorView;
use crate::modifier::is_modifier_keyword;
use crate::modifier::Modifier;
use crate::modifier::ModifierId;
use crate::op::is_operation_name;
use crate::op::OperationId;
use crate::op::QuotingPolicy;
use crate::parser::decode;
use crate::parser::lemma_decode_bounded;
use crate::program::assemble;
use crate::program::assembled;
use crate::program::item_views;
use crate::program::program_view;
use crate::program::Core;
use crate::program::CoreView;
use crate::program::Item;
use crate::program::ItemView;
use crate::source::look_ahead;
use crate::source::open_source;
use crate::source::pending;
use crate::source::take_next;
use crate::syntax::is_boundary;
use crate::syntax::is_long_arg;
use crate::syntax::lemma_next_boundary_at;
use crate::syntax::lemma_next_boundary_beyond;
use crate::syntax::long_arg;
use crate::syntax::name_of;
use crate::syntax::next_boundary;
use crate::syntax::starts_instruction;
use crate::syntax::ParsingMode;
use crate::text::texts;
use peekmore::PeekMoreIterator;
use std::vec::IntoIter;
use vstd::prelude::*;

verus! {

/// Takes the arguments of `operation` from the source: exactly as many
/// tokens as the operation takes, provided that many stand before the next
/// token that starts an instruction. Otherwise nothing is taken, and the
/// error tells how many were there.
pub fn take_n(
    iter: &mut PeekMoreIterator<IntoIter<String>>,
    operation: OperationId,
    mode: ParsingMode,
) -> (r: Result<Vec<String>, ParserError>)
    ensures
        r is Ok <==> next_boundary(mode, pending(*old(iter)), 0) >= operation.arity(),
        r is Ok ==> texts(r->Ok_0@) == pending(*old(iter)).take(operation.arity() as int)
            && pending(*final(iter)) == pending(*old(iter)).skip(operation.arity() as int),
        r is Err ==> r->Err_0@ == ParserErrorView::ArgumentCountMismatch(
            operation,
            next_boundary(mode, pending(*old(iter)), 0) as nat,
        ) && pending(*final(iter)) == pending(*old(iter)),
{
    let ghost rest = pending(*iter);
    let n: usize = operation.takes_number_of_arguments();
    let mut available: usize = 0;
    while available < n
        invariant
            available <= n <= 9,
            n == operation.arity(),
            rest == pending(*old(iter)),
            pending(*iter) == rest,
            available <= rest.len(),
            forall|j: int| 0 <= j < available ==> !is_boundary(mode, #[trigger] rest[j]),
        decreases n - available,
    {
        let ends = match look_ahead(iter, available) {
            Some(token) => starts_instruction(mode, token.as_str()),
            None => true,
        };
        if ends {
            proof {
                lemma_next_boundary_at(mode, rest, 0, available as int);
            }
            return Err(ParserError::ArgumentCountMismatch(operation, available));
        }
        available += 1;
    }
    proof {
        lemma_next_boundary_beyond(mode, rest, 0, n as int);
    }
    let mut args: Vec<String> = Vec::with_capacity(n);
    let mut taken: usize = 0;
    while taken < n
        invariant
            taken <= n <= rest.len(),
            args@.len() == taken,
            pending(*iter) == rest.skip(taken as int),
            texts(args@) == rest.take(taken as int),
        decreases n - taken,
    {
        let ghost before = args@;
        if let Some(token) = take_next(iter) {
            args.push(token);
        }
        assert(rest.skip(taken as int).drop_first() =~= rest.skip(taken + 1));
        assert(forall|j: int| 0 <= j < taken ==> texts(before)[j] == rest.take(taken as int)[j]);
        assert(texts(args@) =~= rest.take(taken + 1));
        taken += 1;
    }
    Ok(args)
}

/// An empty list of items with room for as many entries as the hint says,
/// or for 128 when there is no hint.
fn empty_ast(size_hint: Option<usize>) -> (ast: Vec<Item>)
    ensures
        ast@.len() == 0,
{
    let size: usize = if let Some(size) = size_hint {
        size
    } else {
        128
    };
    Vec::with_capacity(size)
}

/// Whether the token `t` starts an instruction on the command line: `--`
/// and the name of an operation or the keyword of a modifier.
pub open spec fn is_flag_head(t: Seq<char>) -> bool {
    long_arg(t) && (is_operation_name(t.skip(2)) || is_modifier_keyword(t.skip(2)))
}

/// The items that command-line arguments give. Every token that starts an
/// instruction is decoded as in command-line form; every other token that
/// is not consumed as an argument is passed over without a trace.
pub open spec fn cli_items(tokens: Seq<Seq<char>>) -> Result<Seq<ItemView>, ParserErrorView>
    decreases tokens.len(),
    via cli_items_decreases
{
    if tokens.len() == 0 {
        Ok(Seq::empty())
    } else if !is_flag_head(tokens[0]) {
        cli_items(tokens.drop_first())
    } else {
        let decoded = decode(
            ParsingMode::Arg,
            QuotingPolicy::Verbatim,
            tokens[0],
            tokens.drop_first(),
        );
        match decoded.outcome {
            Err(error) => Err(error),
            Ok(item) => match cli_items(tokens.drop_first().skip(decoded.consumed as int)) {
                Ok(items) => Ok(seq![item] + items),
                Err(error) => Err(error),
            },
        }
    }
}

#[via_fn]
proof fn cli_items_decreases(tokens: Seq<Seq<char>>) {
    if tokens.len() > 0 {
        lemma_decode_bounded(
            ParsingMode::Arg,
            QuotingPolicy::Verbatim,
            tokens[0],
            tokens.drop_first(),
        );
    }
}

/// The program that command-line arguments give.
pub open spec fn cli_program(tokens: Seq<Seq<char>>) -> Result<Seq<CoreView>, ParserErrorView> {
    match cli_items(tokens) {
        Ok(items) => assembled(items),
        Err(error) => Err(error),
    }
}

/// Parses the image operations among command-line arguments into a program.
/// An operation is given as `--` and its name, followed by its arguments as
/// separate tokens. Arguments that belong to no image operation are passed
/// over: validating them is left to the caller.
pub fn create_image_ops_cli(iter: Vec<String>) -> (r: Result<Vec<Core>, ParserError>)
    ensures
        program_view(r) == cli_program(texts(iter@)),
{
    let ghost whole = cli_items(texts(iter@));
    let mut ast: Vec<Item> = empty_ast(Some(iter.len()));
    let mut source = open_source(iter);
    assert(Seq::<ItemView>::empty() + Seq::<ItemView>::empty() =~= Seq::<ItemView>::empty());
    loop
        invariant
            whole == cli_items(texts(iter@)),
            whole == (match cli_items(pending(source)) {
                Ok(rest) => Ok::<Seq<ItemView>, ParserErrorView>(item_views(ast@) + rest),
                Err(error) => Err(error),
            }),
        decreases pending(source).len(),
    {
        let ghost tokens = pending(source);
        let ghost before = item_views(ast@);
        let arg = match take_next(&mut source) {
            Some(arg) => arg,
            None => {
                assert(before + Seq::<ItemView>::empty() =~= before);
                return assemble(&ast);
            },
        };
        let ghost rest = tokens.drop_first();
        proof {
            lemma_decode_bounded(ParsingMode::Arg, QuotingPolicy::Verbatim, tokens[0], rest);
        }
        if is_long_arg(arg.as_str()) {
            let name = name_of(ParsingMode::Arg, arg.as_str());
            let item = if let Some(operation) = OperationId::lookup(name) {
                let inputs = take_n(&mut source, operation, ParsingMode::Arg)?;
                Some(Item::Operation(operation.construct(&inputs, QuotingPolicy::Verbatim)?))
            } else if let Some(id) = ModifierId::lookup(name) {
                Some(Modifier::keyword_for(&mut source, id, ParsingMode::Arg)?)
            } else {
                None
            };
            if let Some(item) = item {
                let ghost more = cli_items(pending(source));
                ast.push(item);
                assert(item_views(ast@) =~= before.push(item@));
                assert(more is Ok ==> before + (seq![item@] + more->Ok_0) =~= item_views(ast@)
                    + more->Ok_0);
            }
        }
    }
}

} // verus!
