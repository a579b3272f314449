//! Laws of the parser: what holds of every input.

use crate::cli_ops::cli_items;
use crate::cli_ops::is_flag_head;
use crate::cli_ops::cli_program;
use crate::errors::ParsePerTypeError;
use crate::errors::ParserErrorView;
use crate::modifier::decode_modifier;
use crate::modifier::is_modifier_keyword;
use crate::modifier::modifier_starts;
use crate::numbers::is_digit;
use crate::numbers::is_sign;
use crate::numbers::is_special;
use crate::numbers::starts_with_char;
use crate::numbers::u32_of;
use crate::op::all_well_typed;
use crate::op::build;
use crate::op::construct;
use crate::op::ill_typed_from;
use crate::op::is_operation_name;
use crate::op::lemma_none_ill_typed;
use crate::op::operation_named;
use crate::op::rejection;
use crate::op::well_typed;
use crate::op::ArgKind;
use crate::op::Decoded;
use crate::op::OperationId;
use crate::op::QuotingPolicy;
use crate::parser::decode;
use crate::parser::lemma_decode_bounded;
use crate::parser::parse_all;
use crate::parser::parsed_program;
use crate::parser::step;
use crate::parser::Step;
use crate::program::assembled;
use crate::program::binding;
use crate::program::first_unbound;
use crate::program::next_occurrence;
use crate::program::occurs_at;
use crate::program::lemma_first_unbound_at;
use crate::program::unbound_at;
use crate::program::CoreView;
use crate::program::ItemView;
use crate::script::script_items;
use crate::script::script_program;
use crate::op::is_quote;
use crate::script::is_space;
use crate::script::lemma_token_end_bounds;
use crate::script::quote_after;
use crate::script::token_end;
use crate::script::statement_tokens;
use crate::script::tokens_from;
use crate::syntax::head_name;
use crate::syntax::is_boundary;
use crate::syntax::lemma_next_boundary_beyond;
use crate::syntax::locked;
use crate::syntax::long_arg;
use crate::syntax::next_boundary;
use crate::syntax::ParsingMode;
use vstd::prelude::*;

verus! {

/// Whether `c` is a lower-case ASCII letter.
pub open spec fn is_lower(c: char) -> bool {
    'a' <= c && c <= 'z'
}

/// The lengths and the first characters of the names in the catalogs.
proof fn lemma_spelling()
    ensures
        "blur"@.len() == 4,
        "blur"@[0] == 'b',
        "brighten"@.len() == 8,
        "brighten"@[0] == 'b',
        "contrast"@.len() == 8,
        "contrast"@[0] == 'c',
        "crop"@.len() == 4,
        "crop"@[0] == 'c',
        "diff"@.len() == 4,
        "diff"@[0] == 'd',
        "filter3x3"@.len() == 9,
        "filter3x3"@[0] == 'f',
        "flip-horizontal"@.len() == 15,
        "flip-horizontal"@[0] == 'f',
        "flip-vertical"@.len() == 13,
        "flip-vertical"@[0] == 'f',
        "grayscale"@.len() == 9,
        "grayscale"@[0] == 'g',
        "hue-rotate"@.len() == 10,
        "hue-rotate"@[0] == 'h',
        "invert"@.len() == 6,
        "invert"@[0] == 'i',
        "resize"@.len() == 6,
        "resize"@[0] == 'r',
        "rotate90"@.len() == 8,
        "rotate90"@[0] == 'r',
        "rotate180"@.len() == 9,
        "rotate180"@[0] == 'r',
        "rotate270"@.len() == 9,
        "rotate270"@[0] == 'r',
        "unsharpen"@.len() == 9,
        "unsharpen"@[0] == 'u',
        "preserve-aspect-ratio"@.len() == 21,
        "preserve-aspect-ratio"@[0] == 'p',
        "sampling-filter"@.len() == 15,
        "sampling-filter"@[0] == 's',
        "invert"@[2] == 'v',
        "resize"@[2] == 's',
        "rotate180"@[6] == '1',
        "rotate270"@[6] == '2',
        "sampling-filter"@[1] == 'a',
{
    reveal_strlit("blur");
    reveal_strlit("brighten");
    reveal_strlit("contrast");
    reveal_strlit("crop");
    reveal_strlit("diff");
    reveal_strlit("filter3x3");
    reveal_strlit("flip-horizontal");
    reveal_strlit("flip-vertical");
    reveal_strlit("grayscale");
    reveal_strlit("hue-rotate");
    reveal_strlit("invert");
    reveal_strlit("resize");
    reveal_strlit("rotate90");
    reveal_strlit("rotate180");
    reveal_strlit("rotate270");
    reveal_strlit("unsharpen");
    reveal_strlit("preserve-aspect-ratio");
    reveal_strlit("sampling-filter");
}

/// Every operation is found again under its own name. The names are at
/// least four characters long and start with a lower-case letter.
pub proof fn lemma_operation_names(id: OperationId)
    ensures
        operation_named(id.spec_name()) == Some(id),
        id.spec_name().len() >= 4,
        is_lower(id.spec_name()[0]),
        id.spec_name().len() == 6 ==> id.spec_name()[2] != 'f',
        !is_modifier_keyword(id.spec_name()),
        !modifier_starts(id.spec_name()),
{
    lemma_spelling();
}

/// What starts an instruction starts with a lower-case letter and is
/// neither three nor eight characters long.
pub proof fn lemma_heads_start_with_a_letter(name: Seq<char>)
    requires
        is_operation_name(name) || is_modifier_keyword(name) || modifier_starts(name),
    ensures
        name.len() >= 3,
        is_lower(name[0]),
        name[0] == 'i' ==> name.len() == 6,
        name[0] != 'n',
{
    lemma_spelling();
}

/// A token that is accepted at a numeric position starts no instruction, in
/// either mode.
pub proof fn lemma_numbers_start_no_instruction(mode: ParsingMode, kind: ArgKind, t: Seq<char>)
    requires
        kind != ArgKind::Text,
        well_typed(kind, t),
    ensures
        !is_boundary(mode, t),
{
    // A number has a digit, a point or a special word after at most one sign.
    assert(t.len() > 0);
    let body = if is_sign(t[0]) {
        t.skip(1)
    } else {
        t
    };
    assert(!long_arg(t)) by {
        if long_arg(t) {
            assert(body[0] == '-');
            assert(!is_digit(body[0]));
        }
    }
    assert(head_name(mode, t) == t);
    if is_boundary(mode, t) {
        lemma_heads_start_with_a_letter(t);
        assert(body == t);
        assert(!is_digit(t[0]) && t[0] != '.');
        assert(is_special(t));
    }
}

/// The token that starts the operation `id`: its name, after `--` where
/// `dashed` says so.
pub open spec fn head(id: OperationId, dashed: bool) -> Seq<char> {
    if dashed {
        seq!['-', '-'] + id.spec_name()
    } else {
        id.spec_name()
    }
}

/// The mode that a first token with or without dashes selects.
pub open spec fn mode_of(dashed: bool) -> ParsingMode {
    if dashed {
        ParsingMode::Arg
    } else {
        ParsingMode::Script
    }
}

/// Whether `args` are arguments for `id`: as many as it takes, each
/// accepted at its position, and no string among them that would start an
/// instruction in `mode`.
pub open spec fn acceptable(mode: ParsingMode, id: OperationId, args: Seq<Seq<char>>) -> bool {
    &&& args.len() == id.arity()
    &&& all_well_typed(id.signature(), args)
    &&& forall|i: int|
        0 <= i < args.len() && id.signature()[i] == ArgKind::Text ==> !is_boundary(
            mode,
            #[trigger] args[i],
        )
}

/// The head of an operation is a long flag exactly when it has dashes, and
/// where dashes are stripped it is looked up under the name of the
/// operation.
proof fn lemma_head(id: OperationId, dashed: bool)
    ensures
        long_arg(head(id, dashed)) == dashed,
        locked(ParsingMode::Ambiguous, head(id, dashed)) == mode_of(dashed),
        head_name(ParsingMode::Arg, head(id, dashed)) == id.spec_name(),
        !dashed ==> head_name(ParsingMode::Script, head(id, dashed)) == id.spec_name(),
{
    lemma_operation_names(id);
    if dashed {
        assert(head(id, dashed).skip(2) =~= id.spec_name());
    }
}

/// No acceptable argument starts an instruction.
proof fn lemma_arguments_start_no_instruction(mode: ParsingMode, id: OperationId, args: Seq<Seq<char>>)
    requires
        acceptable(mode, id, args),
    ensures
        forall|i: int| 0 <= i < args.len() ==> !is_boundary(mode, #[trigger] args[i]),
{
    assert forall|i: int| 0 <= i < args.len() implies !is_boundary(mode, #[trigger] args[i]) by {
        let kind = id.signature()[i];
        assert(well_typed(kind, args[i]));
        if kind != ArgKind::Text {
            lemma_numbers_start_no_instruction(mode, kind, args[i]);
        }
    }
}

/// Decoding an operation with acceptable arguments yields that operation
/// and consumes exactly its arguments.
proof fn lemma_decode_operation(
    mode: ParsingMode,
    quoting: QuotingPolicy,
    id: OperationId,
    dashed: bool,
    args: Seq<Seq<char>>,
    rest: Seq<Seq<char>>,
)
    requires
        mode == ParsingMode::Arg || (mode == ParsingMode::Script && !dashed),
        acceptable(mode, id, args),
    ensures
        decode(mode, quoting, head(id, dashed), args + rest) == (Decoded {
            outcome: Ok(ItemView::Operation(build(id, args, quoting))),
            consumed: id.arity(),
        }),
        (args + rest).skip(id.arity() as int) == rest,
{
    let after = args + rest;
    lemma_head(id, dashed);
    lemma_operation_names(id);
    lemma_arguments_start_no_instruction(mode, id, args);
    assert forall|j: int| 0 <= j < args.len() implies !is_boundary(mode, #[trigger] after[j]) by {
        assert(after[j] == args[j]);
    }
    lemma_next_boundary_beyond(mode, after, 0, args.len() as int);
    assert(after.take(id.arity() as int) =~= args);
    assert(after.skip(id.arity() as int) =~= rest);
    lemma_none_ill_typed(id.signature(), args, 0);
}

/// One step over an operation with acceptable arguments yields that
/// operation and leaves what follows the arguments.
proof fn lemma_step_over_operation(
    from: ParsingMode,
    quoting: QuotingPolicy,
    id: OperationId,
    dashed: bool,
    args: Seq<Seq<char>>,
    rest: Seq<Seq<char>>,
)
    requires
        from == ParsingMode::Ambiguous || from == ParsingMode::Arg || !dashed,
        acceptable(locked(from, head(id, dashed)), id, args),
    ensures
        step(from, quoting, seq![head(id, dashed)] + args + rest) == Some(
            Step {
                outcome: Ok(ItemView::Operation(build(id, args, quoting))),
                mode: locked(from, head(id, dashed)),
                rest,
            },
        ),
{
    let tokens = seq![head(id, dashed)] + args + rest;
    lemma_head(id, dashed);
    lemma_decode_operation(locked(from, head(id, dashed)), quoting, id, dashed, args, rest);
    assert(tokens.drop_first() =~= args + rest);
}

/// **Exact arity.** An operation that is given exactly the arguments it
/// takes, each acceptable at its position, parses to a program of that one
/// operation, of the expected kind and with the values of the arguments. It
/// does so with and without dashes.
pub proof fn law_exact_arity_succeeds(
    quoting: QuotingPolicy,
    id: OperationId,
    dashed: bool,
    args: Seq<Seq<char>>,
)
    requires
        acceptable(mode_of(dashed), id, args),
    ensures
        parsed_program(ParsingMode::Ambiguous, quoting, seq![head(id, dashed)] + args) == Ok::<
            Seq<CoreView>,
            ParserErrorView,
        >(seq![CoreView::Operation(build(id, args, quoting))]),
        build(id, args, quoting).id() == id,
{
    let tokens = seq![head(id, dashed)] + args;
    let item = ItemView::Operation(build(id, args, quoting));
    lemma_head(id, dashed);
    lemma_step_over_operation(ParsingMode::Ambiguous, quoting, id, dashed, args, Seq::empty());
    assert(tokens + Seq::<Seq<char>>::empty() =~= tokens);
    assert(seq![item] + Seq::<ItemView>::empty() =~= seq![item]);
    assert(parse_all(mode_of(dashed), quoting, Seq::empty()) == Ok::<
        Seq<ItemView>,
        ParserErrorView,
    >(Seq::empty()));
    assert(parse_all(ParsingMode::Ambiguous, quoting, tokens) == Ok::<
        Seq<ItemView>,
        ParserErrorView,
    >(seq![item]));
    assert(!unbound_at(seq![item], 0));
    lemma_first_unbound_at(seq![item], 0, 1);
    assert(assembled(seq![item])->Ok_0 =~= seq![CoreView::Operation(build(id, args, quoting))]);
}

/// **Too few arguments.** An operation that is followed by fewer tokens
/// than it takes, and then by the end of the input or by the start of the
/// next instruction, is refused with a count mismatch, whatever the tokens
/// are. The error tells how many tokens stood before the end of the
/// arguments.
pub proof fn law_too_few_arguments_fail(
    quoting: QuotingPolicy,
    id: OperationId,
    dashed: bool,
    args: Seq<Seq<char>>,
    rest: Seq<Seq<char>>,
)
    requires
        args.len() < id.arity(),
        rest.len() == 0 || is_boundary(mode_of(dashed), rest[0]),
    ensures
        next_boundary(mode_of(dashed), args + rest, 0) <= args.len(),
        parsed_program(ParsingMode::Ambiguous, quoting, seq![head(id, dashed)] + args + rest)
            == Err::<Seq<CoreView>, ParserErrorView>(
            ParserErrorView::ArgumentCountMismatch(
                id,
                next_boundary(mode_of(dashed), args + rest, 0) as nat,
            ),
        ),
{
    let mode = mode_of(dashed);
    let tokens = seq![head(id, dashed)] + args + rest;
    let after = args + rest;
    lemma_head(id, dashed);
    lemma_operation_names(id);
    lemma_next_boundary_beyond(mode, after, 0, 0);
    lemma_boundary_stops(mode, after, 0, args.len() as int);
    assert(tokens.drop_first() =~= after);
}

/// The next boundary is not beyond `at` when the tokens end there or the
/// token there is one.
proof fn lemma_boundary_stops(mode: ParsingMode, tokens: Seq<Seq<char>>, from: int, at: int)
    requires
        0 <= from <= at <= tokens.len(),
        at == tokens.len() || is_boundary(mode, tokens[at]),
    ensures
        next_boundary(mode, tokens, from) <= at,
    decreases at - from,
{
    if from < at && !is_boundary(mode, tokens[from]) {
        lemma_boundary_stops(mode, tokens, from + 1, at);
    }
}

/// One operation as it is written: its identifier, whether its name has
/// dashes, and its argument tokens.
pub struct Block {
    pub id: OperationId,
    pub dashed: bool,
    pub args: Seq<Seq<char>>,
}

/// The tokens of a sequence of written operations, one after the other.
pub open spec fn block_tokens(blocks: Seq<Block>) -> Seq<Seq<char>>
    decreases blocks.len(),
{
    if blocks.len() == 0 {
        Seq::empty()
    } else {
        seq![head(blocks[0].id, blocks[0].dashed)] + blocks[0].args + block_tokens(
            blocks.drop_first(),
        )
    }
}

/// Whether the written operations are valid in `mode`: each has acceptable
/// arguments, and dashes occur in command-line form only.
pub open spec fn valid_blocks(mode: ParsingMode, blocks: Seq<Block>) -> bool {
    forall|i: int|
        0 <= i < blocks.len() ==> acceptable(mode, (#[trigger] blocks[i]).id, blocks[i].args) && (
        blocks[i].dashed ==> mode == ParsingMode::Arg)
}

/// The operations that the written operations stand for, in their order.
pub open spec fn block_items(blocks: Seq<Block>, quoting: QuotingPolicy) -> Seq<ItemView> {
    Seq::new(
        blocks.len(),
        |i: int| ItemView::Operation(build(blocks[i].id, blocks[i].args, quoting)),
    )
}

/// The program of the operations that the written operations stand for.
pub open spec fn block_program(blocks: Seq<Block>, quoting: QuotingPolicy) -> Seq<CoreView> {
    Seq::new(
        blocks.len(),
        |i: int| CoreView::Operation(build(blocks[i].id, blocks[i].args, quoting)),
    )
}

/// A parse that is in `mode`, or that the first written operation will lock
/// to `mode`, yields the written operations in their order.
proof fn lemma_parse_blocks(
    from: ParsingMode,
    mode: ParsingMode,
    quoting: QuotingPolicy,
    blocks: Seq<Block>,
)
    requires
        mode != ParsingMode::Ambiguous,
        valid_blocks(mode, blocks),
        from == mode || (from == ParsingMode::Ambiguous && blocks.len() > 0 && mode == mode_of(
            blocks[0].dashed,
        )),
    ensures
        parse_all(from, quoting, block_tokens(blocks)) == Ok::<Seq<ItemView>, ParserErrorView>(
            block_items(blocks, quoting),
        ),
    decreases blocks.len(),
{
    if blocks.len() == 0 {
        assert(block_items(blocks, quoting) =~= Seq::empty());
    } else {
        let first = blocks[0];
        let tail = blocks.drop_first();
        let item = ItemView::Operation(build(first.id, first.args, quoting));
        lemma_head(first.id, first.dashed);
        assert(locked(from, head(first.id, first.dashed)) == mode);
        lemma_step_over_operation(
            from,
            quoting,
            first.id,
            first.dashed,
            first.args,
            block_tokens(tail),
        );
        assert forall|i: int| 0 <= i < tail.len() implies acceptable(
            mode,
            (#[trigger] tail[i]).id,
            tail[i].args,
        ) && (tail[i].dashed ==> mode == ParsingMode::Arg) by {
            assert(tail[i] == blocks[i + 1]);
        }
        lemma_parse_blocks(mode, mode, quoting, tail);
        assert(seq![item] + block_items(tail, quoting) =~= block_items(blocks, quoting)) by {
            assert forall|i: int| 0 < i < blocks.len() implies block_items(tail, quoting)[i - 1]
                == block_items(blocks, quoting)[i] by {
                assert(tail[i - 1] == blocks[i]);
            }
        }
    }
}

/// Items that are all operations are assembled one for one.
proof fn lemma_assemble_blocks(blocks: Seq<Block>, quoting: QuotingPolicy)
    ensures
        assembled(block_items(blocks, quoting)) == Ok::<Seq<CoreView>, ParserErrorView>(
            block_program(blocks, quoting),
        ),
{
    let items = block_items(blocks, quoting);
    assert forall|j: int| 0 <= j < items.len() implies !unbound_at(items, j) by {}
    lemma_first_unbound_at(items, 0, items.len() as int);
    assert(assembled(items)->Ok_0 =~= block_program(blocks, quoting));
}

/// **Order is preserved.** A sequence of operations, each written with
/// acceptable arguments, parses to a program that has exactly one
/// instruction for each of them, in the order in which they are written:
/// instruction `i` is operation `i` with the values of its arguments. In
/// command-line form the first name has dashes and every later name may
/// have them; in script form none has.
pub proof fn law_order_is_preserved(quoting: QuotingPolicy, blocks: Seq<Block>)
    requires
        blocks.len() > 0,
        valid_blocks(mode_of(blocks[0].dashed), blocks),
    ensures
        parsed_program(ParsingMode::Ambiguous, quoting, block_tokens(blocks)) == Ok::<
            Seq<CoreView>,
            ParserErrorView,
        >(block_program(blocks, quoting)),
        block_program(blocks, quoting).len() == blocks.len(),
        forall|i: int|
            0 <= i < blocks.len() ==> #[trigger] block_program(blocks, quoting)[i]
                == CoreView::Operation(build(blocks[i].id, blocks[i].args, quoting)),
{
    lemma_parse_blocks(ParsingMode::Ambiguous, mode_of(blocks[0].dashed), quoting, blocks);
    lemma_assemble_blocks(blocks, quoting);
}

/// The written operations with all dashes, or with none.
pub open spec fn with_dashes(blocks: Seq<Block>, dashed: bool) -> Seq<Block> {
    Seq::new(blocks.len(), |i: int| Block { id: blocks[i].id, dashed, args: blocks[i].args })
}

/// **Both forms give one program.** The same operations with the same
/// arguments, written with dashes before every name and written with none,
/// parse to the same program.
pub proof fn law_forms_agree(quoting: QuotingPolicy, blocks: Seq<Block>)
    requires
        blocks.len() > 0,
        valid_blocks(ParsingMode::Arg, blocks),
        valid_blocks(ParsingMode::Script, with_dashes(blocks, false)),
    ensures
        parsed_program(
            ParsingMode::Ambiguous,
            quoting,
            block_tokens(with_dashes(blocks, true)),
        ) == parsed_program(
            ParsingMode::Ambiguous,
            quoting,
            block_tokens(with_dashes(blocks, false)),
        ),
{
    let dashed = with_dashes(blocks, true);
    let bare = with_dashes(blocks, false);
    assert(valid_blocks(ParsingMode::Arg, dashed)) by {
        assert forall|i: int| 0 <= i < dashed.len() implies acceptable(
            ParsingMode::Arg,
            (#[trigger] dashed[i]).id,
            dashed[i].args,
        ) by {
            assert(acceptable(ParsingMode::Arg, blocks[i].id, blocks[i].args));
        }
    }
    law_order_is_preserved(quoting, dashed);
    law_order_is_preserved(quoting, bare);
    assert(block_program(dashed, quoting) =~= block_program(bare, quoting));
}

/// Without long flags among the tokens, a boundary is one in both modes.
proof fn lemma_boundaries_agree(tokens: Seq<Seq<char>>, from: int)
    requires
        forall|i: int| 0 <= i < tokens.len() ==> !long_arg(#[trigger] tokens[i]),
    ensures
        next_boundary(ParsingMode::Arg, tokens, from) == next_boundary(
            ParsingMode::Script,
            tokens,
            from,
        ),
    decreases tokens.len() - from,
{
    if 0 <= from < tokens.len() {
        assert(!long_arg(tokens[from]));
        if !is_boundary(ParsingMode::Script, tokens[from]) {
            lemma_boundaries_agree(tokens, from + 1);
        }
    }
}

/// Without long flags among `rest`, an instruction is decoded alike in both
/// modes, provided its token is looked up under the same name in both.
proof fn lemma_decoding_agrees(
    quoting: QuotingPolicy,
    flag: Seq<char>,
    token: Seq<char>,
    rest: Seq<Seq<char>>,
)
    requires
        forall|i: int| 0 <= i < rest.len() ==> !long_arg(#[trigger] rest[i]),
        head_name(ParsingMode::Arg, flag) == token,
        !long_arg(token),
        flag == token || is_boundary(ParsingMode::Script, token),
    ensures
        decode(ParsingMode::Arg, quoting, flag, rest) == decode(
            ParsingMode::Script,
            quoting,
            token,
            rest,
        ),
{
    lemma_boundaries_agree(rest, 0);
    if rest.len() > 0 {
        assert(!long_arg(rest[0]));
        let inner = rest.skip(1);
        if inner.len() > 0 {
            assert(inner[0] == rest[1]);
            assert(!long_arg(rest[1]));
        }
        if inner.len() > 1 {
            assert(inner[1] == rest[2]);
            assert(!long_arg(rest[2]));
        }
        assert(decode_modifier(ParsingMode::Arg, inner) == decode_modifier(
            ParsingMode::Script,
            inner,
        ));
    }
}

/// Without long flags among the tokens, the two modes parse them alike.
proof fn lemma_modes_agree(quoting: QuotingPolicy, tokens: Seq<Seq<char>>)
    requires
        forall|i: int| 0 <= i < tokens.len() ==> !long_arg(#[trigger] tokens[i]),
    ensures
        parse_all(ParsingMode::Arg, quoting, tokens) == parse_all(
            ParsingMode::Script,
            quoting,
            tokens,
        ),
    decreases tokens.len(),
{
    if tokens.len() > 0 {
        let rest = tokens.drop_first();
        assert(!long_arg(tokens[0]));
        assert forall|i: int| 0 <= i < rest.len() implies !long_arg(#[trigger] rest[i]) by {
            assert(rest[i] == tokens[i + 1]);
        }
        lemma_decoding_agrees(quoting, tokens[0], tokens[0], rest);
        lemma_decode_bounded(ParsingMode::Script, quoting, tokens[0], rest);
        let consumed = decode(ParsingMode::Script, quoting, tokens[0], rest).consumed as int;
        let left = rest.skip(consumed);
        assert forall|i: int| 0 <= i < left.len() implies !long_arg(#[trigger] left[i]) by {
            assert(left[i] == rest[i + consumed]);
        }
        lemma_modes_agree(quoting, left);
    }
}

/// The token with two dashes before it.
pub open spec fn dashed(token: Seq<char>) -> Seq<char> {
    seq!['-', '-'] + token
}

/// **Dashes select the mode.** Whatever the first token is, with two dashes
/// before it an undecided parse is locked to command-line form; a first
/// token that does not start with two dashes locks it to script form.
pub proof fn law_dashes_select_the_mode(
    quoting: QuotingPolicy,
    first: Seq<char>,
    rest: Seq<Seq<char>>,
)
    requires
        first.len() > 0,
    ensures
        step(ParsingMode::Ambiguous, quoting, seq![dashed(first)] + rest)->0.mode
            == ParsingMode::Arg,
        !(first.len() >= 2 && first[0] == '-' && first[1] == '-') ==> step(
            ParsingMode::Ambiguous,
            quoting,
            seq![first] + rest,
        )->0.mode == ParsingMode::Script,
{
    assert(long_arg(dashed(first)));
}

/// **Both modes give one program.** Let the first token name an operation
/// or a modifier, and let no long flag follow it. Then the parse in
/// command-line form, with two dashes before the first token, and the parse
/// in script form, without them, give the same program or the same error.
pub proof fn law_both_modes_give_one_program(
    quoting: QuotingPolicy,
    first: Seq<char>,
    rest: Seq<Seq<char>>,
)
    requires
        is_boundary(ParsingMode::Script, first),
        forall|i: int| 0 <= i < rest.len() ==> !long_arg(#[trigger] rest[i]),
    ensures
        parsed_program(ParsingMode::Ambiguous, quoting, seq![dashed(first)] + rest)
            == parsed_program(ParsingMode::Ambiguous, quoting, seq![first] + rest),
{
    let with = seq![dashed(first)] + rest;
    let without = seq![first] + rest;
    lemma_heads_start_with_a_letter(first);
    assert(dashed(first).skip(2) =~= first);
    assert(long_arg(dashed(first)));
    assert(!long_arg(first));
    assert(with.drop_first() =~= rest);
    assert(without.drop_first() =~= rest);
    lemma_decoding_agrees(quoting, dashed(first), first, rest);
    lemma_decode_bounded(ParsingMode::Script, quoting, first, rest);
    let consumed = decode(ParsingMode::Script, quoting, first, rest).consumed as int;
    let left = rest.skip(consumed);
    assert forall|i: int| 0 <= i < left.len() implies !long_arg(#[trigger] left[i]) by {
        assert(left[i] == rest[i + consumed]);
    }
    lemma_modes_agree(quoting, left);
}

/// **The mode is never revisited.** A parse that is locked to a mode stays
/// in it at every step.
pub proof fn law_mode_stays_locked(
    mode: ParsingMode,
    quoting: QuotingPolicy,
    tokens: Seq<Seq<char>>,
)
    requires
        mode != ParsingMode::Ambiguous,
        tokens.len() > 0,
    ensures
        step(mode, quoting, tokens)->0.mode == mode,
{
}

/// **Empty input.** No tokens give the empty program, in every mode and
/// from the command line alike.
pub proof fn law_empty_input_is_empty_program(mode: ParsingMode, quoting: QuotingPolicy)
    ensures
        parsed_program(mode, quoting, Seq::empty()) == Ok::<Seq<CoreView>, ParserErrorView>(
            Seq::empty(),
        ),
        cli_program(Seq::empty()) == Ok::<Seq<CoreView>, ParserErrorView>(Seq::empty()),
{
    let none = Seq::<ItemView>::empty();
    lemma_first_unbound_at(none, 0, 0);
    assert(assembled(none)->Ok_0 =~= Seq::<CoreView>::empty());
}

/// Whether a statement holds nothing but white space.
pub open spec fn is_blank(statement: Seq<char>) -> bool {
    forall|i: int| 0 <= i < statement.len() ==> is_space(#[trigger] statement[i])
}

/// A blank statement has no tokens.
proof fn lemma_blank_has_no_tokens(statement: Seq<char>, from: int)
    requires
        is_blank(statement),
    ensures
        tokens_from(statement, from) == Seq::<Seq<char>>::empty(),
    decreases statement.len() - from,
{
    if 0 <= from < statement.len() {
        assert(is_space(statement[from]));
        lemma_blank_has_no_tokens(statement, from + 1);
    }
}

/// Blank statements give no items.
proof fn lemma_blank_statements_give_nothing(statements: Seq<Seq<char>>)
    requires
        forall|i: int| 0 <= i < statements.len() ==> is_blank(#[trigger] statements[i]),
    ensures
        script_items(statements) == Ok::<Seq<ItemView>, ParserErrorView>(Seq::empty()),
    decreases statements.len(),
{
    if statements.len() > 0 {
        let tail = statements.drop_first();
        assert(is_blank(statements[0]));
        lemma_blank_has_no_tokens(statements[0], 0);
        assert forall|i: int| 0 <= i < tail.len() implies is_blank(#[trigger] tail[i]) by {
            assert(tail[i] == statements[i + 1]);
        }
        lemma_blank_statements_give_nothing(tail);
        assert(Seq::<ItemView>::empty() + Seq::<ItemView>::empty() =~= Seq::<ItemView>::empty());
    }
}

/// **Separator artifacts.** A script whose statements are all empty or
/// blank, as doubled and trailing separators leave them, gives the empty
/// program and no error.
pub proof fn law_blank_script_is_empty_program(statements: Seq<Seq<char>>)
    requires
        forall|i: int| 0 <= i < statements.len() ==> is_blank(#[trigger] statements[i]),
    ensures
        script_program(statements) == Ok::<Seq<CoreView>, ParserErrorView>(Seq::empty()),
{
    lemma_blank_statements_give_nothing(statements);
    law_empty_input_is_empty_program(ParsingMode::Script, QuotingPolicy::Unquote);
}

/// **No negative unsigned value.** A token that starts with `-` has no
/// unsigned value, whatever follows the sign, and is rejected at an unsigned
/// position with the error of that kind.
pub proof fn law_unsigned_rejects_minus(t: Seq<char>)
    requires
        starts_with_char(t, '-'),
    ensures
        u32_of(t) is None,
        rejection(ArgKind::UInt, t) == Some(ParsePerTypeError::ParseUIntError),
{
    assert(!is_digit(t[0]));
}

/// The first rejected position is rejected, and none before it is.
proof fn lemma_first_ill_typed(kinds: Seq<ArgKind>, args: Seq<Seq<char>>, from: int)
    requires
        0 <= from <= kinds.len(),
    ensures
        from <= ill_typed_from(kinds, args, from) <= kinds.len(),
        ill_typed_from(kinds, args, from) < kinds.len() ==> !well_typed(
            kinds[ill_typed_from(kinds, args, from)],
            args[ill_typed_from(kinds, args, from)],
        ),
        forall|j: int|
            from <= j < ill_typed_from(kinds, args, from) ==> well_typed(#[trigger] kinds[j], args[j]),
    decreases kinds.len() - from,
{
    if from < kinds.len() && well_typed(kinds[from], args[from]) {
        lemma_first_ill_typed(kinds, args, from + 1);
    }
}

/// **Negative-looking arguments.** An operation whose argument at an
/// unsigned position starts with `-` is refused with the error of unsigned
/// values, provided that every position before it is unsigned too or holds
/// an accepted token.
pub proof fn law_negative_unsigned_argument_fails(
    quoting: QuotingPolicy,
    id: OperationId,
    args: Seq<Seq<char>>,
    at: int,
)
    requires
        args.len() == id.arity(),
        0 <= at < args.len(),
        id.signature()[at] == ArgKind::UInt,
        starts_with_char(args[at], '-'),
        forall|j: int|
            0 <= j < at ==> #[trigger] id.signature()[j] == ArgKind::UInt || well_typed(
                id.signature()[j],
                args[j],
            ),
    ensures
        construct(id, args, quoting) == Err::<crate::op::OpView, ParserErrorView>(
            ParserErrorView::PPTE(ParsePerTypeError::ParseUIntError),
        ),
{
    let kinds = id.signature();
    law_unsigned_rejects_minus(args[at]);
    lemma_first_ill_typed(kinds, args, 0);
    let bad = ill_typed_from(kinds, args, 0);
    if bad > at {
        assert(well_typed(kinds[at], args[at]));
    }
    assert(kinds[bad] == ArgKind::UInt);
}

/// **Negative-looking arguments, parsed.** An operation that is followed by
/// exactly its arguments, one of which starts with `-` at an unsigned
/// position as above, fails to parse with the error of unsigned values. No
/// argument may start an instruction: one that does ends the arguments
/// before their number is reached.
pub proof fn law_negative_unsigned_argument_fails_to_parse(
    quoting: QuotingPolicy,
    id: OperationId,
    dashed: bool,
    args: Seq<Seq<char>>,
    at: int,
)
    requires
        args.len() == id.arity(),
        0 <= at < args.len(),
        id.signature()[at] == ArgKind::UInt,
        starts_with_char(args[at], '-'),
        forall|j: int|
            0 <= j < at ==> #[trigger] id.signature()[j] == ArgKind::UInt || well_typed(
                id.signature()[j],
                args[j],
            ),
        forall|j: int| 0 <= j < args.len() ==> !is_boundary(mode_of(dashed), #[trigger] args[j]),
    ensures
        parsed_program(ParsingMode::Ambiguous, quoting, seq![head(id, dashed)] + args) == Err::<
            Seq<CoreView>,
            ParserErrorView,
        >(ParserErrorView::PPTE(ParsePerTypeError::ParseUIntError)),
{
    let tokens = seq![head(id, dashed)] + args;
    let after = tokens.drop_first();
    lemma_head(id, dashed);
    lemma_operation_names(id);
    assert(after =~= args);
    lemma_next_boundary_beyond(mode_of(dashed), args, 0, args.len() as int);
    assert(args.take(id.arity() as int) =~= args);
    law_negative_unsigned_argument_fails(quoting, id, args, at);
}

/// On the command line the written operations, each with dashes, are
/// decoded in their order.
proof fn lemma_cli_blocks(blocks: Seq<Block>)
    requires
        valid_blocks(ParsingMode::Arg, blocks),
        forall|i: int| 0 <= i < blocks.len() ==> (#[trigger] blocks[i]).dashed,
    ensures
        cli_items(block_tokens(blocks)) == Ok::<Seq<ItemView>, ParserErrorView>(
            block_items(blocks, QuotingPolicy::Verbatim),
        ),
    decreases blocks.len(),
{
    let quoting = QuotingPolicy::Verbatim;
    if blocks.len() == 0 {
        assert(block_items(blocks, quoting) =~= Seq::empty());
    } else {
        let first = blocks[0];
        let tail = blocks.drop_first();
        let item = ItemView::Operation(build(first.id, first.args, quoting));
        let tokens = block_tokens(blocks);
        lemma_head(first.id, true);
        lemma_operation_names(first.id);
        lemma_decode_operation(
            ParsingMode::Arg,
            quoting,
            first.id,
            true,
            first.args,
            block_tokens(tail),
        );
        assert(tokens.drop_first() =~= first.args + block_tokens(tail));
        assert(is_flag_head(tokens[0]));
        assert forall|i: int| 0 <= i < tail.len() implies acceptable(
            ParsingMode::Arg,
            (#[trigger] tail[i]).id,
            tail[i].args,
        ) && tail[i].dashed by {
            assert(tail[i] == blocks[i + 1]);
        }
        lemma_cli_blocks(tail);
        assert(seq![item] + block_items(tail, quoting) =~= block_items(blocks, quoting)) by {
            assert forall|i: int| 0 < i < blocks.len() implies block_items(tail, quoting)[i - 1]
                == block_items(blocks, quoting)[i] by {
                assert(tail[i - 1] == blocks[i]);
            }
        }
    }
}

/// **Order is preserved on the command line.** Operations that are written
/// with dashes and acceptable arguments give a program with exactly one
/// instruction for each, in their order.
pub proof fn law_order_is_preserved_on_the_command_line(blocks: Seq<Block>)
    requires
        valid_blocks(ParsingMode::Arg, blocks),
        forall|i: int| 0 <= i < blocks.len() ==> (#[trigger] blocks[i]).dashed,
    ensures
        cli_program(block_tokens(blocks)) == Ok::<Seq<CoreView>, ParserErrorView>(
            block_program(blocks, QuotingPolicy::Verbatim),
        ),
{
    lemma_cli_blocks(blocks);
    lemma_assemble_blocks(blocks, QuotingPolicy::Verbatim);
}

/// In a script the statements that each hold one written operation are
/// decoded in their order.
proof fn lemma_script_blocks(statements: Seq<Seq<char>>, blocks: Seq<Block>)
    requires
        statements.len() == blocks.len(),
        valid_blocks(ParsingMode::Script, blocks),
        forall|i: int|
            0 <= i < blocks.len() ==> statement_tokens(#[trigger] statements[i]) == seq![
                head(blocks[i].id, false),
            ] + blocks[i].args,
    ensures
        script_items(statements) == Ok::<Seq<ItemView>, ParserErrorView>(
            block_items(blocks, QuotingPolicy::Unquote),
        ),
    decreases blocks.len(),
{
    let quoting = QuotingPolicy::Unquote;
    if blocks.len() == 0 {
        assert(block_items(blocks, quoting) =~= Seq::empty());
    } else {
        let first = blocks[0];
        let tail = blocks.drop_first();
        let later = statements.drop_first();
        let item = ItemView::Operation(build(first.id, first.args, quoting));
        let tokens = statement_tokens(statements[0]);
        assert(!first.dashed);
        lemma_step_over_operation(
            ParsingMode::Script,
            quoting,
            first.id,
            false,
            first.args,
            Seq::empty(),
        );
        assert(tokens + Seq::<Seq<char>>::empty() =~= tokens);
        assert(parse_all(ParsingMode::Script, quoting, Seq::empty()) == Ok::<
            Seq<ItemView>,
            ParserErrorView,
        >(Seq::empty()));
        assert(seq![item] + Seq::<ItemView>::empty() =~= seq![item]);
        assert(parse_all(ParsingMode::Script, quoting, tokens) == Ok::<
            Seq<ItemView>,
            ParserErrorView,
        >(seq![item]));
        assert forall|i: int| 0 <= i < tail.len() implies acceptable(
            ParsingMode::Script,
            (#[trigger] tail[i]).id,
            tail[i].args,
        ) && (tail[i].dashed ==> false) by {
            assert(tail[i] == blocks[i + 1]);
        }
        assert forall|i: int| 0 <= i < tail.len() implies statement_tokens(#[trigger] later[i])
            == seq![head(tail[i].id, false)] + tail[i].args by {
            assert(later[i] == statements[i + 1]);
            assert(tail[i] == blocks[i + 1]);
        }
        lemma_script_blocks(later, tail);
        assert(seq![item] + block_items(tail, quoting) =~= block_items(blocks, quoting)) by {
            assert forall|i: int| 0 < i < blocks.len() implies block_items(tail, quoting)[i - 1]
                == block_items(blocks, quoting)[i] by {
                assert(tail[i - 1] == blocks[i]);
            }
        }
    }
}

/// **Order is preserved in a script.** Statements whose tokens are each the
/// name of an operation and acceptable arguments for it give a program with
/// exactly one instruction for each statement, in the order of the
/// statements.
pub proof fn law_order_is_preserved_in_a_script(statements: Seq<Seq<char>>, blocks: Seq<Block>)
    requires
        statements.len() == blocks.len(),
        valid_blocks(ParsingMode::Script, blocks),
        forall|i: int|
            0 <= i < blocks.len() ==> statement_tokens(#[trigger] statements[i]) == seq![
                head(blocks[i].id, false),
            ] + blocks[i].args,
    ensures
        script_program(statements) == Ok::<Seq<CoreView>, ParserErrorView>(
            block_program(blocks, QuotingPolicy::Unquote),
        ),
{
    lemma_script_blocks(statements, blocks);
    lemma_assemble_blocks(blocks, QuotingPolicy::Unquote);
}

/// **No empty token.** Every token of a statement holds at least one
/// character.
pub proof fn law_tokens_are_not_empty(statement: Seq<char>, from: int)
    ensures
        forall|i: int|
            0 <= i < tokens_from(statement, from).len() ==> (#[trigger] tokens_from(
                statement,
                from,
            )[i]).len() > 0,
    decreases statement.len() - from,
{
    if 0 <= from < statement.len() {
        if is_space(statement[from]) {
            law_tokens_are_not_empty(statement, from + 1);
            assert(tokens_from(statement, from) == tokens_from(statement, from + 1));
        } else {
            let end = token_end(statement, from, None);
            lemma_token_end_bounds(statement, from + 1, quote_after(None, statement[from]));
            law_tokens_are_not_empty(statement, end);
            let first = statement.subrange(from, end);
            let later = tokens_from(statement, end);
            assert(tokens_from(statement, from) == seq![first] + later);
            assert forall|i: int| 0 <= i < tokens_from(statement, from).len() implies (
            #[trigger] tokens_from(statement, from)[i]).len() > 0 by {
                if i > 0 {
                    assert(tokens_from(statement, from)[i] == later[i - 1]);
                }
            }
        }
    } else {
        assert(tokens_from(statement, from).len() == 0);
    }
}

/// Without quotes in the statement, no character of a token is white
/// space.
proof fn lemma_plain_token(statement: Seq<char>, from: int)
    requires
        0 <= from <= statement.len(),
        forall|k: int| 0 <= k < statement.len() ==> !is_quote(#[trigger] statement[k]),
    ensures
        forall|k: int|
            from <= k < token_end(statement, from, None) ==> !is_space(#[trigger] statement[k]),
    decreases statement.len() - from,
{
    if from < statement.len() && !is_space(statement[from]) {
        assert(!is_quote(statement[from]));
        lemma_plain_token(statement, from + 1);
    }
}

/// **Plain statements are split at white space.** Where a statement holds
/// no quote character, no token of it holds white space.
pub proof fn law_plain_tokens_hold_no_space(statement: Seq<char>, from: int)
    requires
        forall|k: int| 0 <= k < statement.len() ==> !is_quote(#[trigger] statement[k]),
    ensures
        forall|i: int, k: int|
            0 <= i < tokens_from(statement, from).len() && 0 <= k < tokens_from(
                statement,
                from,
            )[i].len() ==> !is_space(#[trigger] tokens_from(statement, from)[i][k]),
    decreases statement.len() - from,
{
    if 0 <= from < statement.len() {
        if is_space(statement[from]) {
            law_plain_tokens_hold_no_space(statement, from + 1);
            assert(tokens_from(statement, from) == tokens_from(statement, from + 1));
        } else {
            let end = token_end(statement, from, None);
            lemma_token_end_bounds(statement, from + 1, quote_after(None, statement[from]));
            lemma_plain_token(statement, from);
            law_plain_tokens_hold_no_space(statement, end);
            let first = statement.subrange(from, end);
            let later = tokens_from(statement, end);
            assert(tokens_from(statement, from) == seq![first] + later);
            assert forall|i: int, k: int|
                0 <= i < tokens_from(statement, from).len() && 0 <= k < tokens_from(
                    statement,
                    from,
                )[i].len() implies !is_space(#[trigger] tokens_from(statement, from)[i][k]) by {
                if i == 0 {
                    assert(first[k] == statement[from + k]);
                } else {
                    assert(tokens_from(statement, from)[i] == later[i - 1]);
                }
            }
        }
    } else {
        assert(tokens_from(statement, from).len() == 0);
    }
}

/// Inside a quoted span that is closed at the end of the statement, the
/// token runs to the end.
proof fn lemma_quoted_runs_to_the_end(statement: Seq<char>, from: int, quote: char)
    requires
        1 <= from < statement.len(),
        statement.last() == quote,
        forall|k: int| from <= k < statement.len() - 1 ==> #[trigger] statement[k] != quote,
    ensures
        token_end(statement, from, Some(quote)) == statement.len(),
    decreases statement.len() - from,
{
    if from < statement.len() - 1 {
        assert(statement[from] != quote);
        lemma_quoted_runs_to_the_end(statement, from + 1, quote);
    } else {
        assert(statement[from] == quote);
        assert(token_end(statement, from + 1, None) == statement.len());
    }
}

/// **A quoted span is one token.** A statement that is one span between two
/// equal quote characters, with no such character inside, is a single
/// token, white space inside it and all, and the token keeps its quotes.
pub proof fn law_quoted_span_is_one_token(quote: char, inner: Seq<char>)
    requires
        is_quote(quote),
        forall|k: int| 0 <= k < inner.len() ==> #[trigger] inner[k] != quote,
    ensures
        statement_tokens(seq![quote] + inner + seq![quote]) == seq![
            seq![quote] + inner + seq![quote],
        ],
{
    let statement = seq![quote] + inner + seq![quote];
    assert forall|k: int| 1 <= k < statement.len() - 1 implies #[trigger] statement[k]
        != quote by {
        assert(statement[k] == inner[k - 1]);
    }
    lemma_quoted_runs_to_the_end(statement, 1, quote);
    assert(statement.subrange(0, statement.len() as int) =~= statement);
    assert(tokens_from(statement, statement.len() as int) == Seq::<Seq<char>>::empty());
    assert(seq![statement] + Seq::<Seq<char>>::empty() =~= seq![statement]);
}

/// The first unbound modifier is unbound, and none before it is.
proof fn lemma_first_unbound(items: Seq<ItemView>, from: int)
    requires
        0 <= from <= items.len(),
    ensures
        from <= first_unbound(items, from) <= items.len(),
        first_unbound(items, from) < items.len() ==> unbound_at(
            items,
            first_unbound(items, from),
        ),
        forall|j: int| from <= j < first_unbound(items, from) ==> !unbound_at(items, j),
    decreases items.len() - from,
{
    if from < items.len() && !unbound_at(items, from) {
        lemma_first_unbound(items, from + 1);
    }
}

/// The next occurrence is one, and the operation does not occur before it.
proof fn lemma_next_occurrence(items: Seq<ItemView>, id: OperationId, from: int)
    requires
        0 <= from <= items.len(),
    ensures
        from <= next_occurrence(items, id, from) <= items.len(),
        next_occurrence(items, id, from) < items.len() ==> occurs_at(
            items,
            id,
            next_occurrence(items, id, from),
        ),
        forall|j: int| from <= j < next_occurrence(items, id, from) ==> !occurs_at(items, id, j),
    decreases items.len() - from,
{
    if from < items.len() && !occurs_at(items, id, from) {
        lemma_next_occurrence(items, id, from + 1);
    }
}

/// **Assembly keeps the order.** A program has one instruction for each
/// item that was decoded, at the position of the item: an operation stays
/// the operation it is, a skip stays a skip, and a modifier stays the
/// modifier it is.
pub proof fn law_assembly_keeps_the_order(items: Seq<ItemView>)
    requires
        assembled(items) is Ok,
    ensures
        assembled(items)->Ok_0.len() == items.len(),
        forall|at: int|
            0 <= at < items.len() ==> match #[trigger] items[at] {
                ItemView::Operation(op) => assembled(items)->Ok_0[at] == CoreView::Operation(op),
                ItemView::Skip => assembled(items)->Ok_0[at] == CoreView::Skip,
                ItemView::Modifier(_, modifier) => assembled(items)->Ok_0[at] is SetModifier
                    && assembled(items)->Ok_0[at]->SetModifier_1 == modifier,
            },
{
}

/// **A declared modifier is bound to the next occurrence.** In a program, a
/// modifier that was declared for an operation is bound to a position after
/// its own at which that operation stands, and the operation does not occur
/// between the two.
pub proof fn law_a_declared_modifier_is_bound(items: Seq<ItemView>, at: int)
    requires
        assembled(items) is Ok,
        0 <= at < items.len(),
        items[at] is Modifier,
        items[at]->Modifier_0 is Some,
    ensures
        assembled(items)->Ok_0[at] == CoreView::SetModifier(
            binding(items, at) as nat,
            items[at]->Modifier_1,
        ),
        at < binding(items, at) < items.len(),
        assembled(items)->Ok_0[binding(items, at)] is Operation,
        assembled(items)->Ok_0[binding(items, at)]->Operation_0.id() == items[at]->Modifier_0->0,
        forall|j: int| at < j < binding(items, at) ==> !occurs_at(items, items[at]->Modifier_0->0, j),
{
    let to = binding(items, at);
    lemma_first_unbound(items, 0);
    assert(!unbound_at(items, at));
    lemma_next_occurrence(items, items[at]->Modifier_0->0, at + 1);
    assert(occurs_at(items, items[at]->Modifier_0->0, to));
}

/// **A modifier without its operation refuses the program.** Where a
/// modifier is declared for an operation that does not occur after it,
/// there is no program: the parse ends with the error of an unbound
/// modifier.
pub proof fn law_an_unbound_modifier_is_refused(items: Seq<ItemView>, at: int)
    requires
        0 <= at < items.len(),
        unbound_at(items, at),
    ensures
        assembled(items) is Err,
        assembled(items)->Err_0 is UnboundModifier,
{
    lemma_first_unbound(items, 0);
    let bad = first_unbound(items, 0);
    if bad > at {
        assert(!unbound_at(items, at));
    }
}

} // verus!
