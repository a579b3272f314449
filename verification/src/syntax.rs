//! The surface syntax of tokens: command-line flags, parsing modes and the
//! boundaries between instructions.

use crate::modifier::is_modifier_keyword;
use crate::modifier::modifier_starts;
use crate::modifier::Modifier;
use crate::modifier::ModifierId;
use crate::op::is_operation_name;
use crate::op::OperationId;
use vstd::prelude::*;

verus! {

/// How the tokens of one parse are written.
#[derive(Clone, Copy, Debug, PartialEq, Eq, Structural)]
pub enum ParsingMode {
    /// Command-line form: an instruction may start with `--`.
    Arg,
    /// Script form: instructions are written bare.
    Script,
    /// Not decided yet; the first token decides.
    Ambiguous,
}

/// Whether `t` is a long flag: `--` and at least one more character.
pub open spec fn long_arg(t: Seq<char>) -> bool {
    t.len() > 2 && t[0] == '-' && t[1] == '-'
}

/// Whether `t` is a short flag: `-` and one ASCII character.
pub open spec fn short_arg(t: Seq<char>) -> bool {
    t.len() == 2 && t[0] == '-' && (t[1] as u32) < 128
}

/// Whether `t` looks like a command-line flag.
pub open spec fn cli_arg(t: Seq<char>) -> bool {
    long_arg(t) || short_arg(t)
}

/// The mode in which a parse goes on once it has seen the token `first`: an
/// undecided parse is locked by it, a decided one stays as it is.
pub open spec fn locked(mode: ParsingMode, first: Seq<char>) -> ParsingMode {
    match mode {
        ParsingMode::Ambiguous => if long_arg(first) {
            ParsingMode::Arg
        } else {
            ParsingMode::Script
        },
        decided => decided,
    }
}

/// The name under which the token `t` is looked up: in command-line form a
/// long flag loses its `--`; every other token is taken as it is.
pub open spec fn head_name(mode: ParsingMode, t: Seq<char>) -> Seq<char> {
    if mode == ParsingMode::Arg && long_arg(t) {
        t.skip(2)
    } else {
        t
    }
}

/// Whether the token `t` starts an instruction: its name is an operation, a
/// modifier keyword, or begins a modifier declaration. The arguments of an
/// instruction end before such a token.
pub open spec fn is_boundary(mode: ParsingMode, t: Seq<char>) -> bool {
    let name = head_name(mode, t);
    is_operation_name(name) || is_modifier_keyword(name) || modifier_starts(name)
}

/// The index of the first token at or after `from` that is a boundary, or
/// the number of tokens when none follows.
pub open spec fn next_boundary(mode: ParsingMode, tokens: Seq<Seq<char>>, from: int) -> int
    decreases tokens.len() - from,
{
    if 0 <= from < tokens.len() && !is_boundary(mode, tokens[from]) {
        next_boundary(mode, tokens, from + 1)
    } else {
        from
    }
}

/// The index of the first token at or after `from` that looks like a
/// command-line flag, or the number of tokens when none follows.
pub open spec fn next_flag(tokens: Seq<Seq<char>>, from: int) -> int
    decreases tokens.len() - from,
{
    if 0 <= from < tokens.len() && !cli_arg(tokens[from]) {
        next_flag(tokens, from + 1)
    } else {
        from
    }
}

/// The position of the next boundary, when no token in `from..at` is one and
/// the tokens end at `at` or the token there is one.
pub proof fn lemma_next_boundary_at(mode: ParsingMode, tokens: Seq<Seq<char>>, from: int, at: int)
    requires
        0 <= from <= at <= tokens.len(),
        forall|j: int| from <= j < at ==> !is_boundary(mode, #[trigger] tokens[j]),
        at == tokens.len() || is_boundary(mode, tokens[at]),
    ensures
        next_boundary(mode, tokens, from) == at,
    decreases at - from,
{
    if from < at {
        assert(!is_boundary(mode, tokens[from]));
        lemma_next_boundary_at(mode, tokens, from + 1, at);
    }
}

/// The next boundary is not before `at` when no token in `from..at` is one.
pub proof fn lemma_next_boundary_beyond(mode: ParsingMode, tokens: Seq<Seq<char>>, from: int, at: int)
    requires
        0 <= from <= at <= tokens.len(),
        forall|j: int| from <= j < at ==> !is_boundary(mode, #[trigger] tokens[j]),
    ensures
        at <= next_boundary(mode, tokens, from) <= tokens.len(),
    decreases tokens.len() - from,
{
    if from < tokens.len() && !is_boundary(mode, tokens[from]) {
        if from < at {
            lemma_next_boundary_beyond(mode, tokens, from + 1, at);
        } else {
            lemma_next_boundary_beyond(mode, tokens, from + 1, from + 1);
        }
    }
}

/// The position of the next flag, when no token in `from..at` is one and the
/// tokens end at `at` or the token there is one.
pub proof fn lemma_next_flag_at(tokens: Seq<Seq<char>>, from: int, at: int)
    requires
        0 <= from <= at <= tokens.len(),
        forall|j: int| from <= j < at ==> !cli_arg(#[trigger] tokens[j]),
        at == tokens.len() || cli_arg(tokens[at]),
    ensures
        next_flag(tokens, from) == at,
    decreases at - from,
{
    if from < at {
        assert(!cli_arg(tokens[from]));
        lemma_next_flag_at(tokens, from + 1, at);
    }
}

/// The next flag is at or after `from` and not beyond the end.
pub proof fn lemma_next_flag_bounds(tokens: Seq<Seq<char>>, from: int)
    requires
        0 <= from <= tokens.len(),
    ensures
        from <= next_flag(tokens, from) <= tokens.len(),
    decreases tokens.len() - from,
{
    if from < tokens.len() && !cli_arg(tokens[from]) {
        lemma_next_flag_bounds(tokens, from + 1);
    }
}

/// Whether the argument is a long flag.
pub fn is_long_arg(arg: &str) -> (r: bool)
    ensures
        r == long_arg(arg@),
{
    arg.unicode_len() > 2 && arg.get_char(0) == '-' && arg.get_char(1) == '-'
}

/// Whether the argument is a short flag.
pub fn is_short_arg(arg: &str) -> (r: bool)
    ensures
        r == short_arg(arg@),
{
    arg.unicode_len() == 2 && arg.get_char(0) == '-' && (arg.get_char(1) as u32) < 128
}

/// Whether the argument looks like a command-line flag. Flags that name no
/// instruction are passed over.
pub fn is_cli_arg(arg: &str) -> (r: bool)
    ensures
        r == cli_arg(arg@),
{
    is_long_arg(arg) || is_short_arg(arg)
}

/// The name under which `token` is looked up in `mode`.
pub fn name_of<'a>(mode: ParsingMode, token: &'a str) -> (name: &'a str)
    ensures
        name@ == head_name(mode, token@),
{
    if mode == ParsingMode::Arg && is_long_arg(token) {
        let n: usize = token.unicode_len();
        let name = token.substring_char(2, n);
        assert(name@ =~= token@.skip(2));
        name
    } else {
        token
    }
}

/// Whether `token` starts an instruction in `mode`.
pub fn starts_instruction(mode: ParsingMode, token: &str) -> (r: bool)
    ensures
        r == is_boundary(mode, token@),
{
    let name = name_of(mode, token);
    OperationId::lookup(name).is_some() || ModifierId::lookup(name).is_some()
        || Modifier::modifier_start(name)
}

} // verus!
