//! Programs from the statements of a script.

use crate::errors::ParserError;
use crate::errors::ParserErrorView;
use crate::op::is_quote;
use crate::op::QuotingPolicy;
use crate::parser::collect_items;
use crate::parser::parse_all;
use crate::parser::Parser;
use crate::program::assemble;
use crate::program::assembled;
use crate::program::item_views;
use crate::program::program_view;
use crate::program::Core;
use crate::program::CoreView;
use crate::program::Item;
use crate::program::ItemView;
use crate::syntax::ParsingMode;
use crate::text::texts;
use crate::text::to_chars;
use vstd::prelude::*;

verus! {

/// Whether `c` is ASCII white space: a space, a tab, a line feed, a form
/// feed or a carriage return.
pub open spec fn is_space(c: char) -> bool {
    c == ' ' || c == '\t' || c == '\n' || c == '\x0C' || c == '\r'
}

/// The quote that is open after the character `c`, when `quote` was open
/// before it: a quote character opens a span, and the same character closes
/// it again.
pub open spec fn quote_after(quote: Option<char>, c: char) -> Option<char> {
    match quote {
        Some(open) => if c == open {
            None
        } else {
            quote
        },
        None => if is_quote(c) {
            Some(c)
        } else {
            None
        },
    }
}

/// The end of the token that position `from` lies in, given the quote that
/// is open there: the first white space outside a quoted span, or the end
/// of the statement.
pub open spec fn token_end(s: Seq<char>, from: int, quote: Option<char>) -> int
    decreases s.len() - from,
{
    if from < 0 || from >= s.len() {
        s.len() as int
    } else if quote is None && is_space(s[from]) {
        from
    } else {
        token_end(s, from + 1, quote_after(quote, s[from]))
    }
}

/// The tokens of `s` from position `from` on. Tokens are separated by white
/// space; a span between two equal quote characters belongs to one token,
/// white space and all, and keeps its quotes.
pub open spec fn tokens_from(s: Seq<char>, from: int) -> Seq<Seq<char>>
    decreases s.len() - from,
    via tokens_from_decreases
{
    if from < 0 || from >= s.len() {
        Seq::empty()
    } else if is_space(s[from]) {
        tokens_from(s, from + 1)
    } else {
        seq![s.subrange(from, token_end(s, from, None))] + tokens_from(
            s,
            token_end(s, from, None),
        )
    }
}

#[via_fn]
proof fn tokens_from_decreases(s: Seq<char>, from: int) {
    if 0 <= from < s.len() && !is_space(s[from]) {
        lemma_token_end_bounds(s, from + 1, quote_after(None, s[from]));
    }
}

/// The tokens of the statement `s`.
pub open spec fn statement_tokens(s: Seq<char>) -> Seq<Seq<char>> {
    tokens_from(s, 0)
}

/// A token does not end before the position it is entered at, nor beyond
/// the end of the statement.
pub proof fn lemma_token_end_bounds(s: Seq<char>, from: int, quote: Option<char>)
    requires
        0 <= from <= s.len(),
    ensures
        from <= token_end(s, from, quote) <= s.len(),
    decreases s.len() - from,
{
    if from < s.len() && !(quote is None && is_space(s[from])) {
        lemma_token_end_bounds(s, from + 1, quote_after(quote, s[from]));
    }
}

/// The items that the statements of a script give: those of the first
/// statement, parsed in script form with string arguments unquoted, then
/// those of the statements after it. An argument is never taken from
/// another statement.
pub open spec fn script_items(statements: Seq<Seq<char>>) -> Result<Seq<ItemView>, ParserErrorView>
    decreases statements.len(),
{
    if statements.len() == 0 {
        Ok(Seq::empty())
    } else {
        match parse_all(
            ParsingMode::Script,
            QuotingPolicy::Unquote,
            statement_tokens(statements[0]),
        ) {
            Err(error) => Err(error),
            Ok(items) => match script_items(statements.drop_first()) {
                Ok(more) => Ok(items + more),
                Err(error) => Err(error),
            },
        }
    }
}

/// The program that the statements of a script give.
pub open spec fn script_program(statements: Seq<Seq<char>>) -> Result<
    Seq<CoreView>,
    ParserErrorView,
> {
    match script_items(statements) {
        Ok(items) => assembled(items),
        Err(error) => Err(error),
    }
}

/// The end of the token that starts at `from`.
fn scan_token(chars: &Vec<char>, from: usize) -> (end: usize)
    requires
        from < chars@.len(),
        !is_space(chars@[from as int]),
    ensures
        end == token_end(chars@, from as int, None),
        from < end <= chars@.len(),
{
    let n: usize = chars.len();
    let mut quote: Option<char> = None;
    let mut at: usize = from;
    while at < n
        invariant
            from <= at <= n,
            n == chars@.len(),
            !is_space(chars@[from as int]),
            at == from ==> quote is None,
            token_end(chars@, from as int, None) == token_end(chars@, at as int, quote),
        decreases n - at,
    {
        let c: char = chars[at];
        match quote {
            Some(open) => {
                if c == open {
                    quote = None;
                }
            },
            None => {
                if c == ' ' || c == '\t' || c == '\n' || c == '\x0C' || c == '\r' {
                    return at;
                }
                if c == '"' || c == '\'' {
                    quote = Some(c);
                }
            },
        }
        at += 1;
    }
    at
}

/// Splits a statement into its tokens.
pub fn split_statement(statement: &str) -> (tokens: Vec<String>)
    ensures
        texts(tokens@) == statement_tokens(statement@),
{
    let chars = to_chars(statement);
    let n: usize = chars.len();
    let mut tokens: Vec<String> = Vec::new();
    let mut at: usize = 0;
    assert(texts(tokens@) + tokens_from(chars@, 0) =~= tokens_from(chars@, 0));
    while at < n
        invariant
            at <= n,
            n == chars@.len(),
            chars@ == statement@,
            statement_tokens(statement@) == texts(tokens@) + tokens_from(chars@, at as int),
        decreases n - at,
    {
        let c: char = chars[at];
        if c == ' ' || c == '\t' || c == '\n' || c == '\x0C' || c == '\r' {
            at += 1;
        } else {
            let end: usize = scan_token(&chars, at);
            let ghost before = texts(tokens@);
            let ghost rest = tokens_from(chars@, end as int);
            tokens.push(statement.substring_char(at, end).to_owned());
            assert(texts(tokens@) =~= before.push(chars@.subrange(at as int, end as int)));
            assert(before + (seq![chars@.subrange(at as int, end as int)] + rest) =~= texts(
                tokens@,
            ) + rest);
            at = end;
        }
    }
    assert(texts(tokens@) + Seq::<Seq<char>>::empty() =~= texts(tokens@));
    tokens
}

/// Parses the statements of a script into a program. The statements are
/// what stood between the separators of the script, so some may be empty;
/// these give nothing. An operation is given as its name, followed by its
/// arguments, separated by white space; a quoted span is one token.
pub fn create_image_ops_script(iter: Vec<String>) -> (r: Result<Vec<Core>, ParserError>)
    ensures
        program_view(r) == script_program(texts(iter@)),
{
    let ghost statements = texts(iter@);
    let n: usize = iter.len();
    let mut items: Vec<Item> = Vec::new();
    let mut at: usize = 0;
    assert(statements.skip(0) =~= statements);
    assert(Seq::<ItemView>::empty() + Seq::<ItemView>::empty() =~= Seq::<ItemView>::empty());
    while at < n
        invariant
            at <= n,
            n == iter@.len(),
            statements == texts(iter@),
            script_items(statements) == (match script_items(statements.skip(at as int)) {
                Ok(rest) => Ok::<Seq<ItemView>, ParserErrorView>(item_views(items@) + rest),
                Err(error) => Err(error),
            }),
        decreases n - at,
    {
        let statement: &str = iter[at].as_str();
        let ghost before = item_views(items@);
        let ghost tail = script_items(statements.skip(at + 1));
        assert(statements.skip(at as int).drop_first() =~= statements.skip(at + 1));
        assert(statements.skip(at as int)[0] == statement@);
        // An empty statement is what a trailing or doubled separator leaves.
        if !statement.is_empty() {
            let parser = Parser::with_config(
                split_statement(statement),
                ParsingMode::Script,
                QuotingPolicy::Unquote,
            );
            collect_items(parser, &mut items)?;
            let ghost own = parse_all(
                ParsingMode::Script,
                QuotingPolicy::Unquote,
                statement_tokens(statement@),
            )->Ok_0;
            assert(tail is Ok ==> before + (own + tail->Ok_0) =~= item_views(items@) + tail->Ok_0);
        } else {
            assert(tail is Ok ==> before + (Seq::<ItemView>::empty() + tail->Ok_0) =~= before
                + tail->Ok_0);
        }
        at += 1;
    }
    assert(item_views(items@) + Seq::<ItemView>::empty() =~= item_views(items@));
    assemble(&items)
}

} // verus!
