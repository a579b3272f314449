//! The modifier catalog: settings of the environment in which an operation
//! runs.

use crate::errors::ParsePerTypeError;
use crate::errors::ParserError;
use crate::errors::ParserErrorView;
use crate::op::operation_named;
use crate::op::Decoded;
use crate::op::OperationId;
use crate::program::Item;
use crate::program::ItemView;
use crate::source::look_ahead;
use crate::source::pending;
use crate::source::take_next;
use crate::syntax::is_boundary;
use crate::syntax::starts_instruction;
use crate::syntax::ParsingMode;
use crate::text::same_text;
use crate::text::view_result;
use peekmore::PeekMoreIterator;
use std::vec::IntoIter;
use vstd::prelude::*;

verus! {

/// The resampling filters, a closed set.
#[derive(Clone, Copy, Debug, PartialEq, Eq, Structural)]
pub enum FilterType {
    Nearest,
    Triangle,
    CatmullRom,
    Gaussian,
    Lanczos3,
}

/// A setting together with its value.
#[derive(Clone, Copy, Debug, PartialEq, Eq, Structural)]
pub enum Modifier {
    /// Whether a resize keeps the ratio of width to height.
    PreserveAspectRatio(bool),
    /// The filter with which a resize samples.
    SamplingFilter(FilterType),
}

impl View for Modifier {
    type V = Modifier;

    open spec fn view(&self) -> Modifier {
        *self
    }
}

/// The keywords of the modifiers, a closed set.
#[derive(Clone, Copy, Debug, PartialEq, Eq, Structural)]
pub enum ModifierId {
    PreserveAspectRatio,
    SamplingFilter,
}

/// The modifier that the keyword `name` stands for, if any.
pub open spec fn modifier_keyword(name: Seq<char>) -> Option<ModifierId> {
    if name == "preserve-aspect-ratio"@ {
        Some(ModifierId::PreserveAspectRatio)
    } else if name == "sampling-filter"@ {
        Some(ModifierId::SamplingFilter)
    } else {
        None
    }
}

/// Whether `name` is the keyword of a modifier.
pub open spec fn is_modifier_keyword(name: Seq<char>) -> bool {
    modifier_keyword(name) is Some
}

/// Whether `name` begins a modifier declaration: its first three characters
/// are `set`.
pub open spec fn modifier_starts(name: Seq<char>) -> bool {
    name.len() >= 3 && name[0] == 's' && name[1] == 'e' && name[2] == 't'
}

/// The filter that `t` names, if any.
pub open spec fn filter_named(t: Seq<char>) -> Option<FilterType> {
    if t == "nearest"@ {
        Some(FilterType::Nearest)
    } else if t == "triangle"@ {
        Some(FilterType::Triangle)
    } else if t == "catmullrom"@ {
        Some(FilterType::CatmullRom)
    } else if t == "gaussian"@ {
        Some(FilterType::Gaussian)
    } else if t == "lanczos3"@ {
        Some(FilterType::Lanczos3)
    } else {
        None
    }
}

/// The truth value that `t` names: `true` or `false` and nothing else.
pub open spec fn bool_named(t: Seq<char>) -> Option<bool> {
    if t == "true"@ {
        Some(true)
    } else if t == "false"@ {
        Some(false)
    } else {
        None
    }
}

/// The modifier `id` with the value that the token `t` names, if `t` names a
/// value of the modifier.
pub open spec fn modifier_value(id: ModifierId, t: Seq<char>) -> Option<Modifier> {
    match id {
        ModifierId::PreserveAspectRatio => match bool_named(t) {
            Some(b) => Some(Modifier::PreserveAspectRatio(b)),
            None => None,
        },
        ModifierId::SamplingFilter => match filter_named(t) {
            Some(f) => Some(Modifier::SamplingFilter(f)),
            None => None,
        },
    }
}

impl FilterType {
    /// The name of the filter.
    pub open spec fn spec_name(self) -> Seq<char> {
        match self {
            FilterType::Nearest => "nearest"@,
            FilterType::Triangle => "triangle"@,
            FilterType::CatmullRom => "catmullrom"@,
            FilterType::Gaussian => "gaussian"@,
            FilterType::Lanczos3 => "lanczos3"@,
        }
    }

    /// The name of the filter.
    pub fn as_str(self) -> (name: &'static str)
        ensures
            name@ == self.spec_name(),
    {
        match self {
            FilterType::Nearest => "nearest",
            FilterType::Triangle => "triangle",
            FilterType::CatmullRom => "catmullrom",
            FilterType::Gaussian => "gaussian",
            FilterType::Lanczos3 => "lanczos3",
        }
    }

    /// The filter that `name` names, if any.
    pub fn try_from_str(name: &str) -> (filter: Option<FilterType>)
        ensures
            filter == filter_named(name@),
    {
        if same_text(name, "nearest") {
            Some(FilterType::Nearest)
        } else if same_text(name, "triangle") {
            Some(FilterType::Triangle)
        } else if same_text(name, "catmullrom") {
            Some(FilterType::CatmullRom)
        } else if same_text(name, "gaussian") {
            Some(FilterType::Gaussian)
        } else if same_text(name, "lanczos3") {
            Some(FilterType::Lanczos3)
        } else {
            None
        }
    }
}

impl ModifierId {
    /// The keyword of the modifier.
    pub open spec fn spec_name(self) -> Seq<char> {
        match self {
            ModifierId::PreserveAspectRatio => "preserve-aspect-ratio"@,
            ModifierId::SamplingFilter => "sampling-filter"@,
        }
    }

    /// The keyword of the modifier.
    pub fn as_str(self) -> (name: &'static str)
        ensures
            name@ == self.spec_name(),
    {
        match self {
            ModifierId::PreserveAspectRatio => "preserve-aspect-ratio",
            ModifierId::SamplingFilter => "sampling-filter",
        }
    }

    /// The modifier that the keyword `name` stands for, if any.
    pub fn lookup(name: &str) -> (id: Option<ModifierId>)
        ensures
            id == modifier_keyword(name@),
    {
        if same_text(name, "preserve-aspect-ratio") {
            Some(ModifierId::PreserveAspectRatio)
        } else if same_text(name, "sampling-filter") {
            Some(ModifierId::SamplingFilter)
        } else {
            None
        }
    }

    /// The modifier with the value that `token` names, if it names one.
    pub fn value(self, token: &str) -> (modifier: Option<Modifier>)
        ensures
            modifier == modifier_value(self, token@),
    {
        match self {
            ModifierId::PreserveAspectRatio => {
                if same_text(token, "true") {
                    Some(Modifier::PreserveAspectRatio(true))
                } else if same_text(token, "false") {
                    Some(Modifier::PreserveAspectRatio(false))
                } else {
                    None
                }
            },
            ModifierId::SamplingFilter => match FilterType::try_from_str(token) {
                Some(filter) => Some(Modifier::SamplingFilter(filter)),
                None => None,
            },
        }
    }
}

impl Modifier {
    /// Whether `input` begins a modifier declaration.
    pub fn modifier_start(input: &str) -> (r: bool)
        ensures
            r == modifier_starts(input@),
    {
        input.unicode_len() >= 3 && input.get_char(0) == 's' && input.get_char(1) == 'e'
            && input.get_char(2) == 't'
    }
}

/// Whether the argument expected at position `at` is missing: the tokens end
/// before it, or the token there starts the next instruction.
pub open spec fn argument_missing(mode: ParsingMode, rest: Seq<Seq<char>>, at: int) -> bool {
    at >= rest.len() || is_boundary(mode, rest[at])
}

/// What decoding the keyword and the value of a declared modifier gives,
/// when `rest` follows the name of the operation it is declared for. Within
/// a declaration every malformed part is a syntax error of the declaration.
pub open spec fn decode_modifier(mode: ParsingMode, rest: Seq<Seq<char>>) -> Decoded<Modifier> {
    if rest.len() == 0 {
        Decoded {
            outcome: Err(ParserErrorView::PPTE(ParsePerTypeError::InvalidModifierSyntax)),
            consumed: 0,
        }
    } else {
        match modifier_keyword(rest[0]) {
            None => Decoded {
                outcome: Err(ParserErrorView::PPTE(ParsePerTypeError::InvalidModifierSyntax)),
                consumed: 1,
            },
            Some(id) => if argument_missing(mode, rest, 1) {
                Decoded {
                    outcome: Err(
                        ParserErrorView::PPTE(ParsePerTypeError::ModifierArgumentExpected),
                    ),
                    consumed: 1,
                }
            } else {
                match modifier_value(id, rest[1]) {
                    Some(modifier) => Decoded { outcome: Ok(modifier), consumed: 2 },
                    None => Decoded {
                        outcome: Err(
                            ParserErrorView::PPTE(ParsePerTypeError::InvalidModifierSyntax),
                        ),
                        consumed: 2,
                    },
                }
            },
        }
    }
}

/// What decoding a modifier declaration gives, when `rest` follows the token
/// that begins it: the name of an operation, the keyword of a modifier, and
/// the value of the modifier.
pub open spec fn decode_declaration(mode: ParsingMode, rest: Seq<Seq<char>>) -> Decoded<ItemView> {
    if rest.len() == 0 {
        Decoded {
            outcome: Err(ParserErrorView::PPTE(ParsePerTypeError::InvalidModifierSyntax)),
            consumed: 0,
        }
    } else {
        match operation_named(rest[0]) {
            None => Decoded {
                outcome: Err(
                    ParserErrorView::PPTE(ParsePerTypeError::InvalidOperationForModifier),
                ),
                consumed: 1,
            },
            Some(target) => {
                let inner = decode_modifier(mode, rest.skip(1));
                Decoded {
                    outcome: match inner.outcome {
                        Ok(modifier) => Ok(ItemView::Modifier(Some(target), modifier)),
                        Err(error) => Err(error),
                    },
                    consumed: inner.consumed + 1,
                }
            },
        }
    }
}

/// The error of a value that the modifier `id`, given by its keyword alone,
/// does not have.
pub open spec fn value_error(id: ModifierId) -> ParsePerTypeError {
    match id {
        ModifierId::PreserveAspectRatio => ParsePerTypeError::InvalidModifierSyntax,
        ModifierId::SamplingFilter => ParsePerTypeError::UnrecognizedSamplingFilterName,
    }
}

/// What decoding a modifier that is given by its keyword alone gives, when
/// `rest` follows the keyword. Such a modifier names no operation.
pub open spec fn decode_keyword(mode: ParsingMode, id: ModifierId, rest: Seq<Seq<char>>) -> Decoded<
    ItemView,
> {
    if argument_missing(mode, rest, 0) {
        Decoded {
            outcome: Err(ParserErrorView::PPTE(ParsePerTypeError::ModifierArgumentExpected)),
            consumed: 0,
        }
    } else {
        match modifier_value(id, rest[0]) {
            Some(modifier) => Decoded {
                outcome: Ok(ItemView::Modifier(None, modifier)),
                consumed: 1,
            },
            None => Decoded { outcome: Err(ParserErrorView::PPTE(value_error(id))), consumed: 1 },
        }
    }
}

/// The value of the modifier `id`, taken from the source unless it is
/// missing there. The result is `None` when it is missing.
fn take_value(
    iter: &mut PeekMoreIterator<IntoIter<String>>,
    id: ModifierId,
    mode: ParsingMode,
) -> (r: Option<Option<Modifier>>)
    ensures
        argument_missing(mode, pending(*old(iter)), 0) ==> r is None && pending(*final(iter))
            == pending(*old(iter)),
        !argument_missing(mode, pending(*old(iter)), 0) ==> r == Some(
            modifier_value(id, pending(*old(iter))[0]),
        ) && pending(*final(iter)) == pending(*old(iter)).skip(1),
{
    let missing = match look_ahead(iter, 0) {
        Some(token) => starts_instruction(mode, token.as_str()),
        None => true,
    };
    if missing {
        return None;
    }
    assert(pending(*iter).drop_first() =~= pending(*iter).skip(1));
    match take_next(iter) {
        Some(token) => Some(id.value(token.as_str())),
        None => None,
    }
}

impl Modifier {
    /// Decodes a modifier declaration from the tokens that follow the token
    /// which begins it.
    pub fn modifier_for(iter: &mut PeekMoreIterator<IntoIter<String>>, mode: ParsingMode) -> (r:
        Option<Result<Item, ParserError>>)
        ensures
            r is Some,
            view_result(r->0) == decode_declaration(mode, pending(*old(iter))).outcome,
            pending(*final(iter)) == pending(*old(iter)).skip(
                decode_declaration(mode, pending(*old(iter))).consumed as int,
            ),
    {
        let ghost rest = pending(*iter);
        assert(rest.skip(0) =~= rest);
        let target = match take_next(iter) {
            Some(token) => OperationId::lookup(token.as_str()),
            None => {
                return Some(Err(ParserError::PPTE(ParsePerTypeError::InvalidModifierSyntax)));
            },
        };
        assert(rest.drop_first() =~= rest.skip(1));
        match target {
            Some(id) => {
                let ghost inner = decode_modifier(mode, rest.skip(1));
                let decoded = Modifier::consume_args(iter, mode);
                assert(rest.skip(1).skip(inner.consumed as int) =~= rest.skip(inner.consumed as int + 1));
                match decoded {
                    Ok(modifier) => Some(Ok(Item::Modifier(Some(id), modifier))),
                    Err(error) => Some(Err(error)),
                }
            },
            None => Some(Err(ParserError::PPTE(ParsePerTypeError::InvalidOperationForModifier))),
        }
    }

    /// Decodes the keyword and the value of a declared modifier.
    fn consume_args(iter: &mut PeekMoreIterator<IntoIter<String>>, mode: ParsingMode) -> (r: Result<
        Modifier,
        ParserError,
    >)
        ensures
            view_result(r) == decode_modifier(mode, pending(*old(iter))).outcome,
            pending(*final(iter)) == pending(*old(iter)).skip(
                decode_modifier(mode, pending(*old(iter))).consumed as int,
            ),
    {
        let ghost rest = pending(*iter);
        assert(rest.skip(0) =~= rest);
        let which = match take_next(iter) {
            Some(token) => ModifierId::lookup(token.as_str()),
            None => {
                return Err(ParserError::PPTE(ParsePerTypeError::InvalidModifierSyntax));
            },
        };
        assert(rest.drop_first() =~= rest.skip(1));
        let id = match which {
            Some(id) => id,
            None => {
                return Err(ParserError::PPTE(ParsePerTypeError::InvalidModifierSyntax));
            },
        };
        assert(argument_missing(mode, rest.skip(1), 0) == argument_missing(mode, rest, 1));
        assert(rest.len() >= 2 ==> rest.skip(1).skip(1) =~= rest.skip(2));
        match take_value(iter, id, mode) {
            None => Err(ParserError::PPTE(ParsePerTypeError::ModifierArgumentExpected)),
            Some(Some(modifier)) => Ok(modifier),
            Some(None) => Err(ParserError::PPTE(ParsePerTypeError::InvalidModifierSyntax)),
        }
    }

    /// Decodes a modifier that is given by its keyword alone from the tokens
    /// that follow the keyword.
    pub fn keyword_for(
        iter: &mut PeekMoreIterator<IntoIter<String>>,
        id: ModifierId,
        mode: ParsingMode,
    ) -> (r: Result<Item, ParserError>)
        ensures
            view_result(r) == decode_keyword(mode, id, pending(*old(iter))).outcome,
            pending(*final(iter)) == pending(*old(iter)).skip(
                decode_keyword(mode, id, pending(*old(iter))).consumed as int,
            ),
    {
        assert(pending(*iter).skip(0) =~= pending(*iter));
        match take_value(iter, id, mode) {
            None => Err(ParserError::PPTE(ParsePerTypeError::ModifierArgumentExpected)),
            Some(Some(modifier)) => Ok(Item::Modifier(None, modifier)),
            Some(None) => Err(
                ParserError::PPTE(
                    match id {
                        ModifierId::PreserveAspectRatio => ParsePerTypeError::InvalidModifierSyntax,
                        ModifierId::SamplingFilter => {
                            ParsePerTypeError::UnrecognizedSamplingFilterName
                        },
                    },
                ),
            ),
        }
    }
}

} // verus!
