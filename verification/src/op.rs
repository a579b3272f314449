//! The operation catalog: the closed set of operations, their names, their
//! arities and the construction of an operation from its argument tokens.

use crate::errors::ParsePerTypeError;
use crate::errors::ParserError;
use crate::errors::ParserErrorView;
use crate::numbers::i32_of;
use crate::numbers::is_float_syntax;
use crate::numbers::parse_i32;
use crate::numbers::parse_u32;
use crate::numbers::u32_of;
use crate::numbers::FloatLit;
use crate::cli_ops::take_n;
use crate::source::pending;
use crate::syntax::next_boundary;
use crate::syntax::ParsingMode;
use crate::text::same_text;
use crate::text::texts;
use crate::text::view_result;
use peekmore::PeekMoreIterator;
use std::vec::IntoIter;
use vstd::prelude::*;

verus! {

/// The identifiers of the operations, a closed set.
#[derive(Clone, Copy, Debug, PartialEq, Eq, Structural)]
pub enum OperationId {
    Blur,
    Brighten,
    Contrast,
    Crop,
    Diff,
    Filter3x3,
    FlipHorizontal,
    FlipVertical,
    Grayscale,
    HueRotate,
    Invert,
    Resize,
    Rotate90,
    Rotate180,
    Rotate270,
    Unsharpen,
}

/// What an argument position of an operation accepts.
#[derive(Clone, Copy, Debug, PartialEq, Eq, Structural)]
pub enum ArgKind {
    /// A floating-point literal.
    Float,
    /// A signed 32-bit integer.
    Int,
    /// An unsigned 32-bit integer.
    UInt,
    /// Any text, such as a path.
    Text,
}

/// Whether string arguments arrive with the quote characters of their source
/// still around them.
#[derive(Clone, Copy, Debug, PartialEq, Eq, Structural)]
pub enum QuotingPolicy {
    /// Tokens are taken as they are: a shell has removed the quotes.
    Verbatim,
    /// One pair of matching quotes around a string argument is removed.
    Unquote,
}

/// A constructed operation with its typed arguments.
#[derive(Debug, PartialEq, Eq)]
pub enum Op {
    Blur(FloatLit),
    Brighten(i32),
    Contrast(FloatLit),
    Crop((u32, u32, u32, u32)),
    Diff(String),
    Filter3x3([FloatLit; 9]),
    FlipHorizontal,
    FlipVertical,
    Grayscale,
    HueRotate(i32),
    Invert,
    Resize((u32, u32)),
    Rotate90,
    Rotate180,
    Rotate270,
    Unsharpen((FloatLit, i32)),
}

/// The mathematical content of an [`Op`]. A floating-point argument is the
/// text of its literal; the nine cells of a kernel are in row order.
pub enum OpView {
    Blur(Seq<char>),
    Brighten(i32),
    Contrast(Seq<char>),
    Crop((u32, u32, u32, u32)),
    Diff(Seq<char>),
    Filter3x3(Seq<Seq<char>>),
    FlipHorizontal,
    FlipVertical,
    Grayscale,
    HueRotate(i32),
    Invert,
    Resize((u32, u32)),
    Rotate90,
    Rotate180,
    Rotate270,
    Unsharpen((Seq<char>, i32)),
}

impl View for Op {
    type V = OpView;

    open spec fn view(&self) -> OpView {
        match *self {
            Op::Blur(sigma) => OpView::Blur(sigma@),
            Op::Brighten(amount) => OpView::Brighten(amount),
            Op::Contrast(amount) => OpView::Contrast(amount@),
            Op::Crop(corners) => OpView::Crop(corners),
            Op::Diff(path) => OpView::Diff(path@),
            Op::Filter3x3(kernel) => OpView::Filter3x3(Seq::new(9, |i: int| kernel@[i]@)),
            Op::FlipHorizontal => OpView::FlipHorizontal,
            Op::FlipVertical => OpView::FlipVertical,
            Op::Grayscale => OpView::Grayscale,
            Op::HueRotate(degrees) => OpView::HueRotate(degrees),
            Op::Invert => OpView::Invert,
            Op::Resize(size) => OpView::Resize(size),
            Op::Rotate90 => OpView::Rotate90,
            Op::Rotate180 => OpView::Rotate180,
            Op::Rotate270 => OpView::Rotate270,
            Op::Unsharpen(pair) => OpView::Unsharpen((pair.0@, pair.1)),
        }
    }
}

impl Clone for Op {
    fn clone(&self) -> (copy: Self)
        ensures
            copy@ == self@,
    {
        match self {
            Op::Blur(sigma) => Op::Blur(sigma.clone()),
            Op::Brighten(amount) => Op::Brighten(*amount),
            Op::Contrast(amount) => Op::Contrast(amount.clone()),
            Op::Crop(corners) => Op::Crop((corners.0, corners.1, corners.2, corners.3)),
            Op::Diff(path) => Op::Diff(path.clone()),
            Op::Filter3x3(kernel) => {
                let copy = Op::Filter3x3(
                    [
                        kernel[0].clone(),
                        kernel[1].clone(),
                        kernel[2].clone(),
                        kernel[3].clone(),
                        kernel[4].clone(),
                        kernel[5].clone(),
                        kernel[6].clone(),
                        kernel[7].clone(),
                        kernel[8].clone(),
                    ],
                );
                assert(copy@->Filter3x3_0 =~= self@->Filter3x3_0);
                copy
            },
            Op::FlipHorizontal => Op::FlipHorizontal,
            Op::FlipVertical => Op::FlipVertical,
            Op::Grayscale => Op::Grayscale,
            Op::HueRotate(degrees) => Op::HueRotate(*degrees),
            Op::Invert => Op::Invert,
            Op::Resize(size) => Op::Resize((size.0, size.1)),
            Op::Rotate90 => Op::Rotate90,
            Op::Rotate180 => Op::Rotate180,
            Op::Rotate270 => Op::Rotate270,
            Op::Unsharpen(pair) => Op::Unsharpen((pair.0.clone(), pair.1)),
        }
    }
}

impl OpView {
    /// The identifier of the operation.
    pub open spec fn id(self) -> OperationId {
        match self {
            OpView::Blur(_) => OperationId::Blur,
            OpView::Brighten(_) => OperationId::Brighten,
            OpView::Contrast(_) => OperationId::Contrast,
            OpView::Crop(_) => OperationId::Crop,
            OpView::Diff(_) => OperationId::Diff,
            OpView::Filter3x3(_) => OperationId::Filter3x3,
            OpView::FlipHorizontal => OperationId::FlipHorizontal,
            OpView::FlipVertical => OperationId::FlipVertical,
            OpView::Grayscale => OperationId::Grayscale,
            OpView::HueRotate(_) => OperationId::HueRotate,
            OpView::Invert => OperationId::Invert,
            OpView::Resize(_) => OperationId::Resize,
            OpView::Rotate90 => OperationId::Rotate90,
            OpView::Rotate180 => OperationId::Rotate180,
            OpView::Rotate270 => OperationId::Rotate270,
            OpView::Unsharpen(_) => OperationId::Unsharpen,
        }
    }
}

/// The operation that `name` names, if any.
pub open spec fn operation_named(name: Seq<char>) -> Option<OperationId> {
    if name == "blur"@ {
        Some(OperationId::Blur)
    } else if name == "brighten"@ {
        Some(OperationId::Brighten)
    } else if name == "contrast"@ {
        Some(OperationId::Contrast)
    } else if name == "crop"@ {
        Some(OperationId::Crop)
    } else if name == "diff"@ {
        Some(OperationId::Diff)
    } else if name == "filter3x3"@ {
        Some(OperationId::Filter3x3)
    } else if name == "flip-horizontal"@ {
        Some(OperationId::FlipHorizontal)
    } else if name == "flip-vertical"@ {
        Some(OperationId::FlipVertical)
    } else if name == "grayscale"@ {
        Some(OperationId::Grayscale)
    } else if name == "hue-rotate"@ {
        Some(OperationId::HueRotate)
    } else if name == "invert"@ {
        Some(OperationId::Invert)
    } else if name == "resize"@ {
        Some(OperationId::Resize)
    } else if name == "rotate90"@ {
        Some(OperationId::Rotate90)
    } else if name == "rotate180"@ {
        Some(OperationId::Rotate180)
    } else if name == "rotate270"@ {
        Some(OperationId::Rotate270)
    } else if name == "unsharpen"@ {
        Some(OperationId::Unsharpen)
    } else {
        None
    }
}

/// Whether `name` names an operation.
pub open spec fn is_operation_name(name: Seq<char>) -> bool {
    operation_named(name) is Some
}

/// Why the token `t` is rejected at a position of kind `kind`, or `None`
/// when it is accepted there.
pub open spec fn rejection(kind: ArgKind, t: Seq<char>) -> Option<ParsePerTypeError> {
    match kind {
        ArgKind::Float => if is_float_syntax(t) {
            None
        } else {
            Some(ParsePerTypeError::ParseFloatError)
        },
        ArgKind::Int => if i32_of(t) is Some {
            None
        } else {
            Some(ParsePerTypeError::ParseIntError)
        },
        ArgKind::UInt => if u32_of(t) is Some {
            None
        } else {
            Some(ParsePerTypeError::ParseUIntError)
        },
        ArgKind::Text => None,
    }
}

/// Whether the token `t` is acceptable at a position of kind `kind`.
pub open spec fn well_typed(kind: ArgKind, t: Seq<char>) -> bool {
    rejection(kind, t) is None
}

/// The first position at or after `from` whose token is rejected, or the
/// number of positions when every token from there on is accepted.
pub open spec fn ill_typed_from(kinds: Seq<ArgKind>, args: Seq<Seq<char>>, from: int) -> int
    decreases kinds.len() - from,
{
    if from < 0 || from >= kinds.len() {
        kinds.len() as int
    } else if !well_typed(kinds[from], args[from]) {
        from
    } else {
        ill_typed_from(kinds, args, from + 1)
    }
}

/// Whether every token of `args` is acceptable at its position.
pub open spec fn all_well_typed(kinds: Seq<ArgKind>, args: Seq<Seq<char>>) -> bool {
    forall|i: int| 0 <= i < kinds.len() ==> well_typed(#[trigger] kinds[i], args[i])
}

/// Whether `c` is a quote character.
pub open spec fn is_quote(c: char) -> bool {
    c == '"' || c == '\''
}

/// `t` without the pair of matching quotes around it, if there is one.
pub open spec fn unquoted(t: Seq<char>) -> Seq<char> {
    if t.len() >= 2 && is_quote(t[0]) && t.last() == t[0] {
        t.subrange(1, t.len() - 1)
    } else {
        t
    }
}

/// The value of a string argument under a quoting policy.
pub open spec fn text_value(t: Seq<char>, quoting: QuotingPolicy) -> Seq<char> {
    match quoting {
        QuotingPolicy::Verbatim => t,
        QuotingPolicy::Unquote => unquoted(t),
    }
}

/// The operation `id` with the values of `args`, every one of which is
/// acceptable at its position.
pub open spec fn build(id: OperationId, args: Seq<Seq<char>>, quoting: QuotingPolicy) -> OpView {
    match id {
        OperationId::Blur => OpView::Blur(args[0]),
        OperationId::Brighten => OpView::Brighten(i32_of(args[0])->0),
        OperationId::Contrast => OpView::Contrast(args[0]),
        OperationId::Crop => OpView::Crop(
            (u32_of(args[0])->0, u32_of(args[1])->0, u32_of(args[2])->0, u32_of(args[3])->0),
        ),
        OperationId::Diff => OpView::Diff(text_value(args[0], quoting)),
        OperationId::Filter3x3 => OpView::Filter3x3(args),
        OperationId::FlipHorizontal => OpView::FlipHorizontal,
        OperationId::FlipVertical => OpView::FlipVertical,
        OperationId::Grayscale => OpView::Grayscale,
        OperationId::HueRotate => OpView::HueRotate(i32_of(args[0])->0),
        OperationId::Invert => OpView::Invert,
        OperationId::Resize => OpView::Resize((u32_of(args[0])->0, u32_of(args[1])->0)),
        OperationId::Rotate90 => OpView::Rotate90,
        OperationId::Rotate180 => OpView::Rotate180,
        OperationId::Rotate270 => OpView::Rotate270,
        OperationId::Unsharpen => OpView::Unsharpen((args[0], i32_of(args[1])->0)),
    }
}

/// What constructing `id` from the tokens `args` gives: a count mismatch
/// unless there are exactly as many tokens as the operation takes, else the
/// error of the first rejected token, else the operation.
pub open spec fn construct(id: OperationId, args: Seq<Seq<char>>, quoting: QuotingPolicy) -> Result<
    OpView,
    ParserErrorView,
> {
    let kinds = id.signature();
    let bad = ill_typed_from(kinds, args, 0);
    if args.len() != kinds.len() {
        Err(ParserErrorView::ArgumentCountMismatch(id, args.len()))
    } else if bad < kinds.len() {
        Err(ParserErrorView::PPTE(rejection(kinds[bad], args[bad])->0))
    } else {
        Ok(build(id, args, quoting))
    }
}

impl OperationId {
    /// The canonical name of the operation.
    pub open spec fn spec_name(self) -> Seq<char> {
        match self {
            OperationId::Blur => "blur"@,
            OperationId::Brighten => "brighten"@,
            OperationId::Contrast => "contrast"@,
            OperationId::Crop => "crop"@,
            OperationId::Diff => "diff"@,
            OperationId::Filter3x3 => "filter3x3"@,
            OperationId::FlipHorizontal => "flip-horizontal"@,
            OperationId::FlipVertical => "flip-vertical"@,
            OperationId::Grayscale => "grayscale"@,
            OperationId::HueRotate => "hue-rotate"@,
            OperationId::Invert => "invert"@,
            OperationId::Resize => "resize"@,
            OperationId::Rotate90 => "rotate90"@,
            OperationId::Rotate180 => "rotate180"@,
            OperationId::Rotate270 => "rotate270"@,
            OperationId::Unsharpen => "unsharpen"@,
        }
    }

    /// The kinds of the arguments that the operation takes, in order.
    pub open spec fn signature(self) -> Seq<ArgKind> {
        match self {
            OperationId::Blur | OperationId::Contrast => seq![ArgKind::Float],
            OperationId::Brighten | OperationId::HueRotate => seq![ArgKind::Int],
            OperationId::Crop => seq![ArgKind::UInt, ArgKind::UInt, ArgKind::UInt, ArgKind::UInt],
            OperationId::Diff => seq![ArgKind::Text],
            OperationId::Filter3x3 => Seq::new(9, |i: int| ArgKind::Float),
            OperationId::Resize => seq![ArgKind::UInt, ArgKind::UInt],
            OperationId::Unsharpen => seq![ArgKind::Float, ArgKind::Int],
            OperationId::FlipHorizontal
            | OperationId::FlipVertical
            | OperationId::Grayscale
            | OperationId::Invert
            | OperationId::Rotate90
            | OperationId::Rotate180
            | OperationId::Rotate270 => Seq::empty(),
        }
    }

    /// The number of arguments that the operation takes.
    pub open spec fn arity(self) -> nat {
        self.signature().len()
    }

    /// The canonical name of the operation.
    pub fn as_str(self) -> (name: &'static str)
        ensures
            name@ == self.spec_name(),
    {
        match self {
            OperationId::Blur => "blur",
            OperationId::Brighten => "brighten",
            OperationId::Contrast => "contrast",
            OperationId::Crop => "crop",
            OperationId::Diff => "diff",
            OperationId::Filter3x3 => "filter3x3",
            OperationId::FlipHorizontal => "flip-horizontal",
            OperationId::FlipVertical => "flip-vertical",
            OperationId::Grayscale => "grayscale",
            OperationId::HueRotate => "hue-rotate",
            OperationId::Invert => "invert",
            OperationId::Resize => "resize",
            OperationId::Rotate90 => "rotate90",
            OperationId::Rotate180 => "rotate180",
            OperationId::Rotate270 => "rotate270",
            OperationId::Unsharpen => "unsharpen",
        }
    }

    /// The operation that `name` names, if any.
    pub fn lookup(name: &str) -> (id: Option<OperationId>)
        ensures
            id == operation_named(name@),
    {
        if same_text(name, "blur") {
            Some(OperationId::Blur)
        } else if same_text(name, "brighten") {
            Some(OperationId::Brighten)
        } else if same_text(name, "contrast") {
            Some(OperationId::Contrast)
        } else if same_text(name, "crop") {
            Some(OperationId::Crop)
        } else if same_text(name, "diff") {
            Some(OperationId::Diff)
        } else if same_text(name, "filter3x3") {
            Some(OperationId::Filter3x3)
        } else if same_text(name, "flip-horizontal") {
            Some(OperationId::FlipHorizontal)
        } else if same_text(name, "flip-vertical") {
            Some(OperationId::FlipVertical)
        } else if same_text(name, "grayscale") {
            Some(OperationId::Grayscale)
        } else if same_text(name, "hue-rotate") {
            Some(OperationId::HueRotate)
        } else if same_text(name, "invert") {
            Some(OperationId::Invert)
        } else if same_text(name, "resize") {
            Some(OperationId::Resize)
        } else if same_text(name, "rotate90") {
            Some(OperationId::Rotate90)
        } else if same_text(name, "rotate180") {
            Some(OperationId::Rotate180)
        } else if same_text(name, "rotate270") {
            Some(OperationId::Rotate270)
        } else if same_text(name, "unsharpen") {
            Some(OperationId::Unsharpen)
        } else {
            None
        }
    }

    /// The operation that `name` names, or the error that names `name` as
    /// unknown.
    pub fn try_from_name(name: &str) -> (r: Result<OperationId, ParserError>)
        ensures
            r is Ok <==> is_operation_name(name@),
            r is Ok ==> Some(r->Ok_0) == operation_named(name@),
            r is Err ==> r->Err_0@ == ParserErrorView::UnknownOperation(name@),
    {
        match OperationId::lookup(name) {
            Some(id) => Ok(id),
            None => Err(ParserError::UnknownOperation(name.to_owned())),
        }
    }

    /// The number of arguments that the operation takes.
    pub fn takes_number_of_arguments(self) -> (n: usize)
        ensures
            n == self.arity(),
            n <= 9,
    {
        match self {
            OperationId::Blur
            | OperationId::Brighten
            | OperationId::Contrast
            | OperationId::Diff
            | OperationId::HueRotate => 1,
            OperationId::Crop => 4,
            OperationId::Filter3x3 => 9,
            OperationId::Resize | OperationId::Unsharpen => 2,
            OperationId::FlipHorizontal
            | OperationId::FlipVertical
            | OperationId::Grayscale
            | OperationId::Invert
            | OperationId::Rotate90
            | OperationId::Rotate180
            | OperationId::Rotate270 => 0,
        }
    }
}

/// The position of the first rejected token, when every token before `bad`
/// is accepted and the one at `bad` is not.
proof fn lemma_ill_typed_at(kinds: Seq<ArgKind>, args: Seq<Seq<char>>, from: int, bad: int)
    requires
        0 <= from <= bad < kinds.len(),
        forall|j: int| from <= j < bad ==> well_typed(#[trigger] kinds[j], args[j]),
        !well_typed(kinds[bad], args[bad]),
    ensures
        ill_typed_from(kinds, args, from) == bad,
    decreases bad - from,
{
    if from < bad {
        assert(well_typed(kinds[from], args[from]));
        lemma_ill_typed_at(kinds, args, from + 1, bad);
    }
}

/// No token is rejected when every token from `from` on is accepted.
pub proof fn lemma_none_ill_typed(kinds: Seq<ArgKind>, args: Seq<Seq<char>>, from: int)
    requires
        0 <= from <= kinds.len(),
        forall|j: int| from <= j < kinds.len() ==> well_typed(#[trigger] kinds[j], args[j]),
    ensures
        ill_typed_from(kinds, args, from) == kinds.len(),
    decreases kinds.len() - from,
{
    if from < kinds.len() {
        assert(well_typed(kinds[from], args[from]));
        lemma_none_ill_typed(kinds, args, from + 1);
    }
}

/// Whether the tokens before position `i` are all accepted by `id`.
spec fn accepted_before(id: OperationId, args: Seq<Seq<char>>, i: int) -> bool {
    forall|j: int| 0 <= j < i ==> well_typed(#[trigger] id.signature()[j], args[j])
}

/// The floating-point argument at position `i`.
fn float_arg(id: OperationId, args: &Vec<String>, i: usize) -> (r: Result<FloatLit, ParserError>)
    requires
        i < args@.len() == id.arity(),
        id.signature()[i as int] == ArgKind::Float,
        accepted_before(id, texts(args@), i as int),
    ensures
        r is Ok ==> r->Ok_0@ == args@[i as int]@ && accepted_before(id, texts(args@), i + 1),
        r is Err ==> r->Err_0@ == ParserErrorView::PPTE(ParsePerTypeError::ParseFloatError)
            && ill_typed_from(id.signature(), texts(args@), 0) == i && rejection(
            id.signature()[i as int],
            texts(args@)[i as int],
        ) == Some(ParsePerTypeError::ParseFloatError),
{
    match FloatLit::parse(args[i].as_str()) {
        Ok(value) => Ok(value),
        Err(e) => {
            proof {
                lemma_ill_typed_at(id.signature(), texts(args@), 0, i as int);
            }
            Err(ParserError::PPTE(e))
        },
    }
}

/// The signed argument at position `i`.
fn int_arg(id: OperationId, args: &Vec<String>, i: usize) -> (r: Result<i32, ParserError>)
    requires
        i < args@.len() == id.arity(),
        id.signature()[i as int] == ArgKind::Int,
        accepted_before(id, texts(args@), i as int),
    ensures
        r is Ok ==> Some(r->Ok_0) == i32_of(args@[i as int]@) && accepted_before(
            id,
            texts(args@),
            i + 1,
        ),
        r is Err ==> r->Err_0@ == ParserErrorView::PPTE(ParsePerTypeError::ParseIntError)
            && ill_typed_from(id.signature(), texts(args@), 0) == i && rejection(
            id.signature()[i as int],
            texts(args@)[i as int],
        ) == Some(ParsePerTypeError::ParseIntError),
{
    match parse_i32(args[i].as_str()) {
        Ok(value) => Ok(value),
        Err(e) => {
            proof {
                lemma_ill_typed_at(id.signature(), texts(args@), 0, i as int);
            }
            Err(ParserError::PPTE(e))
        },
    }
}

/// The unsigned argument at position `i`.
fn uint_arg(id: OperationId, args: &Vec<String>, i: usize) -> (r: Result<u32, ParserError>)
    requires
        i < args@.len() == id.arity(),
        id.signature()[i as int] == ArgKind::UInt,
        accepted_before(id, texts(args@), i as int),
    ensures
        r is Ok ==> Some(r->Ok_0) == u32_of(args@[i as int]@) && accepted_before(
            id,
            texts(args@),
            i + 1,
        ),
        r is Err ==> r->Err_0@ == ParserErrorView::PPTE(ParsePerTypeError::ParseUIntError)
            && ill_typed_from(id.signature(), texts(args@), 0) == i && rejection(
            id.signature()[i as int],
            texts(args@)[i as int],
        ) == Some(ParsePerTypeError::ParseUIntError),
{
    match parse_u32(args[i].as_str()) {
        Ok(value) => Ok(value),
        Err(e) => {
            proof {
                lemma_ill_typed_at(id.signature(), texts(args@), 0, i as int);
            }
            Err(ParserError::PPTE(e))
        },
    }
}

/// The token without the pair of matching quotes around it, if there is one.
pub fn unquote(token: &str) -> (r: String)
    ensures
        r@ == unquoted(token@),
{
    let n: usize = token.unicode_len();
    if n >= 2 {
        let first: char = token.get_char(0);
        if (first == '"' || first == '\'') && token.get_char(n - 1) == first {
            return token.substring_char(1, n - 1).to_owned();
        }
    }
    token.to_owned()
}

impl ArgKind {
    /// Coerces `token` as a position of this kind does, for the verdict
    /// alone: why the token is rejected, or `None` when it is accepted.
    pub fn check(self, token: &str) -> (r: Option<ParsePerTypeError>)
        ensures
            r == rejection(self, token@),
    {
        match self {
            ArgKind::Float => match FloatLit::parse(token) {
                Ok(_) => None,
                Err(e) => Some(e),
            },
            ArgKind::Int => match parse_i32(token) {
                Ok(_) => None,
                Err(e) => Some(e),
            },
            ArgKind::UInt => match parse_u32(token) {
                Ok(_) => None,
                Err(e) => Some(e),
            },
            ArgKind::Text => None,
        }
    }
}

impl OperationId {
    /// What the argument at `position` has to be, or `None` when the
    /// operation has no such argument.
    pub fn kind_of_argument(self, position: usize) -> (kind: Option<ArgKind>)
        ensures
            kind == (if position < self.arity() {
                Some(self.signature()[position as int])
            } else {
                None
            }),
    {
        match self {
            OperationId::Blur | OperationId::Contrast => if position < 1 {
                Some(ArgKind::Float)
            } else {
                None
            },
            OperationId::Brighten | OperationId::HueRotate => if position < 1 {
                Some(ArgKind::Int)
            } else {
                None
            },
            OperationId::Crop => if position < 4 {
                Some(ArgKind::UInt)
            } else {
                None
            },
            OperationId::Diff => if position < 1 {
                Some(ArgKind::Text)
            } else {
                None
            },
            OperationId::Filter3x3 => if position < 9 {
                Some(ArgKind::Float)
            } else {
                None
            },
            OperationId::Resize => if position < 2 {
                Some(ArgKind::UInt)
            } else {
                None
            },
            OperationId::Unsharpen => if position == 0 {
                Some(ArgKind::Float)
            } else if position == 1 {
                Some(ArgKind::Int)
            } else {
                None
            },
            OperationId::FlipHorizontal
            | OperationId::FlipVertical
            | OperationId::Grayscale
            | OperationId::Invert
            | OperationId::Rotate90
            | OperationId::Rotate180
            | OperationId::Rotate270 => None,
        }
    }

    /// Which of the argument tokens is the first to be rejected, and what
    /// its position asks for. The result is `None` when every token is
    /// accepted, and when the tokens are not as many as the operation takes.
    pub fn rejected_argument(self, args: &Vec<String>) -> (r: Option<(usize, ArgKind)>)
        ensures
            r == (if args@.len() == self.arity() && ill_typed_from(
                self.signature(),
                texts(args@),
                0,
            ) < self.arity() {
                Some(
                    (
                        ill_typed_from(self.signature(), texts(args@), 0) as usize,
                        self.signature()[ill_typed_from(self.signature(), texts(args@), 0)],
                    ),
                )
            } else {
                None
            }),
    {
        let n: usize = self.takes_number_of_arguments();
        if args.len() != n {
            return None;
        }
        let mut at: usize = 0;
        while at < n
            invariant
                at <= n,
                n == self.arity(),
                n == args@.len(),
                accepted_before(self, texts(args@), at as int),
            decreases n - at,
        {
            if let Some(kind) = self.kind_of_argument(at) {
                if kind.check(args[at].as_str()).is_some() {
                    proof {
                        lemma_ill_typed_at(self.signature(), texts(args@), 0, at as int);
                    }
                    return Some((at, kind));
                }
            }
            at += 1;
        }
        proof {
            lemma_none_ill_typed(self.signature(), texts(args@), 0);
        }
        None
    }

    /// Constructs the operation from its argument tokens. The tokens are
    /// coerced in order, and the first one that is rejected decides the error.
    pub fn construct(self, args: &Vec<String>, quoting: QuotingPolicy) -> (r: Result<Op, ParserError>)
        ensures
            view_result(r) == construct(self, texts(args@), quoting),
    {
        let ghost kinds = self.signature();
        let ghost tokens = texts(args@);
        if args.len() != self.takes_number_of_arguments() {
            return Err(ParserError::ArgumentCountMismatch(self, args.len()));
        }
        assert(accepted_before(self, tokens, 0));
        let op = match self {
            OperationId::Blur => Op::Blur(float_arg(self, args, 0)?),
            OperationId::Brighten => Op::Brighten(int_arg(self, args, 0)?),
            OperationId::Contrast => Op::Contrast(float_arg(self, args, 0)?),
            OperationId::Crop => {
                let x = uint_arg(self, args, 0)?;
                let y = uint_arg(self, args, 1)?;
                let width = uint_arg(self, args, 2)?;
                let height = uint_arg(self, args, 3)?;
                Op::Crop((x, y, width, height))
            },
            OperationId::Diff => {
                match quoting {
                    QuotingPolicy::Verbatim => Op::Diff(args[0].clone()),
                    QuotingPolicy::Unquote => Op::Diff(unquote(args[0].as_str())),
                }
            },
            OperationId::Filter3x3 => {
                let k0 = float_arg(self, args, 0)?;
                let k1 = float_arg(self, args, 1)?;
                let k2 = float_arg(self, args, 2)?;
                let k3 = float_arg(self, args, 3)?;
                let k4 = float_arg(self, args, 4)?;
                let k5 = float_arg(self, args, 5)?;
                let k6 = float_arg(self, args, 6)?;
                let k7 = float_arg(self, args, 7)?;
                let k8 = float_arg(self, args, 8)?;
                let op = Op::Filter3x3([k0, k1, k2, k3, k4, k5, k6, k7, k8]);
                assert(op@->Filter3x3_0 =~= tokens);
                op
            },
            OperationId::FlipHorizontal => Op::FlipHorizontal,
            OperationId::FlipVertical => Op::FlipVertical,
            OperationId::Grayscale => Op::Grayscale,
            OperationId::HueRotate => Op::HueRotate(int_arg(self, args, 0)?),
            OperationId::Invert => Op::Invert,
            OperationId::Resize => {
                let width = uint_arg(self, args, 0)?;
                let height = uint_arg(self, args, 1)?;
                Op::Resize((width, height))
            },
            OperationId::Rotate90 => Op::Rotate90,
            OperationId::Rotate180 => Op::Rotate180,
            OperationId::Rotate270 => Op::Rotate270,
            OperationId::Unsharpen => {
                let sigma = float_arg(self, args, 0)?;
                let threshold = int_arg(self, args, 1)?;
                Op::Unsharpen((sigma, threshold))
            },
        };
        proof {
            lemma_none_ill_typed(kinds, tokens, 0);
        }
        Ok(op)
    }
}

/// What decoding one instruction gives, and how many of the tokens after
/// its head it has consumed.
pub struct Decoded<T> {
    pub outcome: Result<T, ParserErrorView>,
    pub consumed: nat,
}

/// What decoding the operation `id` gives when `rest` follows its head. Its
/// arguments are the tokens before the next boundary. When these are fewer
/// than the operation takes, the count is reported and nothing is consumed;
/// otherwise exactly as many tokens as the operation takes are consumed and
/// the operation is constructed from them.
pub open spec fn decode_operation(
    mode: ParsingMode,
    quoting: QuotingPolicy,
    id: OperationId,
    rest: Seq<Seq<char>>,
) -> Decoded<OpView> {
    let available = next_boundary(mode, rest, 0);
    if available < id.arity() {
        Decoded {
            outcome: Err(ParserErrorView::ArgumentCountMismatch(id, available as nat)),
            consumed: 0,
        }
    } else {
        Decoded {
            outcome: construct(id, rest.take(id.arity() as int), quoting),
            consumed: id.arity(),
        }
    }
}

impl Op {
    /// Whether `input` names an operation.
    pub fn is_some(input: &str) -> (r: bool)
        ensures
            r == is_operation_name(input@),
    {
        OperationId::lookup(input).is_some()
    }

    /// Decodes the operation that `input` names from the tokens that follow
    /// it in the source. The result is `None`, and the source untouched, when
    /// `input` names no operation.
    pub fn from_str(
        iter: &mut PeekMoreIterator<IntoIter<String>>,
        input: &str,
        mode: ParsingMode,
        quoting: QuotingPolicy,
    ) -> (r: Option<Result<Op, ParserError>>)
        ensures
            match operation_named(input@) {
                None => r is None && pending(*final(iter)) == pending(*old(iter)),
                Some(id) => {
                    let decoded = decode_operation(mode, quoting, id, pending(*old(iter)));
                    &&& r is Some
                    &&& view_result(r->0) == decoded.outcome
                    &&& pending(*final(iter)) == pending(*old(iter)).skip(decoded.consumed as int)
                },
            },
    {
        let id = match OperationId::lookup(input) {
            Some(id) => id,
            None => {
                return None;
            },
        };
        match take_n(iter, id, mode) {
            Ok(args) => Some(id.construct(&args, quoting)),
            Err(error) => Some(Err(error)),
        }
    }
}

} // verus!
