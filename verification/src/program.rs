//! Programs: the instructions that a parse yields, and the binding of
//! modifiers to the operations that they are declared for.

use crate::errors::ParserError;
use crate::errors::ParserErrorView;
use crate::modifier::Modifier;
use crate::op::Op;
use crate::op::OpView;
use crate::op::OperationId;
use vstd::prelude::*;

verus! {

/// What one step of a parse yields. A modifier is not bound to a position
/// yet: it names the operation that it is declared for, or none.
#[derive(Debug, PartialEq, Eq)]
pub enum Item {
    /// An operation.
    Operation(Op),
    /// A modifier, declared for the next occurrence of the named operation,
    /// or, where none is named, for whatever follows the declaration.
    Modifier(Option<OperationId>, Modifier),
    /// Foreign tokens that were passed over.
    Skip,
}

/// The mathematical content of an [`Item`].
pub enum ItemView {
    Operation(OpView),
    Modifier(Option<OperationId>, Modifier),
    Skip,
}

impl View for Item {
    type V = ItemView;

    open spec fn view(&self) -> ItemView {
        match *self {
            Item::Operation(op) => ItemView::Operation(op@),
            Item::Modifier(target, modifier) => ItemView::Modifier(target, modifier),
            Item::Skip => ItemView::Skip,
        }
    }
}

/// One instruction of a program.
#[derive(Debug, PartialEq, Eq)]
pub enum Core {
    /// An operation.
    Operation(Op),
    /// A modifier, bound to the position in the program from which it holds.
    SetModifier(usize, Modifier),
    /// Foreign tokens that were passed over.
    Skip,
}

/// The mathematical content of a [`Core`].
pub enum CoreView {
    Operation(OpView),
    SetModifier(nat, Modifier),
    Skip,
}

impl View for Core {
    type V = CoreView;

    open spec fn view(&self) -> CoreView {
        match *self {
            Core::Operation(op) => CoreView::Operation(op@),
            Core::SetModifier(index, modifier) => CoreView::SetModifier(index as nat, modifier),
            Core::Skip => CoreView::Skip,
        }
    }
}

impl Clone for Item {
    fn clone(&self) -> (copy: Self)
        ensures
            copy@ == self@,
    {
        match self {
            Item::Operation(op) => Item::Operation(op.clone()),
            Item::Modifier(target, modifier) => Item::Modifier(*target, *modifier),
            Item::Skip => Item::Skip,
        }
    }
}

impl Clone for Core {
    fn clone(&self) -> (copy: Self)
        ensures
            copy@ == self@,
    {
        match self {
            Core::Operation(op) => Core::Operation(op.clone()),
            Core::SetModifier(index, modifier) => Core::SetModifier(*index, *modifier),
            Core::Skip => Core::Skip,
        }
    }
}

/// The contents of the items of `v`, in order.
pub open spec fn item_views(v: Seq<Item>) -> Seq<ItemView> {
    Seq::new(v.len(), |i: int| v[i]@)
}

/// The contents of the instructions of `v`, in order.
pub open spec fn core_views(v: Seq<Core>) -> Seq<CoreView> {
    Seq::new(v.len(), |i: int| v[i]@)
}

/// The content of the outcome of a parse.
pub open spec fn program_view(r: Result<Vec<Core>, ParserError>) -> Result<
    Seq<CoreView>,
    ParserErrorView,
> {
    match r {
        Ok(program) => Ok(core_views(program@)),
        Err(error) => Err(error@),
    }
}

/// Whether the item at position `at` is the operation `id`.
pub open spec fn occurs_at(items: Seq<ItemView>, id: OperationId, at: int) -> bool {
    items[at] is Operation && items[at]->Operation_0.id() == id
}

/// The position of the first occurrence of the operation `id` at or after
/// `from`, or the number of items when it does not occur there.
pub open spec fn next_occurrence(items: Seq<ItemView>, id: OperationId, from: int) -> int
    decreases items.len() - from,
{
    if 0 <= from < items.len() && !occurs_at(items, id, from) {
        next_occurrence(items, id, from + 1)
    } else {
        from
    }
}

/// The position to which the modifier at position `at` is bound: that of the
/// next occurrence of the operation it names, or, where it names none, the
/// position right after its own.
pub open spec fn binding(items: Seq<ItemView>, at: int) -> int {
    match items[at] {
        ItemView::Modifier(Some(id), _) => next_occurrence(items, id, at + 1),
        _ => at + 1,
    }
}

/// Whether the item at position `at` is a modifier for a named operation
/// that does not occur after it.
pub open spec fn unbound_at(items: Seq<ItemView>, at: int) -> bool {
    items[at] is Modifier && items[at]->Modifier_0 is Some && binding(items, at) >= items.len()
}

/// The position of the first unbound modifier at or after `from`, or the
/// number of items when there is none.
pub open spec fn first_unbound(items: Seq<ItemView>, from: int) -> int
    decreases items.len() - from,
{
    if 0 <= from < items.len() && !unbound_at(items, from) {
        first_unbound(items, from + 1)
    } else {
        from
    }
}

/// The instruction that the item at position `at` becomes.
pub open spec fn instruction(items: Seq<ItemView>, at: int) -> CoreView {
    match items[at] {
        ItemView::Operation(op) => CoreView::Operation(op),
        ItemView::Modifier(_, modifier) => CoreView::SetModifier(binding(items, at) as nat, modifier),
        ItemView::Skip => CoreView::Skip,
    }
}

/// The program that the items make: one instruction for each item, in the
/// order of the items, each modifier bound; or the error of the first
/// modifier that cannot be bound.
pub open spec fn assembled(items: Seq<ItemView>) -> Result<Seq<CoreView>, ParserErrorView> {
    let bad = first_unbound(items, 0);
    if bad < items.len() {
        Err(ParserErrorView::UnboundModifier(items[bad]->Modifier_0->0))
    } else {
        Ok(Seq::new(items.len(), |at: int| instruction(items, at)))
    }
}

/// The position of the next occurrence, when `id` does not occur in
/// `from..at` and the items end at `at` or `id` occurs there.
proof fn lemma_next_occurrence_at(items: Seq<ItemView>, id: OperationId, from: int, at: int)
    requires
        0 <= from <= at <= items.len(),
        forall|j: int| from <= j < at ==> !occurs_at(items, id, j),
        at == items.len() || occurs_at(items, id, at),
    ensures
        next_occurrence(items, id, from) == at,
    decreases at - from,
{
    if from < at {
        assert(!occurs_at(items, id, from));
        lemma_next_occurrence_at(items, id, from + 1, at);
    }
}

/// The position of the first unbound modifier, when none in `from..at` is
/// unbound and the items end at `at` or the one there is unbound.
pub proof fn lemma_first_unbound_at(items: Seq<ItemView>, from: int, at: int)
    requires
        0 <= from <= at <= items.len(),
        forall|j: int| from <= j < at ==> !unbound_at(items, j),
        at == items.len() || unbound_at(items, at),
    ensures
        first_unbound(items, from) == at,
    decreases at - from,
{
    if from < at {
        assert(!unbound_at(items, from));
        lemma_first_unbound_at(items, from + 1, at);
    }
}

impl Op {
    /// The identifier of the operation.
    pub fn id(&self) -> (id: OperationId)
        ensures
            id == self@.id(),
    {
        match self {
            Op::Blur(_) => OperationId::Blur,
            Op::Brighten(_) => OperationId::Brighten,
            Op::Contrast(_) => OperationId::Contrast,
            Op::Crop(_) => OperationId::Crop,
            Op::Diff(_) => OperationId::Diff,
            Op::Filter3x3(_) => OperationId::Filter3x3,
            Op::FlipHorizontal => OperationId::FlipHorizontal,
            Op::FlipVertical => OperationId::FlipVertical,
            Op::Grayscale => OperationId::Grayscale,
            Op::HueRotate(_) => OperationId::HueRotate,
            Op::Invert => OperationId::Invert,
            Op::Resize(_) => OperationId::Resize,
            Op::Rotate90 => OperationId::Rotate90,
            Op::Rotate180 => OperationId::Rotate180,
            Op::Rotate270 => OperationId::Rotate270,
            Op::Unsharpen(_) => OperationId::Unsharpen,
        }
    }
}

/// The position of the first occurrence of the operation `id` at or after
/// `from`, or the number of items when it does not occur there.
fn find_occurrence(items: &Vec<Item>, id: OperationId, from: usize) -> (at: usize)
    requires
        from <= items@.len(),
    ensures
        at == next_occurrence(item_views(items@), id, from as int),
        from <= at <= items@.len(),
{
    let ghost views = item_views(items@);
    let mut at: usize = from;
    while at < items.len()
        invariant
            from <= at <= items@.len(),
            views == item_views(items@),
            forall|j: int| from <= j < at ==> !occurs_at(views, id, j),
        decreases items@.len() - at,
    {
        let found = match &items[at] {
            Item::Operation(op) => op.id() == id,
            _ => false,
        };
        assert(found == occurs_at(views, id, at as int));
        if found {
            proof {
                lemma_next_occurrence_at(views, id, from as int, at as int);
            }
            return at;
        }
        at += 1;
    }
    proof {
        lemma_next_occurrence_at(views, id, from as int, at as int);
    }
    at
}

/// Assembles the items of a parse into a program. The program keeps the
/// order of the items and has one instruction for each of them. A modifier
/// that names an operation is bound to the position of the next occurrence
/// of that operation; when there is none, the whole program is refused.
pub fn assemble(items: &Vec<Item>) -> (r: Result<Vec<Core>, ParserError>)
    ensures
        program_view(r) == assembled(item_views(items@)),
{
    let ghost views = item_views(items@);
    let n: usize = items.len();
    let mut program: Vec<Core> = Vec::with_capacity(n);
    let mut at: usize = 0;
    while at < n
        invariant
            at <= n,
            n == items@.len(),
            views == item_views(items@),
            program@.len() == at,
            forall|j: int| 0 <= j < at ==> !unbound_at(views, j),
            forall|j: int| 0 <= j < at ==> (#[trigger] program@[j])@ == instruction(views, j),
        decreases n - at,
    {
        let next = match &items[at] {
            Item::Operation(op) => Core::Operation(op.clone()),
            Item::Modifier(Some(id), modifier) => {
                let to: usize = find_occurrence(items, *id, at + 1);
                if to >= n {
                    proof {
                        lemma_first_unbound_at(views, 0, at as int);
                    }
                    return Err(ParserError::UnboundModifier(*id));
                }
                Core::SetModifier(to, *modifier)
            },
            Item::Modifier(None, modifier) => Core::SetModifier(at + 1, *modifier),
            Item::Skip => Core::Skip,
        };
        assert(next@ == instruction(views, at as int));
        assert(!unbound_at(views, at as int));
        program.push(next);
        at += 1;
    }
    proof {
        lemma_first_unbound_at(views, 0, n as int);
        assert(core_views(program@) =~= Seq::new(views.len(), |at: int| instruction(views, at)));
    }
    Ok(program)
}

} // verus!
