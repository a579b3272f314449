//! The token source: a look-ahead iterator over the input tokens.

use crate::text::texts;
use peekmore::PeekMore;
use peekmore::PeekMoreIterator;
use std::vec::IntoIter;
use vstd::prelude::*;

verus! {

/// `peekmore::PeekMoreIterator`, an iterator adapter that queues the items it
/// has looked at until they are consumed. Nothing inside it is visible to the
/// verifier.
#[verifier::external_type_specification]
#[verifier::external_body]
#[verifier::reject_recursive_types(I)]
pub struct ExPeekMoreIterator<I: Iterator>(PeekMoreIterator<I>);

/// The tokens that a source has not handed out yet, the next one first.
pub uninterp spec fn pending(source: PeekMoreIterator<IntoIter<String>>) -> Seq<Seq<char>>;

/// `PeekMore::peekmore` on the owning iterator of a vector: the new source
/// holds the vector's strings, all of them pending, in the vector's order.
#[verifier::external_body]
pub(crate) fn open_source(tokens: Vec<String>) -> (source: PeekMoreIterator<IntoIter<String>>)
    ensures
        pending(source) == texts(tokens@),
{
    tokens.into_iter().peekmore()
}

/// `PeekMoreIterator::peek_nth`: a copy of the pending token at distance `n`
/// from the next one, or `None` when fewer than `n + 1` tokens are pending.
/// The call consumes nothing. It queues one entry for every distance up to
/// `n`, also beyond the end of the input, so the distance is kept small.
#[verifier::external_body]
pub(crate) fn look_ahead(source: &mut PeekMoreIterator<IntoIter<String>>, n: usize) -> (token:
    Option<String>)
    requires
        n < 0x1_0000,
    ensures
        pending(*final(source)) == pending(*old(source)),
        n < pending(*old(source)).len() ==> token is Some && token->0@ == pending(
            *old(source),
        )[n as int],
        n >= pending(*old(source)).len() ==> token is None,
{
    source.peek_nth(n).cloned()
}

/// `Iterator::next` of `PeekMoreIterator`: hands out the next pending token
/// and removes it from the source, or returns `None` and leaves the source
/// empty when nothing is pending.
#[verifier::external_body]
pub(crate) fn take_next(source: &mut PeekMoreIterator<IntoIter<String>>) -> (token: Option<String>)
    ensures
        pending(*old(source)).len() > 0 ==> token is Some && token->0@ == pending(*old(source))[0]
            && pending(*final(source)) == pending(*old(source)).drop_first(),
        pending(*old(source)).len() == 0 ==> token is None && pending(*final(source)) == pending(
            *old(source),
        ),
{
    source.next()
}

} // verus!
