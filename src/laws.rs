use vstd::prelude::*;
use crate::connection::{
    empty_view, loaded, non_negative, window, RelayConnection, RelayConnectionNode, RelayError,
};
use crate::cursor::RelayCursor;

verus! {

/// Any cursor reads back from the text it renders.
pub proof fn lemma_cursor_round_trip<C: RelayCursor>(c: C)
    ensures
        C::spec_parse(c.spec_text()) == Some(c),
{
    C::lemma_round_trip(c);
}

/// Without candidate records the page is empty, whatever `first` and `last`
/// are: no edges, both flags false, no cursors.
pub proof fn lemma_empty_candidates<N: RelayConnectionNode>(first: Option<i64>, last: Option<i64>)
    requires
        non_negative(first),
        non_negative(last),
    ensures
        window(first, last, Seq::<N>::empty()) == empty_view::<N>(),
{
    let w = window(first, last, Seq::<N>::empty());
    assert(w.edges =~= Seq::<(N, Seq<char>)>::empty());
}

/// Building a connection twice, from the same arguments and a loader that
/// returns the same outcome, gives the same result: the same error, or pages
/// with the same edges and page information.
pub proof fn lemma_builder_idempotent<N: RelayConnectionNode, E>(
    first: Option<i64>,
    last: Option<i64>,
    res: Result<Vec<N>, E>,
    r1: Result<RelayConnection<N>, RelayError<E>>,
    r2: Result<RelayConnection<N>, RelayError<E>>,
)
    requires
        loaded(first, last, res, r1),
        loaded(first, last, res, r2),
    ensures
        r1 is Ok <==> r2 is Ok,
        r1 is Ok ==> r1->Ok_0@ == r2->Ok_0@,
        r1 is Err ==> r1 == r2,
{
}

} // verus!
