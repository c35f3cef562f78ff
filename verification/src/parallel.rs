//! Work on several threads at once.

use vstd::prelude::*;

verus! {

/// `rayon::join`: runs both closures, at the same time where threads are free, and
/// returns when both have returned, with what the first has returned and what the second
/// has returned. Either may be run where its contract lets it be called.
pub assume_specification<A, B, RA, RB>[ rayon::join::<A, B, RA, RB> ](oper_a: A, oper_b: B) -> (results:
    (RA, RB))
    where
        A: FnOnce() -> RA + Send,
        B: FnOnce() -> RB + Send,
        RA: Send,
        RB: Send,
    requires
        call_requires(oper_a, ()),
        call_requires(oper_b, ()),
    ensures
        call_ensures(oper_a, (), results.0),
        call_ensures(oper_b, (), results.1),
;

} // verus!
