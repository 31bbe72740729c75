//! Failure-detection and rumor-propagation core of a gossip-based cluster
//! membership protocol: the member state machine with its time-driven
//! transitions, the timeout-derivation policy, rumor-heat bookkeeping, the
//! expiring rumor stores, and the sweeper that ties them together.

use vstd::prelude::*;

pub mod event;
pub mod expire;
pub mod member;
pub mod rumor;
pub mod server;
pub mod store;
pub mod timing;

verus! {

/// How membership in a sequence relates to pushing one more element.
pub proof fn lemma_push_contains<A>(s: Seq<A>, x: A)
    ensures
        forall|y: A| #[trigger] s.push(x).contains(y) ==> (s.contains(y) || x == y),
        forall|y: A| s.contains(y) ==> #[trigger] s.push(x).contains(y),
        s.push(x).contains(x),
{
    assert forall|y: A| #[trigger] s.push(x).contains(y) implies (s.contains(y) || x == y) by {
        let i = choose|i: int| 0 <= i < s.push(x).len() && s.push(x)[i] == y;
        if i < s.len() {
            assert(s[i] == y);
        }
    }
    assert forall|y: A| s.contains(y) implies #[trigger] s.push(x).contains(y) by {
        let i = choose|i: int| 0 <= i < s.len() && s[i] == y;
        assert(s.push(x)[i] == y);
    }
    assert(s.push(x)[s.len() as int] == x);
}

} // verus!
