use vstd::prelude::*;

verus! {

/// `n` is where the orbit escapes: entry `n` of the trace (whether `|z_n|^2 > 4`)
/// is the first that holds, and it lies within the iteration limit.
pub open spec fn escapes_at(trace: Seq<bool>, limit: nat, n: nat) -> bool {
    &&& n < limit
    &&& n < trace.len()
    &&& trace[n as int]
    &&& forall|k: nat| k < n ==> !#[trigger] trace[k as int]
}

/// No entry within the iteration limit shows an escape.
pub open spec fn stays_bounded(trace: Seq<bool>, limit: nat) -> bool {
    forall|k: nat| k < limit && k < trace.len() ==> !#[trigger] trace[k as int]
}

/// What the escape count of a trace is: the first escaping iteration, or zero when
/// none within the limit escapes.
pub open spec fn is_escape_count(trace: Seq<bool>, limit: nat, r: nat) -> bool {
    escapes_at(trace, limit, r) || (r == 0 && stays_bounded(trace, limit))
}

/// Computes the escape time of an orbit from its trace.
///
/// Entry `k` of `trace` tells whether `|z_k|^2 > 4`, where `z_0 = 0` and
/// `z_{k+1} = z_k^2 + c`. The trace may stop right after its first `true`.
/// The result is the index of the first escaping iteration below `limit`, or
/// zero when the orbit stays bounded that long.
pub fn escape_time(trace: &Vec<bool>, limit: u8) -> (r: u8)
    ensures
        is_escape_count(trace@, limit as nat, r as nat),
{
    let mut i: u8 = 0;
    while i < limit && (i as usize) < trace.len()
        invariant
            i <= limit,
            forall|k: nat| k < i ==> !#[trigger] trace@[k as int],
        decreases limit - i,
    {
        if trace[i as usize] {
            return i;
        }
        i = i + 1;
    }
    0
}

/// The escape count of a trace is determined by the trace and the limit: two
/// candidates that both meet its definition are equal.
pub proof fn lemma_escape_count_unique(trace: Seq<bool>, limit: nat, a: nat, b: nat)
    requires
        is_escape_count(trace, limit, a),
        is_escape_count(trace, limit, b),
    ensures
        a == b,
{
    if escapes_at(trace, limit, a) && escapes_at(trace, limit, b) {
        if a < b {
            assert(!trace[a as int]);
        } else if b < a {
            assert(!trace[b as int]);
        }
    } else if escapes_at(trace, limit, a) {
        assert(!trace[a as int]);
    } else if escapes_at(trace, limit, b) {
        assert(!trace[b as int]);
    }
}

/// An orbit that never leaves the disc of radius two has escape count zero,
/// whatever the limit.
pub proof fn lemma_bounded_orbit_counts_zero(trace: Seq<bool>, limit: nat)
    requires
        forall|k: int| 0 <= k < trace.len() ==> !#[trigger] trace[k],
    ensures
        is_escape_count(trace, limit, 0),
        forall|r: nat| is_escape_count(trace, limit, r) ==> r == 0,
{
    assert forall|r: nat| is_escape_count(trace, limit, r) implies r == 0 by {
        if escapes_at(trace, limit, r) {
            assert(trace[r as int]);
        }
    }
}

} // verus!
