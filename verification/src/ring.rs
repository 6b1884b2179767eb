//! Sequences that grow at their end, and queues that keep the latest items.

use std::collections::VecDeque;
use vstd::prelude::*;

verus! {

/// The last `n` of `s`.
pub open spec fn last_of<S>(s: Seq<S>, n: int) -> Seq<S> {
    if s.len() <= n {
        s
    } else {
        s.skip(s.len() - n)
    }
}

/// Drops the oldest items until at most `max` are left.
pub fn keep_last<S>(q: &mut VecDeque<S>, max: u128)
    ensures
        final(q)@ == last_of(old(q)@, max as int),
{
    let ghost all = q@;
    while q.len() as u128 > max
        invariant
            q@.len() <= all.len(),
            q@ == all.skip(all.len() - q@.len()),
            q@.len() >= max || q@ == all,
        decreases q@.len(),
    {
        let ghost held = q@;
        let _ = q.pop_front();
        assert(q@ =~= held.skip(1));
        assert(q@ =~= all.skip(all.len() - q@.len()));
    }
    assert(q@ =~= last_of(all, max as int));
}

/// Appends the items of `t`.
pub fn extend<S: Copy>(q: &mut VecDeque<S>, t: &[S])
    ensures
        final(q)@ == old(q)@ + t@,
{
    let mut i: usize = 0;
    assert(q@ =~= old(q)@ + t@.take(0));
    while i < t.len()
        invariant
            i <= t@.len(),
            q@ == old(q)@ + t@.take(i as int),
        decreases t@.len() - i,
    {
        q.push_back(t[i]);
        assert(t@.take(i + 1) =~= t@.take(i as int).push(t@[i as int]));
        assert(q@ =~= old(q)@ + t@.take(i + 1));
        i += 1;
    }
    assert(t@.take(i as int) =~= t@);
}

/// Appends the items of `t`.
pub fn append<S: Copy>(v: &mut Vec<S>, t: &[S])
    ensures
        final(v)@ == old(v)@ + t@,
{
    let mut i: usize = 0;
    assert(v@ =~= old(v)@ + t@.take(0));
    while i < t.len()
        invariant
            i <= t@.len(),
            v@ == old(v)@ + t@.take(i as int),
        decreases t@.len() - i,
    {
        v.push(t[i]);
        assert(t@.take(i + 1) =~= t@.take(i as int).push(t@[i as int]));
        assert(v@ =~= old(v)@ + t@.take(i + 1));
        i += 1;
    }
    assert(t@.take(i as int) =~= t@);
}

/// Keeping the latest in two steps is keeping the latest.
pub proof fn law_last_of_twice<S>(s: Seq<S>, t: Seq<S>, n: int)
    requires
        0 <= n,
    ensures
        last_of(last_of(s, n) + t, n) == last_of(s + t, n),
{
    assert(last_of(last_of(s, n) + t, n) =~= last_of(s + t, n));
}

/// The last `n` items are those at the end, in order; all of them where there
/// are no more.
pub proof fn law_last_of_takes_the_end<S>(a: Seq<S>, b: Seq<S>)
    ensures
        last_of(a + b, b.len() as int) == b,
        last_of(a, (a.len() + b.len()) as int) == a,
{
    assert((a + b).skip(a.len() as int) =~= b);
    assert(last_of(a + b, b.len() as int) =~= b);
}

} // verus!
