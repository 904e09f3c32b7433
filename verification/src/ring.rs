//! Histories of bounded length: the oldest entry makes room for the newest.
use std::collections::VecDeque;
use vstd::prelude::*;

verus! {

/// `s` with `x` at the back; the front entry leaves if there are then more than `cap`.
pub open spec fn ring_push<T>(s: Seq<T>, x: T, cap: nat) -> Seq<T> {
    if s.len() + 1 > cap {
        s.push(x).drop_first()
    } else {
        s.push(x)
    }
}

/// `s` after all of `xs` have been pushed, in order.
pub open spec fn ring_push_all<T>(s: Seq<T>, xs: Seq<T>, cap: nat) -> Seq<T>
    decreases xs.len(),
{
    if xs.len() == 0 {
        s
    } else {
        ring_push(ring_push_all(s, xs.drop_last(), cap), xs.last(), cap)
    }
}

/// The last `n` entries of `s`, or all of them if there are fewer.
pub open spec fn last_of<T>(s: Seq<T>, n: nat) -> Seq<T> {
    if s.len() > n {
        s.skip(s.len() - n)
    } else {
        s
    }
}

/// Pushes `x`, evicting the oldest entry if the ring then exceeds `cap`.
pub fn push_capped<T>(ring: &mut VecDeque<T>, x: T, cap: usize)
    ensures
        final(ring)@ == ring_push(old(ring)@, x, cap as nat),
{
    ring.push_back(x);
    if ring.len() > cap {
        let _ = ring.pop_front();
    }
}

/// A ring within its bound stays within it.
pub proof fn lemma_ring_bound<T>(s: Seq<T>, x: T, cap: nat)
    requires
        s.len() <= cap,
    ensures
        ring_push(s, x, cap).len() <= cap,
{
}

/// A ring holds exactly the latest entries: pushing `xs` onto a ring within its bound leaves the
/// last `cap` entries of the old contents followed by `xs`.
pub proof fn lemma_ring_keeps_latest<T>(s: Seq<T>, xs: Seq<T>, cap: nat)
    requires
        s.len() <= cap,
    ensures
        ring_push_all(s, xs, cap) == last_of(s + xs, cap),
    decreases xs.len(),
{
    if xs.len() == 0 {
        assert(s + xs =~= s);
    } else {
        let before = xs.drop_last();
        lemma_ring_keeps_latest(s, before, cap);
        assert((s + before).push(xs.last()) =~= s + xs);
        assert(ring_push_all(s, xs, cap) =~= last_of(s + xs, cap));
    }
}

/// A push puts the entry at the back, keeps the order of the others, and takes away at most the one
/// at the front: counted from the back, every entry that stays is where it was, one place on.
pub proof fn lemma_ring_push<T>(s: Seq<T>, x: T, cap: nat)
    ensures
        ({
            let after = ring_push(s, x, cap);
            &&& after.len() == if s.len() < cap {
                s.len() + 1
            } else {
                s.len()
            }
            &&& after.len() > 0 ==> after.last() == x
            &&& forall|i: int|
                1 <= i < after.len() ==> #[trigger] after[after.len() - 1 - i] == s[s.len() - i]
        }),
{
}

/// The last `n` entries are the end of the sequence, in order, and all of it if it is shorter.
pub proof fn lemma_last_of<T>(s: Seq<T>, n: nat)
    ensures
        last_of(s, n).len() == if s.len() < n {
            s.len()
        } else {
            n
        },
        forall|i: int|
            0 <= i < last_of(s, n).len() ==> #[trigger] last_of(s, n)[i] == s[s.len() - last_of(
                s,
                n,
            ).len() + i],
{
}

/// Pushing one entry after others is pushing it onto what the others made; pushing none changes
/// nothing.
pub proof fn lemma_ring_push_one_more<T>(s: Seq<T>, xs: Seq<T>, x: T, cap: nat)
    ensures
        ring_push_all(s, Seq::empty(), cap) == s,
        ring_push_all(s, xs.push(x), cap) == ring_push(ring_push_all(s, xs, cap), x, cap),
{
    assert(xs.push(x).drop_last() =~= xs);
}

} // verus!
