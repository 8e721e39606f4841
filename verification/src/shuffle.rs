//! The seeded permutation generator.
//!
//! A Durstenfeld/Fisher-Yates shuffle walks the buffer from the highest
//! position down to position 1 and swaps each position with a uniformly drawn
//! partner at or below it. The partner index is drawn by rejection sampling:
//! a full-width word is redrawn until it falls below the greatest multiple of
//! the partner range that fits in a word, so the final modulo is free of bias.
//!
//! Everything the shuffle produces is pinned to the word stream: the shuffled
//! contents and the final stream position are spec-level functions of the
//! seed, the initial contents, and the starting stream position, which is
//! what makes permutations reproducible from their seed.

use vstd::prelude::*;

use crate::stream::{stream_word, WordStream};

verus! {

/// Words at or above this limit are rejected when drawing below `bound`: the
/// greatest multiple of `bound` that fits in a word.
pub open spec fn max_acceptable(bound: int) -> int
    recommends
        1 <= bound,
{
    u64::MAX as int - u64::MAX as int % bound
}

/// The word at position `k` is accepted when drawing below `bound`.
pub open spec fn accepts(seed: Seq<char>, bound: int, k: nat) -> bool {
    stream_word(seed, k) < max_acceptable(bound)
}

/// Position `k` holds the first accepted word at or after `start`.
pub open spec fn is_first_accepted(seed: Seq<char>, start: nat, bound: int, k: nat) -> bool {
    &&& start <= k
    &&& accepts(seed, bound, k)
    &&& forall|m: nat| start <= m < k ==> !accepts(seed, bound, m)
}

/// The position of the first accepted word at or after `start` (arbitrary if
/// every word of the stream were rejected).
pub open spec fn first_accepted(seed: Seq<char>, start: nat, bound: int) -> nat {
    choose|k: nat| is_first_accepted(seed, start, bound, k)
}

/// The index drawn below `bound` by rejection sampling from position `start`.
pub open spec fn draw_value(seed: Seq<char>, start: nat, bound: int) -> int
    recommends
        1 <= bound,
{
    stream_word(seed, first_accepted(seed, start, bound)) as int % bound
}

/// Law: at most one stream position holds the first accepted word, so a
/// rejection-sampled draw is determined by the seed, the starting position,
/// and the bound alone.
pub proof fn lemma_first_accepted_unique(
    seed: Seq<char>,
    start: nat,
    bound: int,
    k1: nat,
    k2: nat,
)
    requires
        is_first_accepted(seed, start, bound, k1),
        is_first_accepted(seed, start, bound, k2),
    ensures
        k1 == k2,
{
    if k1 < k2 {
        assert(!accepts(seed, bound, k1));
    }
    if k2 < k1 {
        assert(!accepts(seed, bound, k2));
    }
}

/// A witness for the first accepted word pins down `first_accepted`.
proof fn lemma_first_accepted_is(seed: Seq<char>, start: nat, bound: int, k: nat)
    requires
        is_first_accepted(seed, start, bound, k),
    ensures
        first_accepted(seed, start, bound) == k,
{
    assert(exists|j: nat| is_first_accepted(seed, start, bound, j));
    lemma_first_accepted_unique(seed, start, bound, k, first_accepted(seed, start, bound));
}

/// The acceptance limit is at least `2^63` for every bound a draw can use.
proof fn lemma_max_acceptable_high(bound: int)
    requires
        2 <= bound <= u64::MAX,
    ensures
        max_acceptable(bound) >= 0x8000_0000_0000_0000,
{
    let m = u64::MAX as int;
    assert(0 <= m % bound < bound) by (nonlinear_arith)
        requires
            2 <= bound,
    ;
    if bound > 0x8000_0000_0000_0000 {
        assert(m % bound == m - bound) by (nonlinear_arith)
            requires
                0x8000_0000_0000_0000 < bound <= m < 2 * bound,
        ;
    }
}

/// Draw a uniformly distributed value in `[0, bound)` by rejection sampling.
fn draw_below(stream: &mut WordStream, bound: u64) -> (r: u64)
    requires
        2 <= bound,
    ensures
        final(stream).spec_seed() == old(stream).spec_seed(),
        final(stream).spec_idx() == first_accepted(
            old(stream).spec_seed(),
            old(stream).spec_idx(),
            bound as int,
        ) + 1,
        r as int == draw_value(old(stream).spec_seed(), old(stream).spec_idx(), bound as int),
        r < bound,
{
    let ghost seed = stream.spec_seed();
    let ghost start = stream.spec_idx();
    let max_acc: u64 = u64::MAX - u64::MAX % bound;
    proof {
        lemma_max_acceptable_high(bound as int);
    }
    let mut x = stream.next_word();
    let ghost cap = choose|k: nat|
        k >= start && stream_word(seed, k) < 0x8000_0000_0000_0000u64;
    while x >= max_acc
        invariant
            2 <= bound,
            max_acc as int == max_acceptable(bound as int),
            max_acc >= 0x8000_0000_0000_0000u64,
            stream.spec_seed() == seed,
            start < stream.spec_idx(),
            stream.spec_idx() - 1 <= cap,
            stream_word(seed, cap) < 0x8000_0000_0000_0000u64,
            x == stream_word(seed, (stream.spec_idx() - 1) as nat),
            forall|m: nat|
                start <= m < stream.spec_idx() - 1 ==> !accepts(seed, bound as int, m),
        decreases cap + 1 - stream.spec_idx(),
    {
        x = stream.next_word();
    }
    proof {
        let k = (stream.spec_idx() - 1) as nat;
        assert(is_first_accepted(seed, start, bound as int, k));
        lemma_first_accepted_is(seed, start, bound as int, k);
    }
    x % bound
}

/// `s` with the entries at `a` and `b` exchanged.
pub open spec fn swapped(s: Seq<usize>, a: int, b: int) -> Seq<usize>
    recommends
        0 <= a < s.len(),
        0 <= b < s.len(),
{
    s.update(a, s[b]).update(b, s[a])
}

/// Exchanging two entries leaves the multiset of entries unchanged.
pub proof fn lemma_swap_multiset(s: Seq<usize>, a: int, b: int)
    requires
        0 <= a < s.len(),
        0 <= b < s.len(),
    ensures
        swapped(s, a, b).to_multiset() == s.to_multiset(),
{
    broadcast use vstd::seq_lib::to_multiset_update;
    broadcast use vstd::multiset::group_multiset_axioms;

    let s1 = s.update(a, s[b]);
    let s2 = s1.update(b, s[a]);
    assert(s1[b] == s[b]);
    assert(s.contains(s[a])) by {
        assert(s[a] == s[a]);
    }
    assert(s.to_multiset().count(s[a]) > 0) by {
        s.to_multiset_ensures();
    }
    assert(s2.to_multiset() =~= s.to_multiset()) by {
        assert(forall|v: usize|
            #[trigger] s2.to_multiset().count(v) == s.to_multiset().count(v)) by {
            assert(s1.to_multiset() == s.to_multiset().insert(s[b]).remove(s[a]));
            assert(s2.to_multiset() == s1.to_multiset().insert(s[a]).remove(s[b]));
        }
    }
}

/// Exchange the entries of `data` at `a` and `b`.
fn swap_entries(data: &mut Vec<usize>, a: usize, b: usize)
    requires
        a < old(data)@.len(),
        b < old(data)@.len(),
    ensures
        final(data)@ == swapped(old(data)@, a as int, b as int),
        final(data)@.to_multiset() == old(data)@.to_multiset(),
        final(data)@.len() == old(data)@.len(),
{
    let va = data[a];
    let vb = data[b];
    data.set(a, vb);
    data.set(b, va);
    proof {
        lemma_swap_multiset(old(data)@, a as int, b as int);
    }
}

/// The swap partner chosen for `pos`: position 1 always swaps with 0, higher
/// positions draw a partner in `[0, pos]` from the stream.
pub open spec fn step_partner(seed: Seq<char>, i: nat, pos: nat) -> nat
    recommends
        1 <= pos,
{
    if pos == 1 {
        0
    } else {
        draw_value(seed, i, (pos + 1) as int) as nat
    }
}

/// The stream position after the step at `pos`.
pub open spec fn step_stream_index(seed: Seq<char>, i: nat, pos: nat) -> nat
    recommends
        1 <= pos,
{
    if pos == 1 {
        i
    } else {
        (first_accepted(seed, i, (pos + 1) as int) + 1) as nat
    }
}

/// The contents and stream position after running the shuffle from position
/// `pos` down to position 1.
pub open spec fn shuffle_span(seed: Seq<char>, d: Seq<usize>, i: nat, pos: nat) -> (Seq<
    usize,
>, nat)
    decreases pos,
{
    if pos == 0 {
        (d, i)
    } else {
        let d1 = swapped(d, pos as int, step_partner(seed, i, pos) as int);
        let i1 = step_stream_index(seed, i, pos);
        shuffle_span(seed, d1, i1, (pos - 1) as nat)
    }
}

/// The contents and stream position after a whole shuffle of `d`.
pub open spec fn shuffled(seed: Seq<char>, d: Seq<usize>, i: nat) -> (Seq<usize>, nat) {
    if d.len() == 0 {
        (d, i)
    } else {
        shuffle_span(seed, d, i, (d.len() - 1) as nat)
    }
}

/// Shuffle `data` in place with words drawn from `stream`.
///
/// The result is a proven function of the seed, the starting stream position
/// and the initial contents — two shuffles from equal stream states agree —
/// and the multiset of entries is preserved, so a permutation stays a
/// permutation.
pub fn shuffle(data: &mut Vec<usize>, stream: &mut WordStream)
    ensures
        final(stream).spec_seed() == old(stream).spec_seed(),
        (final(data)@, final(stream).spec_idx()) == shuffled(
            old(stream).spec_seed(),
            old(data)@,
            old(stream).spec_idx(),
        ),
        final(data)@.to_multiset() == old(data)@.to_multiset(),
        final(data)@.len() == old(data)@.len(),
{
    let n = data.len();
    let ghost seed = stream.spec_seed();
    let ghost d0 = data@;
    let ghost i0 = stream.spec_idx();
    if n < 2 {
        return ;
    }
    let mut pos = n - 1;
    while pos >= 1
        invariant
            pos <= n - 1,
            2 <= n,
            n == data@.len(),
            stream.spec_seed() == seed,
            shuffle_span(seed, data@, stream.spec_idx(), pos as nat) == shuffle_span(
                seed,
                d0,
                i0,
                (n - 1) as nat,
            ),
            data@.to_multiset() == d0.to_multiset(),
        decreases pos,
    {
        let ghost prev_d = data@;
        let ghost prev_i = stream.spec_idx();
        let j: usize = if pos == 1 {
            0
        } else {
            let w = draw_below(stream, (pos + 1) as u64);
            w as usize
        };
        proof {
            assert(j as nat == step_partner(seed, prev_i, pos as nat));
            assert(stream.spec_idx() == step_stream_index(seed, prev_i, pos as nat));
        }
        swap_entries(data, pos, j);
        proof {
            assert(data@ == swapped(prev_d, pos as int, j as int));
        }
        pos = pos - 1;
    }
}

/// A shuffle run never changes the multiset of entries or the length,
/// whatever the stream holds.
proof fn lemma_shuffle_span_multiset(seed: Seq<char>, d: Seq<usize>, i: nat, pos: nat)
    requires
        pos < d.len(),
    ensures
        shuffle_span(seed, d, i, pos).0.to_multiset() == d.to_multiset(),
        shuffle_span(seed, d, i, pos).0.len() == d.len(),
    decreases pos,
{
    if pos != 0 {
        let j = step_partner(seed, i, pos);
        assert(j <= pos) by {
            if pos != 1 {
                vstd::arithmetic::div_mod::lemma_mod_division_less_than_divisor(
                    stream_word(seed, first_accepted(seed, i, (pos + 1) as int)) as int,
                    (pos + 1) as int,
                );
            }
        }
        let d1 = swapped(d, pos as int, j as int);
        lemma_swap_multiset(d, pos as int, j as int);
        lemma_shuffle_span_multiset(seed, d1, step_stream_index(seed, i, pos), (pos - 1) as nat);
    }
}

/// Law: every sample's chase buffer is a bijection on the slot range — each
/// slot index appears exactly once in the shuffled identity sequence.
pub proof fn lemma_sample_permutation_is_bijection(seed: Seq<char>, n: nat, k: nat)
    requires
        1 <= n <= usize::MAX,
    ensures
        sample_permutation(seed, n, k).len() == n,
        is_permutation_of_range(sample_permutation(seed, n, k)),
{
    let i = sample_stream_index(seed, n, k);
    lemma_shuffle_span_multiset(seed, identity_seq(n), i, (n - 1) as nat);
}

/// The stream position at which the shuffle of sample `k` starts: the stream
/// advances across samples instead of being reset, so consecutive samples use
/// different, still deterministic permutations.
pub open spec fn sample_stream_index(seed: Seq<char>, n: nat, k: nat) -> nat
    decreases k,
{
    if k == 0 {
        0
    } else {
        shuffled(seed, identity_seq(n), sample_stream_index(seed, n, (k - 1) as nat)).1
    }
}

/// The permutation chased by sample `k`: the identity sequence shuffled by
/// the seeded stream at that sample's stream position.
pub open spec fn sample_permutation(seed: Seq<char>, n: nat, k: nat) -> Seq<usize> {
    shuffled(seed, identity_seq(n), sample_stream_index(seed, n, k)).0
}

/// The identity sequence `0, 1, ..., n-1`.
pub open spec fn identity_seq(n: nat) -> Seq<usize>
    recommends
        n <= usize::MAX,
{
    Seq::new(n, |i: int| i as usize)
}

/// Every slot index in `[0, len)` appears exactly once.
pub open spec fn is_permutation_of_range(s: Seq<usize>) -> bool {
    s.to_multiset() == identity_seq(s.len()).to_multiset()
}

/// A buffer holding the identity sequence `0, 1, ..., n-1`.
pub fn identity_vec(n: usize) -> (r: Vec<usize>)
    ensures
        r@ == identity_seq(n as nat),
        is_permutation_of_range(r@),
{
    let mut v: Vec<usize> = Vec::new();
    let mut i: usize = 0;
    while i < n
        invariant
            i <= n,
            v@.len() == i,
            forall|k: int| 0 <= k < i ==> v@[k] == k,
        decreases n - i,
    {
        v.push(i);
        i = i + 1;
    }
    proof {
        assert(v@ =~= identity_seq(n as nat));
    }
    v
}

/// How often `v` occurs in the identity sequence: once if below `n`, else not
/// at all.
proof fn lemma_identity_count(n: nat, v: usize)
    requires
        n <= usize::MAX,
    ensures
        identity_seq(n).to_multiset().count(v) == if (v as nat) < n {
            1nat
        } else {
            0nat
        },
    decreases n,
{
    broadcast use vstd::seq_lib::group_to_multiset_ensures;
    broadcast use vstd::multiset::group_multiset_axioms;

    if n == 0 {
        assert(identity_seq(0) =~= Seq::<usize>::empty());
        assert(identity_seq(0).to_multiset().count(v) == 0) by {
            identity_seq(0).to_multiset_ensures();
            assert(!identity_seq(0).contains(v));
        }
    } else {
        lemma_identity_count((n - 1) as nat, v);
        assert(identity_seq(n) =~= identity_seq((n - 1) as nat).push((n - 1) as usize));
    }
}

/// Law: in a permutation of the range, every slot index below the length
/// appears exactly once and no other value appears at all.
pub proof fn lemma_permutation_of_range_counts(s: Seq<usize>)
    requires
        is_permutation_of_range(s),
        s.len() <= usize::MAX,
    ensures
        forall|v: usize| (v as nat) < s.len() ==> s.to_multiset().count(v) == 1,
        forall|v: usize| (v as nat) >= s.len() ==> s.to_multiset().count(v) == 0,
{
    assert forall|v: usize| (v as nat) < s.len() implies s.to_multiset().count(v) == 1 by {
        lemma_identity_count(s.len(), v);
    }
    assert forall|v: usize| (v as nat) >= s.len() implies s.to_multiset().count(v) == 0 by {
        lemma_identity_count(s.len(), v);
    }
}

/// In a permutation of the range, every entry is below the length.
pub proof fn lemma_permutation_in_range(s: Seq<usize>)
    requires
        is_permutation_of_range(s),
        s.len() <= usize::MAX,
    ensures
        forall|i: int| 0 <= i < s.len() ==> (#[trigger] s[i]) < s.len(),
{
    broadcast use vstd::seq_lib::group_to_multiset_ensures;

    lemma_permutation_of_range_counts(s);
    assert forall|i: int| 0 <= i < s.len() implies (#[trigger] s[i]) < s.len() by {
        assert(s.contains(s[i]));
        assert(s.to_multiset().count(s[i]) > 0);
    }
}

/// Law: a shuffle keeps a permutation of the range a permutation of the
/// range — every slot index still appears exactly once.
pub proof fn lemma_shuffle_preserves_permutation(s: Seq<usize>, t: Seq<usize>)
    requires
        is_permutation_of_range(s),
        t.to_multiset() == s.to_multiset(),
        t.len() == s.len(),
    ensures
        is_permutation_of_range(t),
{
}

} // verus!
