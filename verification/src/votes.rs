//! Votes: how many pixels of a frame fall into a bucket.

use crate::bucket::bucket_of;
use crate::frame::Rgb;
use vstd::multiset::Multiset;
use vstd::prelude::*;

verus! {

/// The number of pixels that fall into bucket `c`. It is a count over the
/// pixels as a multiset, so their order plays no part.
pub open spec fn vote_count(pixels: Seq<Rgb>, c: Rgb) -> nat {
    pixels.to_multiset().filter(|p: Rgb| bucket_of(p) == c).len()
}

/// No pixel, no vote.
pub proof fn lemma_vote_count_empty(c: Rgb)
    ensures
        vote_count(Seq::<Rgb>::empty(), c) == 0,
{
    broadcast use vstd::multiset::group_multiset_axioms;

    let votes = Seq::<Rgb>::empty().to_multiset();
    assert(votes.len() == 0) by {
        vstd::seq_lib::to_multiset_len(Seq::<Rgb>::empty());
    }
    let mine = votes.filter(|p: Rgb| bucket_of(p) == c);
    assert(votes =~= Multiset::<Rgb>::empty());
    assert(mine =~= Multiset::<Rgb>::empty());
}

/// One more pixel is one more vote for its own bucket and none for any other.
pub proof fn lemma_vote_count_push(pixels: Seq<Rgb>, p: Rgb, c: Rgb)
    ensures
        vote_count(pixels.push(p), c) == vote_count(pixels, c) + if bucket_of(p) == c {
            1nat
        } else {
            0nat
        },
{
    broadcast use vstd::multiset::group_multiset_axioms;

    let pred = |q: Rgb| bucket_of(q) == c;
    let before = pixels.to_multiset();
    let after = pixels.push(p).to_multiset();
    vstd::seq_lib::to_multiset_build(pixels, p);
    assert(after =~= before.insert(p));
    if bucket_of(p) == c {
        assert(after.filter(pred) =~= before.filter(pred).insert(p));
    } else {
        assert(after.filter(pred) =~= before.filter(pred));
    }
}

/// A bucket has at most as many votes as there are pixels.
pub proof fn lemma_vote_count_bounded(pixels: Seq<Rgb>, c: Rgb)
    ensures
        vote_count(pixels, c) <= pixels.len(),
    decreases pixels.len(),
{
    if pixels.len() == 0 {
        assert(pixels =~= Seq::<Rgb>::empty());
        lemma_vote_count_empty(c);
    } else {
        let front = pixels.drop_last();
        assert(pixels =~= front.push(pixels.last()));
        lemma_vote_count_bounded(front, c);
        lemma_vote_count_push(front, pixels.last(), c);
    }
}

/// Two different buckets share the pixels: their votes add up to at most the
/// number of pixels.
pub proof fn lemma_votes_are_shared(pixels: Seq<Rgb>, a: Rgb, b: Rgb)
    requires
        a != b,
    ensures
        vote_count(pixels, a) + vote_count(pixels, b) <= pixels.len(),
    decreases pixels.len(),
{
    if pixels.len() == 0 {
        assert(pixels =~= Seq::<Rgb>::empty());
        lemma_vote_count_empty(a);
        lemma_vote_count_empty(b);
    } else {
        let front = pixels.drop_last();
        assert(pixels =~= front.push(pixels.last()));
        lemma_votes_are_shared(front, a, b);
        lemma_vote_count_push(front, pixels.last(), a);
        lemma_vote_count_push(front, pixels.last(), b);
    }
}

/// Every pixel is counted: the bucket of a pixel of the frame has a vote.
pub proof fn lemma_pixel_votes(pixels: Seq<Rgb>, i: int)
    requires
        0 <= i < pixels.len(),
    ensures
        vote_count(pixels, bucket_of(pixels[i])) >= 1,
    decreases pixels.len(),
{
    let front = pixels.drop_last();
    assert(pixels =~= front.push(pixels.last()));
    lemma_vote_count_push(front, pixels.last(), bucket_of(pixels[i]));
    if i < pixels.len() - 1 {
        lemma_pixel_votes(front, i);
    }
}

/// Two frames whose pixels fall into the same buckets, place by place, give
/// every bucket the same votes.
pub proof fn lemma_votes_depend_on_buckets(first: Seq<Rgb>, second: Seq<Rgb>, c: Rgb)
    requires
        first.len() == second.len(),
        forall|i: int| 0 <= i < first.len() ==> bucket_of(first[i]) == bucket_of(second[i]),
    ensures
        vote_count(first, c) == vote_count(second, c),
    decreases first.len(),
{
    if first.len() == 0 {
        assert(first =~= Seq::<Rgb>::empty());
        assert(second =~= Seq::<Rgb>::empty());
    } else {
        let f = first.drop_last();
        let s = second.drop_last();
        assert(first =~= f.push(first.last()));
        assert(second =~= s.push(second.last()));
        lemma_votes_depend_on_buckets(f, s, c);
        lemma_vote_count_push(f, first.last(), c);
        lemma_vote_count_push(s, second.last(), c);
    }
}

/// Where every pixel falls into the bucket `c`, that bucket has all the
/// votes.
pub proof fn lemma_unanimous_votes(pixels: Seq<Rgb>, c: Rgb)
    requires
        forall|i: int| 0 <= i < pixels.len() ==> bucket_of(#[trigger] pixels[i]) == c,
    ensures
        vote_count(pixels, c) == pixels.len(),
    decreases pixels.len(),
{
    if pixels.len() == 0 {
        assert(pixels =~= Seq::<Rgb>::empty());
        lemma_vote_count_empty(c);
    } else {
        let front = pixels.drop_last();
        assert(pixels =~= front.push(pixels.last()));
        assert forall|i: int| 0 <= i < front.len() implies bucket_of(#[trigger] front[i])
            == c by {
            assert(front[i] == pixels[i]);
        }
        lemma_unanimous_votes(front, c);
        lemma_vote_count_push(front, pixels.last(), c);
    }
}

} // verus!
