//! The dominant colour of a frame: every pixel votes for the bucket that its
//! colour falls into, and the bucket with the most votes wins.

use crate::bucket::{
    bucket, bucket_at, bucket_from_key, bucket_key, bucket_of, is_bucket, key_of,
    lemma_bucket_by_high_bits, lemma_bucket_numbers, lemma_quantize_is_floor, lex_le,
};
use crate::frame::{Frame, Rgb};
use crate::votes::{
    lemma_pixel_votes, lemma_unanimous_votes, lemma_vote_count_bounded, lemma_vote_count_empty,
    lemma_vote_count_push, lemma_votes_are_shared, lemma_votes_depend_on_buckets, vote_count,
};
use std::collections::HashMap;
use vstd::prelude::*;
use vstd::std_specs::iter::IteratorSpec;

verus! {

/// `c` is the dominant colour of `pixels`: a bucket that no bucket has more
/// votes than, and the first in `lex_le` among the buckets with as many.
pub open spec fn is_dominant(pixels: Seq<Rgb>, c: Rgb) -> bool {
    &&& is_bucket(c)
    &&& forall|x: Rgb|
        is_bucket(x) ==> #[trigger] vote_count(pixels, x) <= vote_count(pixels, c)
    &&& forall|x: Rgb|
        is_bucket(x) && #[trigger] vote_count(pixels, x) == vote_count(pixels, c) ==> lex_le(c, x)
}

/// The dominant colour of `pixels`. There is exactly one; for no pixels at
/// all it is black.
pub open spec fn dominant_of(pixels: Seq<Rgb>) -> Rgb {
    choose|c: Rgb| is_dominant(pixels, c)
}

/// Black, the colour of a frame without pixels.
pub open spec fn black() -> Rgb {
    Rgb { r: 0, g: 0, b: 0 }
}

/// A frame has one dominant colour only.
pub proof fn lemma_dominant_is_unique(pixels: Seq<Rgb>, c: Rgb, d: Rgb)
    requires
        is_dominant(pixels, c),
        is_dominant(pixels, d),
    ensures
        c == d,
{
    assert(vote_count(pixels, c) <= vote_count(pixels, d));
    assert(vote_count(pixels, d) <= vote_count(pixels, c));
    assert(lex_le(c, d) && lex_le(d, c));
}

/// The colour that meets `is_dominant` is the one that `dominant_of` names.
pub proof fn lemma_dominant_of(pixels: Seq<Rgb>, c: Rgb)
    requires
        is_dominant(pixels, c),
    ensures
        dominant_of(pixels) == c,
{
    lemma_dominant_is_unique(pixels, c, dominant_of(pixels));
}

/// Among the buckets numbered below `bound` one leads: none of them has more
/// votes, and none with as many has a smaller number.
proof fn lemma_leader_below(pixels: Seq<Rgb>, bound: u16) -> (best: u16)
    requires
        1 <= bound <= 4096,
    ensures
        best < bound,
        forall|key: u16|
            key < bound ==> #[trigger] vote_count(pixels, bucket_at(key)) < vote_count(
                pixels,
                bucket_at(best),
            ) || (vote_count(pixels, bucket_at(key)) == vote_count(pixels, bucket_at(best))
                && best <= key),
    decreases bound,
{
    if bound == 1 {
        0
    } else {
        let last = (bound - 1) as u16;
        let earlier = lemma_leader_below(pixels, last);
        if vote_count(pixels, bucket_at(last)) > vote_count(pixels, bucket_at(earlier)) {
            last
        } else {
            earlier
        }
    }
}

/// Every frame has a dominant colour, and `dominant_of` names it.
pub proof fn lemma_dominant_exists(pixels: Seq<Rgb>)
    ensures
        is_dominant(pixels, dominant_of(pixels)),
{
    let best = lemma_leader_below(pixels, 4096);
    let c = bucket_at(best);
    lemma_bucket_numbers(c, best);
    assert forall|x: Rgb| is_bucket(x) implies {
        &&& #[trigger] vote_count(pixels, x) <= vote_count(pixels, c)
        &&& vote_count(pixels, x) == vote_count(pixels, c) ==> lex_le(c, x)
    } by {
        lemma_bucket_numbers(x, best);
        assert(bucket_at(key_of(x)) == x);
    }
    assert(is_dominant(pixels, c));
}

/// Changing the low four bits of any channel of any pixel leaves the dominant
/// colour as it was: two frames that agree, pixel by pixel, in the high four
/// bits of each channel have the same dominant colour.
pub proof fn lemma_low_bits_do_not_matter(first: Seq<Rgb>, second: Seq<Rgb>)
    requires
        first.len() == second.len(),
        forall|i: int|
            0 <= i < first.len() ==> first[i].r >> 4 == second[i].r >> 4 && first[i].g >> 4
                == second[i].g >> 4 && first[i].b >> 4 == second[i].b >> 4,
    ensures
        forall|c: Rgb| vote_count(first, c) == vote_count(second, c),
        dominant_of(first) == dominant_of(second),
{
    assert forall|i: int| 0 <= i < first.len() implies bucket_of(first[i]) == bucket_of(
        second[i],
    ) by {
        lemma_bucket_by_high_bits(first[i], second[i]);
    }
    assert forall|c: Rgb| vote_count(first, c) == vote_count(second, c) by {
        lemma_votes_depend_on_buckets(first, second, c);
    }
    lemma_dominant_exists(first);
    assert(is_dominant(second, dominant_of(first)));
    lemma_dominant_of(second, dominant_of(first));
}

/// The arrangement of the pixels plays no part: two frames that hold the same
/// pixels, each as often as the other, have the same dominant colour.
pub proof fn lemma_order_does_not_matter(first: Seq<Rgb>, second: Seq<Rgb>)
    requires
        first.to_multiset() == second.to_multiset(),
    ensures
        forall|c: Rgb| vote_count(first, c) == vote_count(second, c),
        dominant_of(first) == dominant_of(second),
{
    assert forall|c: Rgb| vote_count(first, c) == vote_count(second, c) by {}
    lemma_dominant_exists(first);
    assert(is_dominant(second, dominant_of(first)));
    lemma_dominant_of(second, dominant_of(first));
}

/// A bucket with more votes than every other bucket is the dominant colour.
pub proof fn lemma_most_votes_wins(pixels: Seq<Rgb>, a: Rgb)
    requires
        is_bucket(a),
        forall|x: Rgb|
            is_bucket(x) && x != a ==> #[trigger] vote_count(pixels, x) < vote_count(pixels, a),
    ensures
        is_dominant(pixels, a),
        dominant_of(pixels) == a,
{
    assert(is_dominant(pixels, a));
    lemma_dominant_of(pixels, a);
}

/// A bucket that more than half of the pixels fall into is the dominant
/// colour, however the pixels are arranged.
pub proof fn lemma_majority_wins(pixels: Seq<Rgb>, a: Rgb)
    requires
        is_bucket(a),
        2 * vote_count(pixels, a) > pixels.len(),
    ensures
        is_dominant(pixels, a),
        dominant_of(pixels) == a,
{
    assert forall|x: Rgb| is_bucket(x) && x != a implies #[trigger] vote_count(pixels, x)
        < vote_count(pixels, a) by {
        lemma_votes_are_shared(pixels, a, x);
    }
    lemma_most_votes_wins(pixels, a);
}

/// A frame of one colour throughout has the bucket of that colour as its
/// dominant colour.
pub proof fn lemma_uniform_frame(pixels: Seq<Rgb>, p: Rgb)
    requires
        pixels.len() > 0,
        forall|i: int| 0 <= i < pixels.len() ==> pixels[i] == p,
    ensures
        dominant_of(pixels) == bucket_of(p),
{
    lemma_unanimous_votes(pixels, bucket_of(p));
    lemma_bucket_by_high_bits(p, p);
    lemma_majority_wins(pixels, bucket_of(p));
}

/// A frame without pixels has black as its dominant colour.
pub proof fn lemma_empty_frame_is_black()
    ensures
        dominant_of(Seq::<Rgb>::empty()) == black(),
{
    let none = Seq::<Rgb>::empty();
    assert(is_bucket(black())) by {
        lemma_quantize_is_floor(0);
    }
    assert forall|x: Rgb| vote_count(none, x) == 0 by {
        lemma_vote_count_empty(x);
    }
    assert(is_dominant(none, black()));
    lemma_dominant_of(none, black());
}

/// `counts` holds, under each bucket's number, the votes of that bucket among
/// `pixels`, and no entry for a bucket without votes.
spec fn tallies(counts: Map<u16, u64>, pixels: Seq<Rgb>) -> bool {
    &&& forall|key: u16| #[trigger]
        counts.contains_key(key) ==> key < 4096 && counts[key] >= 1 && counts[key] == vote_count(
            pixels,
            bucket_at(key),
        )
    &&& forall|key: u16|
        key < 4096 && !#[trigger] counts.contains_key(key) ==> vote_count(pixels, bucket_at(key))
            == 0
}

/// Counts the votes of every bucket.
fn count_votes(frame: &Frame) -> (counts: HashMap<u16, u64>)
    ensures
        tallies(counts@, frame@),
{
    let mut counts: HashMap<u16, u64> = HashMap::new();
    let n = frame.pixel_count();
    let mut i: usize = 0;
    proof {
        assert(frame@.take(0) =~= Seq::<Rgb>::empty());
        assert forall|key: u16| key < 4096 implies vote_count(frame@.take(0), bucket_at(key))
            == 0 by {
            lemma_vote_count_empty(bucket_at(key));
        }
    }
    while i < n
        invariant
            i <= n,
            n == frame@.len(),
            tallies(counts@, frame@.take(i as int)),
            forall|key: u16| #[trigger] counts@.contains_key(key) ==> counts@[key] <= i,
        decreases n - i,
    {
        let p = frame.pixel(i);
        let key = bucket_key(bucket(p));
        let ghost before = counts@;
        let ghost seen = frame@.take(i as int);
        *counts.entry(key).or_insert(0) += 1;
        proof {
            assert(frame@.take(i + 1) =~= seen.push(p));
            assert forall|other: u16| other < 4096 implies vote_count(
                frame@.take(i + 1),
                bucket_at(other),
            ) == vote_count(seen, bucket_at(other)) + if other == key {
                1nat
            } else {
                0nat
            } by {
                lemma_vote_count_push(seen, p, bucket_at(other));
                lemma_bucket_numbers(p, other);
            }
            assert(counts@ == before.insert(key, counts@[key]));
        }
        i += 1;
    }
    proof {
        assert(frame@.take(n as int) =~= frame@);
    }
    counts
}

/// `key` has the most votes in `counts`, and the smallest number among the
/// keys with as many.
spec fn leads(counts: Map<u16, u64>, key: u16) -> bool {
    &&& counts.contains_key(key)
    &&& forall|other: u16| #[trigger]
        counts.contains_key(other) ==> counts[other] < counts[key] || (counts[other]
            == counts[key] && key <= other)
}

/// The key with the largest count, the smallest such key where several have
/// it; `None` for a map without entries.
fn leading_key(counts: &HashMap<u16, u64>) -> (best: Option<u16>)
    ensures
        best is None <==> forall|key: u16| !counts@.contains_key(key),
        best matches Some(key) ==> leads(counts@, key),
{
    broadcast use vstd::std_specs::hash::group_hash_axioms;

    let mut best: Option<(u16, u64)> = None;
    for entry in it: counts.iter()
        invariant
            it.seq() == vstd::std_specs::hash::spec_hash_map_iter(counts).remaining(),
            best is None <==> it.index() == 0,
            best matches Some((key, votes)) ==> {
                &&& counts@.contains_key(key)
                &&& counts@[key] == votes
                &&& forall|j: int|
                    0 <= j < it.index() ==> *(#[trigger] it.seq()[j]).1 < votes || (*it.seq()[j].1
                        == votes && key <= *it.seq()[j].0)
            },
    {
        let (key, votes) = entry;
        let better = match best {
            None => true,
            Some((best_key, best_votes)) => *votes > best_votes || (*votes == best_votes && *key
                < best_key),
        };
        if better {
            best = Some((*key, *votes));
        }
    }
    match best {
        None => None,
        Some((key, _)) => Some(key),
    }
}

/// The dominant colour of a frame: the bucket that most pixels fall into.
/// Where several buckets have the most votes, the first of them by red, then
/// green, then blue is returned; a frame without pixels gives black.
pub fn dominant_color(frame: &Frame) -> (out: Rgb)
    ensures
        is_dominant(frame@, out),
        out == dominant_of(frame@),
        frame@.len() == 0 ==> out == black(),
        frame@.len() > 0 ==> vote_count(frame@, out) >= 1,
{
    let counts = count_votes(frame);
    let leader = leading_key(&counts);
    let out = match leader {
        Some(key) => bucket_from_key(key),
        None => Rgb { r: 0, g: 0, b: 0 },
    };
    proof {
        lemma_bucket_numbers(out, 0);
        if frame@.len() > 0 {
            lemma_pixel_votes(frame@, 0);
            lemma_bucket_numbers(frame@[0], 0);
            assert(counts@.contains_key(key_of(frame@[0])));
        }
        assert forall|x: Rgb| is_bucket(x) implies {
            &&& #[trigger] vote_count(frame@, x) <= vote_count(frame@, out)
            &&& vote_count(frame@, x) == vote_count(frame@, out) ==> lex_le(out, x)
        } by {
            match leader {
                Some(key) => {
                    lemma_bucket_numbers(x, key);
                    assert(counts@.contains_key(key_of(x)) ==> counts@[key_of(x)]
                        <= counts@[key]);
                },
                None => {
                    lemma_bucket_numbers(x, 0);
                    assert(!counts@.contains_key(key_of(x)) && !counts@.contains_key(0));
                },
            }
        }
        lemma_vote_count_bounded(frame@, out);
        lemma_dominant_of(frame@, out);
    }
    out
}

} // verus!
