//! Ordered concatenation of the downloaded segments into one stream.
use vstd::prelude::*;

verus! {

/// The byte-exact concatenation of `segs`, in order.
pub open spec fn concat_all(segs: Seq<Seq<u8>>) -> Seq<u8>
    decreases segs.len(),
{
    if segs.len() == 0 {
        Seq::empty()
    } else {
        concat_all(segs.drop_last()) + segs.last()
    }
}

pub open spec fn byte_views(v: Seq<Vec<u8>>) -> Seq<Seq<u8>> {
    v.map_values(|b: Vec<u8>| b@)
}

/// Where segment `i` starts in the concatenation of `segs`.
pub open spec fn segment_offset(segs: Seq<Seq<u8>>, i: int) -> nat {
    concat_all(segs.take(i)).len()
}

/// Appends the whole of `seg` to `out`.
pub fn append_segment(out: &mut Vec<u8>, seg: &Vec<u8>)
    ensures
        final(out)@ == old(out)@ + seg@,
{
    let n = seg.len();
    let mut k: usize = 0;
    while k < n
        invariant
            n == seg@.len(),
            k <= n,
            out@ == old(out)@ + seg@.take(k as int),
        decreases n - k,
    {
        out.push(seg[k]);
        k = k + 1;
        assert(out@ =~= old(out)@ + seg@.take(k as int));
    }
    assert(seg@.take(n as int) =~= seg@);
}

/// The segments joined in ascending index order, no byte skipped or added.
pub fn concat_segments(segs: &Vec<Vec<u8>>) -> (r: Vec<u8>)
    ensures
        r@ == concat_all(byte_views(segs@)),
{
    let mut out: Vec<u8> = Vec::new();
    let n = segs.len();
    let mut i: usize = 0;
    proof {
        assert(byte_views(segs@).take(0) =~= Seq::<Seq<u8>>::empty());
    }
    while i < n
        invariant
            n == segs@.len(),
            i <= n,
            out@ == concat_all(byte_views(segs@).take(i as int)),
        decreases n - i,
    {
        append_segment(&mut out, &segs[i]);
        proof {
            let v = byte_views(segs@);
            assert(v.take(i + 1).drop_last() =~= v.take(i as int));
        }
        i = i + 1;
    }
    proof {
        assert(byte_views(segs@).take(n as int) =~= byte_views(segs@));
    }
    out
}

proof fn lemma_concat_append(a: Seq<Seq<u8>>, b: Seq<Seq<u8>>)
    ensures
        concat_all(a + b) == concat_all(a) + concat_all(b),
    decreases b.len(),
{
    if b.len() == 0 {
        assert(a + b =~= a);
        assert(concat_all(a) + concat_all(b) =~= concat_all(a));
    } else {
        lemma_concat_append(a, b.drop_last());
        assert((a + b).drop_last() =~= a + b.drop_last());
        assert(concat_all(a) + concat_all(b) =~= concat_all(a) + concat_all(b.drop_last())
            + b.last());
    }
}

/// Reading the concatenation back at the known segment boundaries gives each
/// segment unchanged: segment `i` is the slice that starts at the total
/// length of the segments before it and is as long as segment `i`.
pub proof fn lemma_reassembly_slices(segs: Seq<Seq<u8>>, i: int)
    requires
        0 <= i < segs.len(),
    ensures
        segment_offset(segs, i) + segs[i].len() <= concat_all(segs).len(),
        concat_all(segs).subrange(
            segment_offset(segs, i) as int,
            (segment_offset(segs, i) + segs[i].len()) as int,
        ) == segs[i],
{
    let pre = segs.take(i);
    let rest = segs.subrange(i + 1, segs.len() as int);
    assert(segs =~= pre.push(segs[i]) + rest);
    lemma_concat_append(pre.push(segs[i]), rest);
    assert(pre.push(segs[i]).drop_last() =~= pre);
    let whole = concat_all(pre) + segs[i] + concat_all(rest);
    assert(whole.subrange(
        concat_all(pre).len() as int,
        (concat_all(pre).len() + segs[i].len()) as int,
    ) =~= segs[i]);
}

/// The concatenation is as long as all segments together.
pub proof fn lemma_concat_len(segs: Seq<Seq<u8>>)
    ensures
        concat_all(segs).len() == segment_offset(segs, segs.len() as int),
{
    assert(segs.take(segs.len() as int) =~= segs);
}

} // verus!
