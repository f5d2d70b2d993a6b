//! Feeding recordings to the resampler.

use vstd::prelude::*;

verus! {

/// Sample rate the recogniser reads.
pub const TARGET_RATE: u32 = 16000;

/// Samples the resampler takes at once.
pub const CHUNK: usize = 1024;

/// Whether a recording has to be resampled.
pub fn needs_resampling(rate: u32) -> (r: bool)
    ensures
        r == (rate != TARGET_RATE),
        r == (rate != 16000),
{
    rate != TARGET_RATE
}

/// Whole frames in an interleaved recording; what is left of a last one is dropped.
pub fn whole_frames(samples: usize, channels: u16) -> (r: usize)
    requires
        channels > 0,
    ensures
        r == samples as int / channels as int,
{
    samples / channels as usize
}

/// `n` times the same sample.
pub open spec fn repeated<T>(x: T, n: nat) -> Seq<T> {
    Seq::new(n, |i: int| x)
}

/// A recording cut into chunks of one size, the last one filled up.
pub open spec fn chunks_of<T>(s: Seq<T>, size: nat, fill: T) -> Seq<Seq<T>>
    decreases s.len(),
{
    if s.len() == 0 || size == 0 {
        seq![]
    } else if s.len() <= size {
        seq![s + repeated(fill, (size - s.len()) as nat)]
    } else {
        seq![s.take(size as int)] + chunks_of(s.skip(size as int), size, fill)
    }
}

/// The contents of a list of chunks.
pub open spec fn chunk_views<T>(list: Seq<Vec<T>>) -> Seq<Seq<T>> {
    list.map_values(|c: Vec<T>| c@)
}

/// Cuts a recording into chunks of one size, filling up the last one.
pub fn padded_chunks<T: Copy>(samples: &Vec<T>, size: usize, fill: T) -> (r: Vec<Vec<T>>)
    requires
        size > 0,
    ensures
        chunk_views(r@) == chunks_of(samples@, size as nat, fill),
{
    let mut chunks: Vec<Vec<T>> = Vec::new();
    let n: usize = samples.len();
    let mut pos: usize = 0;
    let ghost wanted = chunks_of(samples@, size as nat, fill);
    proof {
        assert(samples@.skip(0) =~= samples@);
        assert(chunk_views(chunks@) + wanted =~= wanted);
    }
    while pos < n
        invariant
            pos <= n,
            size > 0,
            n == samples@.len(),
            wanted == chunk_views(chunks@) + chunks_of(
                samples@.skip(pos as int),
                size as nat,
                fill,
            ),
        decreases n - pos,
    {
        let end: usize = if n - pos <= size {
            n
        } else {
            pos + size
        };
        let ghost rest = samples@.skip(pos as int);
        let mut chunk: Vec<T> = Vec::new();
        let mut i: usize = pos;
        while i < end
            invariant
                pos <= i <= end,
                end <= n,
                end - pos <= size,
                n == samples@.len(),
                chunk@ == samples@.subrange(pos as int, i as int),
            decreases end - i,
        {
            chunk.push(samples[i]);
            proof {
                assert(chunk@ =~= samples@.subrange(pos as int, i + 1));
            }
            i = i + 1;
        }
        let ghost filled = chunk@;
        while chunk.len() < size
            invariant
                filled.len() == end - pos,
                filled.len() <= chunk@.len() <= size,
                chunk@ == filled + repeated(fill, (chunk@.len() - filled.len()) as nat),
            decreases size - chunk.len(),
        {
            let ghost was = chunk@;
            chunk.push(fill);
            proof {
                assert(chunk@ =~= filled + repeated(fill, (chunk@.len() - filled.len()) as nat));
            }
        }
        let ghost had = chunk_views(chunks@);
        let ghost one = chunk@;
        chunks.push(chunk);
        proof {
            assert(chunk_views(chunks@) =~= had.push(one));
            if rest.len() <= size {
                assert(filled =~= rest);
                assert(samples@.skip(end as int) =~= Seq::<T>::empty());
            } else {
                assert(one =~= rest.take(size as int));
                assert(samples@.skip(end as int) =~= rest.skip(size as int));
            }
            assert(chunk_views(chunks@) + chunks_of(samples@.skip(end as int), size as nat, fill)
                =~= had + chunks_of(rest, size as nat, fill));
        }
        pos = end;
    }
    proof {
        assert(chunk_views(chunks@) + chunks_of(samples@.skip(pos as int), size as nat, fill)
            =~= chunk_views(chunks@));
    }
    chunks
}

/// Chunking loses nothing: the chunks in a row are the recording, followed by fill alone, and
/// each is of the full size.
pub proof fn chunks_hold_the_recording<T>(s: Seq<T>, size: nat, fill: T)
    requires
        size > 0,
    ensures
        chunks_of(s, size, fill).flatten() == s + repeated(
            fill,
            (chunks_of(s, size, fill).flatten().len() - s.len()) as nat,
        ),
        chunks_of(s, size, fill).flatten().len() >= s.len(),
        forall|i: int|
            0 <= i < chunks_of(s, size, fill).len() ==> (#[trigger] chunks_of(s, size, fill)[i]).len()
                == size,
    decreases s.len(),
{
    let all = chunks_of(s, size, fill);
    reveal_with_fuel(Seq::flatten, 2);
    if s.len() == 0 {
        assert(all.flatten() =~= s + repeated(fill, 0));
    } else if s.len() <= size {
        assert(all.drop_first() =~= Seq::<Seq<T>>::empty());
        assert(all.flatten() =~= all[0]);
        assert(all.flatten() =~= s + repeated(fill, (size - s.len()) as nat));
    } else {
        let rest = s.skip(size as int);
        chunks_hold_the_recording(rest, size, fill);
        let tail = chunks_of(rest, size, fill);
        assert(all.drop_first() =~= tail);
        assert(all.flatten() == s.take(size as int) + tail.flatten());
        assert(all.flatten() =~= s + repeated(fill, (all.flatten().len() - s.len()) as nat));
        assert forall|i: int| 0 <= i < all.len() implies (#[trigger] all[i]).len() == size by {
            if i > 0 {
                assert(all[i] == tail[i - 1]);
            }
        }
    }
}

/// No chunk is made of fill alone: there are just as many as it takes to hold the recording.
pub proof fn no_chunk_is_wasted<T>(s: Seq<T>, size: nat, fill: T)
    requires
        size > 0,
    ensures
        chunks_of(s, size, fill).len() * size >= s.len(),
        s.len() > 0 ==> (chunks_of(s, size, fill).len() - 1) * size < s.len(),
        s.len() == 0 ==> chunks_of(s, size, fill).len() == 0,
    decreases s.len(),
{
    if s.len() > size {
        no_chunk_is_wasted(s.skip(size as int), size, fill);
        let n = chunks_of(s.skip(size as int), size, fill).len() as int;
        let k = size as int;
        assert((n + 1) * k == n * k + k && (n - 1) * k == n * k - k) by (nonlinear_arith);
    } else if s.len() > 0 {
        assert(1 * size == size && 0 * size == 0) by (nonlinear_arith);
    }
}

/// Chunks are as they are listed, and a repeated sample is the same everywhere.
pub proof fn chunks_are_as_listed<T>(list: Seq<Vec<T>>, x: T, n: nat, i: int)
    ensures
        chunk_views(list).len() == list.len(),
        0 <= i < list.len() ==> chunk_views(list)[i] == list[i]@,
        repeated(x, n).len() == n,
        0 <= i < n ==> repeated(x, n)[i] == x,
{
}

}
