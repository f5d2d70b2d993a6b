//! Reading recordings from files.

use vstd::prelude::*;

verus! {

/// A decoded recording: interleaved samples, their rate, and the number of channels.
pub struct DecodedAudio<S> {
    pub samples: Vec<S>,
    pub sample_rate: u32,
    pub channels: u16,
}

/// The rate of a track that does not say.
pub const DEFAULT_RATE: u32 = 44100;

/// The first track that holds sound: `sounding` tells of each track whether its codec is known.
pub fn first_audio_track(sounding: &Vec<bool>) -> (r: Option<usize>)
    ensures
        match r {
            Some(i) => i < sounding@.len() && sounding@[i as int] && forall|j: int|
                0 <= j < i ==> !sounding@[j],
            None => forall|j: int| 0 <= j < sounding@.len() ==> !sounding@[j],
        },
{
    let n: usize = sounding.len();
    let mut i: usize = 0;
    while i < n
        invariant
            i <= n,
            n == sounding@.len(),
            forall|j: int| 0 <= j < i ==> !sounding@[j],
        decreases n - i,
    {
        if sounding[i] {
            return Some(i);
        }
        i = i + 1;
    }
    None
}

/// The rate and channel count to assume for a track that may leave them open.
pub fn stream_format(rate: Option<u32>, channels: Option<u16>) -> (r: (u32, u16))
    ensures
        r.0 == (match rate {
            Some(x) => x,
            None => DEFAULT_RATE,
        }),
        rate is None ==> r.0 == 44100,
        r.1 == (match channels {
            Some(c) => c,
            None => 1,
        }),
{
    (rate.unwrap_or(DEFAULT_RATE), channels.unwrap_or(1))
}

/// What reading the next packet came to.
#[derive(Clone, Copy, Debug, PartialEq, Eq, Structural)]
pub enum PacketRead {
    /// A packet of this track.
    Packet(u32),
    EndOfFile,
    ResetRequired,
    Failed,
}

/// What decoding a packet came to.
#[derive(Clone, Copy, Debug, PartialEq, Eq, Structural)]
pub enum PacketDecoded {
    Samples,
    /// The packet is damaged; the next one may be fine.
    Damaged,
    Failed,
}

/// How to go on.
#[derive(Clone, Copy, Debug, PartialEq, Eq, Structural)]
pub enum DecodeStep {
    /// Use what was read.
    Take,
    /// Go on with the next packet.
    Skip,
    /// The recording is complete.
    Stop,
    /// Give up.
    Fail,
}

/// How to go on after reading a packet, when the track `wanted` is decoded.
pub fn after_read(read: PacketRead, wanted: u32) -> (r: DecodeStep)
    ensures
        r == (match read {
            PacketRead::Packet(track) => if track == wanted {
                DecodeStep::Take
            } else {
                DecodeStep::Skip
            },
            PacketRead::EndOfFile => DecodeStep::Stop,
            PacketRead::ResetRequired => DecodeStep::Skip,
            PacketRead::Failed => DecodeStep::Fail,
        }),
{
    match read {
        PacketRead::Packet(track) => if track == wanted {
            DecodeStep::Take
        } else {
            DecodeStep::Skip
        },
        PacketRead::EndOfFile => DecodeStep::Stop,
        PacketRead::ResetRequired => DecodeStep::Skip,
        PacketRead::Failed => DecodeStep::Fail,
    }
}

/// How to go on after decoding a packet.
pub fn after_decode(decoded: PacketDecoded) -> (r: DecodeStep)
    ensures
        r == (match decoded {
            PacketDecoded::Samples => DecodeStep::Take,
            PacketDecoded::Damaged => DecodeStep::Skip,
            PacketDecoded::Failed => DecodeStep::Fail,
        }),
{
    match decoded {
        PacketDecoded::Samples => DecodeStep::Take,
        PacketDecoded::Damaged => DecodeStep::Skip,
        PacketDecoded::Failed => DecodeStep::Fail,
    }
}

// ── Interleaving ─────────────────────────────────────────────────────────────

/// The places of one frame, over the first `k` planes: plane and frame of each sample. A plane
/// that is too short has none.
pub open spec fn frame_places<T>(planes: Seq<Seq<T>>, frame: int, k: nat) -> Seq<(int, int)>
    decreases k,
{
    if k == 0 {
        seq![]
    } else {
        let rest = frame_places(planes, frame, (k - 1) as nat);
        if frame < planes[k - 1].len() {
            rest.push((k - 1, frame))
        } else {
            rest
        }
    }
}

/// The places of the first `frames` frames, frame by frame.
pub open spec fn places<T>(planes: Seq<Seq<T>>, frames: nat) -> Seq<(int, int)>
    decreases frames,
{
    if frames == 0 {
        seq![]
    } else {
        places(planes, (frames - 1) as nat) + frame_places(planes, frames - 1, planes.len())
    }
}

/// The planes' contents.
pub open spec fn plane_views<T>(planes: Seq<&[T]>) -> Seq<Seq<T>> {
    planes.map_values(|p: &[T]| p@)
}

/// Whether `out` holds, from `base` on, what converting the samples at `at` gives.
pub open spec fn converted<T, S, F: Fn(&T) -> S>(
    planes: Seq<Seq<T>>,
    at: Seq<(int, int)>,
    convert: F,
    out: Seq<S>,
    base: int,
) -> bool {
    &&& out.len() == base + at.len()
    &&& forall|j: int|
        0 <= j < at.len() ==> call_ensures(
            convert,
            (&planes[at[j].0][at[j].1],),
            #[trigger] out[base + j],
        )
}

/// Appends planar samples interleaved, converting each. Samples that a plane lacks are left out.
pub fn append_planar_interleaved<T, S, F: Fn(&T) -> S>(
    planes: &[&[T]],
    frames: usize,
    out: &mut Vec<S>,
    convert: F,
)
    requires
        forall|x: &T| #[trigger] call_requires(convert, (x,)),
    ensures
        final(out)@.take(old(out)@.len() as int) == old(out)@,
        converted(
            plane_views(planes@),
            places(plane_views(planes@), frames as nat),
            convert,
            final(out)@,
            old(out)@.len() as int,
        ),
{
    let ghost first = out@;
    let ghost all = plane_views(planes@);
    let ghost base = out@.len() as int;
    let n: usize = planes.len();
    let mut frame: usize = 0;
    proof {
        assert(out@.take(base) =~= first);
    }
    while frame < frames
        invariant
            frame <= frames,
            n == planes@.len(),
            all == plane_views(planes@),
            all.len() == n,
            base == first.len(),
            out@.take(base) == first,
            forall|x: &T| #[trigger] call_requires(convert, (x,)),
            converted(all, places(all, frame as nat), convert, out@, base),
        decreases frames - frame,
    {
        let ghost done = places(all, frame as nat);
        let mut k: usize = 0;
        proof {
            assert(done + frame_places(all, frame as int, 0) =~= done);
        }
        while k < n
            invariant
                k <= n,
                frame < frames,
                n == planes@.len(),
                all == plane_views(planes@),
                all.len() == n,
                base == first.len(),
                out@.take(base) == first,
                forall|x: &T| #[trigger] call_requires(convert, (x,)),
                converted(
                    all,
                    done + frame_places(all, frame as int, k as nat),
                    convert,
                    out@,
                    base,
                ),
            decreases n - k,
        {
            let plane = planes[k];
            let ghost had = done + frame_places(all, frame as int, k as nat);
            let ghost was = out@;
            if frame < plane.len() {
                let s = convert(&plane[frame]);
                out.push(s);
                proof {
                    let now = done + frame_places(all, frame as int, (k + 1) as nat);
                    assert(all[k as int] == plane@);
                    assert(now =~= had.push((k as int, frame as int)));
                    assert forall|j: int| 0 <= j < now.len() implies call_ensures(
                        convert,
                        (&all[now[j].0][now[j].1],),
                        #[trigger] out@[base + j],
                    ) by {
                        if j < had.len() {
                            assert(now[j] == had[j]);
                            assert(out@[base + j] == was[base + j]);
                        }
                    }
                    assert(out@.take(base) =~= first);
                }
            }
            k = k + 1;
        }
        frame = frame + 1;
    }
}

/// Planes of the same length come out frame by frame: sample `j` is that of plane `j % n` in
/// frame `j / n`, and none is left out.
pub proof fn full_planes_interleave_evenly<T>(planes: Seq<Seq<T>>, frames: nat)
    requires
        planes.len() > 0,
        forall|p: int| 0 <= p < planes.len() ==> (#[trigger] planes[p]).len() >= frames,
    ensures
        places(planes, frames).len() == frames * planes.len(),
        forall|j: int|
            0 <= j < places(planes, frames).len() ==> #[trigger] places(planes, frames)[j] == (
                j % (planes.len() as int),
                j / (planes.len() as int),
            ),
    decreases frames,
{
    let n = planes.len();
    if frames > 0 {
        let f = (frames - 1) as nat;
        full_planes_interleave_evenly(planes, f);
        full_frame(planes, f as int, n);
        let done = places(planes, f);
        let all = places(planes, frames);
        assert(frames * n == f * n + n) by (nonlinear_arith)
            requires
                frames == f + 1,
        ;
        assert forall|j: int| 0 <= j < all.len() implies #[trigger] all[j] == (
            j % (n as int),
            j / (n as int),
        ) by {
            if j < done.len() {
                assert(all[j] == done[j]);
            } else {
                let p = j - f * n;
                assert(all[j] == frame_places(planes, f as int, n)[p]);
                vstd::arithmetic::div_mod::lemma_fundamental_div_mod_converse(
                    j,
                    n as int,
                    f as int,
                    p,
                );
            }
        }
    } else {
        assert(0 * n == 0) by (nonlinear_arith);
    }
}

proof fn full_frame<T>(planes: Seq<Seq<T>>, frame: int, k: nat)
    requires
        k <= planes.len(),
        forall|p: int| 0 <= p < planes.len() ==> (#[trigger] planes[p]).len() > frame,
    ensures
        frame_places(planes, frame, k).len() == k,
        forall|p: int| 0 <= p < k ==> #[trigger] frame_places(planes, frame, k)[p] == (p, frame),
    decreases k,
{
    if k > 0 {
        full_frame(planes, frame, (k - 1) as nat);
        assert(planes[k - 1].len() > frame);
    }
}

/// Whether one place comes before another: in an earlier frame, or in the same on an earlier plane.
pub open spec fn earlier(a: (int, int), b: (int, int)) -> bool {
    a.1 < b.1 || (a.1 == b.1 && a.0 < b.0)
}

proof fn a_frame_is_ordered<T>(planes: Seq<Seq<T>>, frame: int, k: nat)
    requires
        k <= planes.len(),
    ensures
        ({
            let at = frame_places(planes, frame, k);
            &&& forall|j: int|
                0 <= j < at.len() ==> (#[trigger] at[j]).1 == frame && 0 <= at[j].0 < k && frame
                    < planes[at[j].0].len()
            &&& forall|i: int, j: int|
                0 <= i < j < at.len() ==> #[trigger] earlier(at[i], at[j])
            &&& forall|p: int|
                0 <= p < k && frame < (#[trigger] planes[p]).len() ==> at.contains((p, frame))
        }),
    decreases k,
{
    if k > 0 {
        a_frame_is_ordered(planes, frame, (k - 1) as nat);
        let rest = frame_places(planes, frame, (k - 1) as nat);
        let at = frame_places(planes, frame, k);
        assert forall|i: int, j: int| 0 <= i < j < at.len() implies #[trigger] earlier(
            at[i],
            at[j],
        ) by {
            assert(at[i] == rest[i]);
            if j < rest.len() {
                assert(at[j] == rest[j]);
                assert(earlier(rest[i], rest[j]));
            }
        }
        assert forall|p: int| 0 <= p < k && frame < (#[trigger] planes[p]).len() implies at.contains(
            (p, frame),
        ) by {
            if p < k - 1 {
                assert(rest.contains((p, frame)));
                let j = choose|j: int| 0 <= j < rest.len() && rest[j] == (p, frame);
                assert(at[j] == (p, frame));
            } else {
                assert(at[rest.len() as int] == (p, frame));
            }
        }
    }
}

/// Every sample of the first frames has one place in the row: none is left out, none that a plane
/// lacks is made up, and they come frame by frame and within a frame plane by plane.
pub proof fn every_sample_has_its_place<T>(planes: Seq<Seq<T>>, frames: nat)
    ensures
        ({
            let at = places(planes, frames);
            &&& forall|j: int|
                0 <= j < at.len() ==> 0 <= (#[trigger] at[j]).0 < planes.len() && 0 <= at[j].1
                    < frames && at[j].1 < planes[at[j].0].len()
            &&& forall|i: int, j: int|
                0 <= i < j < at.len() ==> #[trigger] earlier(at[i], at[j])
            &&& forall|p: int, f: int|
                0 <= p < planes.len() && 0 <= f < frames && f < planes[p].len()
                    ==> #[trigger] at.contains((p, f))
        }),
    decreases frames,
{
    if frames > 0 {
        let f = (frames - 1) as nat;
        every_sample_has_its_place(planes, f);
        a_frame_is_ordered(planes, f as int, planes.len());
        let done = places(planes, f);
        let last = frame_places(planes, f as int, planes.len());
        let at = places(planes, frames);
        assert(at == done + last);
        assert forall|j: int| 0 <= j < at.len() implies 0 <= (#[trigger] at[j]).0 < planes.len() && 0
            <= at[j].1 < frames && at[j].1 < planes[at[j].0].len() by {
            if j < done.len() {
                assert(at[j] == done[j]);
            } else {
                assert(at[j] == last[j - done.len()]);
            }
        }
        assert forall|i: int, j: int| 0 <= i < j < at.len() implies #[trigger] earlier(
            at[i],
            at[j],
        ) by {
            if j < done.len() {
                assert(earlier(done[i], done[j]));
            } else {
                assert(at[j] == last[j - done.len()]);
                if i < done.len() {
                    assert(at[i] == done[i]);
                } else {
                    assert(earlier(last[i - done.len()], last[j - done.len()]));
                }
            }
        }
        assert forall|p: int, g: int|
            0 <= p < planes.len() && 0 <= g < frames && g < planes[p].len() implies #[trigger] at.contains(
        (p, g)) by {
            if g < f {
                assert(done.contains((p, g)));
                let j = choose|j: int| 0 <= j < done.len() && done[j] == (p, g);
                assert(at[j] == (p, g));
            } else {
                assert(last.contains((p, g)));
                let j = choose|j: int| 0 <= j < last.len() && last[j] == (p, g);
                assert(at[done.len() + j] == (p, g));
            }
        }
    }
}

/// What is appended is one converted sample for each place, in the order of the places.
pub proof fn each_place_is_converted<T, S, F: Fn(&T) -> S>(
    planes: Seq<Seq<T>>,
    at: Seq<(int, int)>,
    convert: F,
    out: Seq<S>,
    base: int,
    j: int,
)
    requires
        converted(planes, at, convert, out, base),
        0 <= j < at.len(),
    ensures
        out.len() - base == at.len(),
        call_ensures(convert, (&planes[at[j].0][at[j].1],), out[base + j]),
{
}

/// Planes are as they are listed.
pub proof fn planes_are_as_listed<T>(planes: Seq<&[T]>, i: int)
    ensures
        plane_views(planes).len() == planes.len(),
        0 <= i < planes.len() ==> plane_views(planes)[i] == planes[i]@,
{
}

}
