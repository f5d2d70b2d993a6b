//! Turning a recording into transcript segments: which stretches to recognise, and what is kept.

use vstd::arithmetic::div_mod::{lemma_div_denominator, lemma_div_plus_one};
use vstd::arithmetic::power2::{lemma_pow2_adds, lemma_pow2_pos, lemma_pow2_unfold, pow2};
use vstd::prelude::*;
use vstd::string::*;

use crate::diarization::SpeakerSegment;
use crate::output::markdown::{SegmentView, TranscriptSegment};
use crate::single::{INFINITE, Single};
use crate::text::{
    decimal, decimal_of, decimals_read_back, is_blank, is_number, is_white, number_in, trim,
    trim_keeps_text, trimmed, trimming_finds_the_text,
};

verus! {

/// Samples per second of the audio that is recognised.
pub const RATE: u64 = 16000;

/// The longest stretch handed to the recogniser at once: thirty seconds.
pub const CHUNK: u64 = 480_000;

// ── Seconds to samples ───────────────────────────────────────────────────────

/// The mantissa of a number that is neither negative nor infinite.
pub open spec fn mantissa(x: Single) -> int {
    if x.bits < 0x80_0000 {
        x.bits as int
    } else {
        x.bits % 0x80_0000 + 0x80_0000
    }
}

/// The power of two that the mantissa is to be multiplied with.
pub open spec fn exponent(x: Single) -> int {
    if x.bits < 0x80_0000 {
        -149
    } else {
        x.bits as int / 0x80_0000 - 150
    }
}

/// `n` times two to the power `e`, rounded down.
pub open spec fn scaled_down(n: int, e: int) -> int {
    if e >= 0 {
        n * pow2(e as nat)
    } else {
        n / (pow2((-e) as nat) as int)
    }
}

/// `n` times two to the power `e`, rounded up.
pub open spec fn scaled_up(n: int, e: int) -> int {
    if e >= 0 {
        n * pow2(e as nat)
    } else {
        (n + pow2((-e) as nat) - 1) / (pow2((-e) as nat) as int)
    }
}

/// The smaller of two numbers.
pub open spec fn capped(n: int, cap: int) -> int {
    if n <= cap {
        n
    } else {
        cap
    }
}

/// The sample at or before a time in seconds, within a recording of `len` samples. What is
/// negative or no number counts as the beginning.
pub open spec fn sample_at_or_before(x: Single, len: int) -> int {
    if x.negative() || x.nan() {
        0
    } else if x.bits == INFINITE {
        len
    } else {
        capped(scaled_down(mantissa(x) * RATE, exponent(x)), len)
    }
}

/// The sample at or after a time in seconds, within a recording of `len` samples. What is
/// negative or no number counts as the beginning.
pub open spec fn sample_at_or_after(x: Single, len: int) -> int {
    if x.negative() || x.nan() {
        0
    } else if x.bits == INFINITE {
        len
    } else {
        capped(scaled_up(mantissa(x) * RATE, exponent(x)), len)
    }
}

proof fn scaling_up_is_monotonic(n: int, i: nat, s: nat)
    requires
        n >= 0,
        i <= s,
    ensures
        n * pow2(i) <= n * pow2(s),
{
    lemma_pow2_adds(i, (s - i) as nat);
    lemma_pow2_pos(i);
    lemma_pow2_pos((s - i) as nat);
    assert(n * pow2(i) <= n * (pow2(i) * pow2((s - i) as nat))) by (nonlinear_arith)
        requires
            n >= 0,
            pow2(i) >= 1,
            pow2((s - i) as nat) >= 1,
    ;
}

/// `n` times two to the power `s`, at most `cap`.
fn doubled(n: u64, s: u32, cap: u64) -> (r: u64)
    ensures
        r == capped(n * pow2(s as nat), cap as int),
{
    let mut v: u128 = n as u128;
    let mut i: u32 = 0;
    proof {
        lemma_pow2_pos(0);
        assert(pow2(0) == 1) by {
            vstd::arithmetic::power2::lemma2_to64();
        }
    }
    while i < s
        invariant
            i <= s,
            v == n * pow2(i as nat),
            v <= 0xFFFF_FFFF_FFFF_FFFF_FFFF,
        decreases s - i,
    {
        if v >= cap as u128 {
            proof {
                scaling_up_is_monotonic(n as int, i as nat, s as nat);
            }
            return cap;
        }
        proof {
            lemma_pow2_unfold((i + 1) as nat);
            assert(n * (2 * pow2(i as nat)) == 2 * (n * pow2(i as nat))) by (nonlinear_arith);
        }
        v = v * 2;
        i = i + 1;
    }
    if v >= cap as u128 {
        cap
    } else {
        v as u64
    }
}

/// `n` halved `s` times, rounding each time in the same direction.
fn halved(n: u64, s: u32, up: bool) -> (r: u64)
    requires
        n < 0x1_0000_0000_0000,
        s > 0,
    ensures
        !up ==> r == n as int / (pow2(s as nat) as int),
        up ==> r == (n + pow2(s as nat) - 1) / (pow2(s as nat) as int),
{
    let mut v: u64 = n;
    let mut i: u32 = 0;
    proof {
        assert(pow2(0) == 1) by {
            vstd::arithmetic::power2::lemma2_to64();
        }
    }
    while i < s
        invariant
            i <= s,
            v <= n,
            n < 0x1_0000_0000_0000,
            !up ==> v == n as int / (pow2(i as nat) as int),
            up ==> v == (n + pow2(i as nat) - 1) / (pow2(i as nat) as int),
        decreases s - i,
    {
        proof {
            let p = pow2(i as nat) as int;
            lemma_pow2_pos(i as nat);
            lemma_pow2_unfold((i + 1) as nat);
            lemma_div_denominator(n as int, p, 2);
            lemma_div_denominator(n + 2 * p - 1, p, 2);
            lemma_div_plus_one(n + p - 1, p);
            assert(p * 2 == pow2((i + 1) as nat));
            assert(p + (n + p - 1) == n + 2 * p - 1);
        }
        v = if up {
            (v + 1) / 2
        } else {
            v / 2
        };
        i = i + 1;
    }
    v
}

fn scaled_sample(x: Single, len: u64, up: bool) -> (r: u64)
    ensures
        !up ==> r == sample_at_or_before(x, len as int),
        up ==> r == sample_at_or_after(x, len as int),
{
    if x.bits >= 0x8000_0000 || x.is_nan() {
        return 0;
    }
    if x.bits == INFINITE {
        return len;
    }
    let small = x.bits < 0x80_0000;
    let m: u64 = if small {
        x.bits as u64
    } else {
        (x.bits % 0x80_0000) as u64 + 0x80_0000
    };
    let n: u64 = m * RATE;
    let e: u32 = if small {
        1
    } else {
        x.bits / 0x80_0000
    };
    proof {
        assert(m == mantissa(x));
        assert(e as int - 150 == exponent(x));
    }
    if e >= 150 {
        doubled(n, e - 150, len)
    } else {
        let v: u64 = halved(n, 150 - e, up);
        if v <= len {
            v
        } else {
            len
        }
    }
}

/// The samples that a time falls between: the one at or before it is the last that does not come
/// later, the one at or after it the first that does not come earlier, a sample being a sixteen
/// thousandth of a second. Beyond the recording both are its end.
pub proof fn samples_enclose_their_time(x: Single, len: int)
    requires
        x.bits < INFINITE,
        len >= 0,
    ensures
        ({
            let (n, d) = x.fraction();
            let before = sample_at_or_before(x, len);
            let after = sample_at_or_after(x, len);
            &&& 0 <= before <= len && 0 <= after <= len
            &&& before * d <= 16000 * n
            &&& before < len ==> 16000 * n < (before + 1) * d
            &&& after > 0 ==> (after - 1) * d < 16000 * n
            &&& after < len ==> 16000 * n <= after * d
        }),
{
    let m = mantissa(x);
    let e = exponent(x);
    let (n, d) = x.fraction();
    let k = m * RATE;
    assert(0 <= m);
    if e >= 0 {
        let p = pow2(e as nat) as int;
        lemma_pow2_pos(e as nat);
        assert(n == m * p);
        assert(k * p == 16000 * n) by (nonlinear_arith)
            requires
                k == m * 16000,
                n == m * p,
        ;
        assert(0 <= 16000 * n) by (nonlinear_arith)
            requires
                n == m * p,
                m >= 0,
                p > 0,
        ;
    } else {
        let p = pow2((-e) as nat) as int;
        lemma_pow2_pos((-e) as nat);
        assert(n == m && d == p);
        let q = k / p;
        let r = (k + p - 1) / p;
        vstd::arithmetic::div_mod::lemma_fundamental_div_mod(k, p);
        vstd::arithmetic::div_mod::lemma_fundamental_div_mod(k + p - 1, p);
        vstd::arithmetic::div_mod::lemma_div_pos_is_pos(k, p);
        vstd::arithmetic::div_mod::lemma_div_pos_is_pos(k + p - 1, p);
        assert(q * p <= k < (q + 1) * p) by (nonlinear_arith)
            requires
                k == p * q + k % p,
                0 <= k % p < p,
        ;
        assert((r - 1) * p < k <= r * p) by (nonlinear_arith)
            requires
                k + p - 1 == p * r + (k + p - 1) % p,
                0 <= (k + p - 1) % p < p,
        ;
        if q > len {
            assert(len * p <= q * p) by (nonlinear_arith)
                requires
                    len <= q,
                    p > 0,
            ;
        }
        if r > len {
            assert((len - 1) * p <= (r - 1) * p) by (nonlinear_arith)
                requires
                    len <= r,
                    p > 0,
            ;
        }
    }
    if e >= 0 && 16000 * n > len {
        assert((len - 1) * d < 16000 * n);
    }
}

// ── Stretches ────────────────────────────────────────────────────────────────

/// A stretch of the recording to recognise, and who speaks in it, counted from nought.
#[derive(Clone, Copy, Debug, PartialEq, Eq, Structural)]
pub struct Job {
    pub start: u64,
    pub end: u64,
    pub speaker: Option<usize>,
}

/// The stretches from `start` to `end`, each as long as may be.
pub open spec fn stretches(start: u64, end: u64, speaker: Option<usize>) -> Seq<Job>
    decreases end - start,
{
    if start >= end {
        seq![]
    } else if end - start <= CHUNK {
        seq![Job { start, end, speaker }]
    } else {
        let cut = (start + CHUNK) as u64;
        seq![Job { start, end: cut, speaker }] + stretches(cut, end, speaker)
    }
}

fn add_stretches(jobs: &mut Vec<Job>, start: u64, end: u64, speaker: Option<usize>)
    ensures
        final(jobs)@ == old(jobs)@ + stretches(start, end, speaker),
{
    let ghost before = jobs@;
    let mut at: u64 = start;
    while at < end
        invariant
            jobs@ + stretches(at, end, speaker) == before + stretches(start, end, speaker),
        decreases end - at,
    {
        let cut: u64 = if end - at <= CHUNK {
            end
        } else {
            at + CHUNK
        };
        let ghost had = jobs@;
        jobs.push(Job { start: at, end: cut, speaker });
        proof {
            assert(jobs@ + stretches(cut, end, speaker) =~= had + stretches(at, end, speaker));
        }
        at = cut;
    }
    proof {
        assert(jobs@ + stretches(at, end, speaker) =~= jobs@);
    }
}

/// Stretches follow one another without a gap, cover everything, and none is empty or too long.
pub proof fn stretches_cover_everything(start: u64, end: u64, speaker: Option<usize>)
    requires
        start < end,
    ensures
        ({
            let jobs = stretches(start, end, speaker);
            &&& jobs.len() > 0
            &&& jobs[0].start == start
            &&& jobs.last().end == end
            &&& forall|i: int|
                0 <= i < jobs.len() ==> 0 < (#[trigger] jobs[i]).end - jobs[i].start <= CHUNK
            &&& forall|i: int|
                0 <= i < jobs.len() - 1 ==> (#[trigger] jobs[i]).end == jobs[i + 1].start
        }),
    decreases end - start,
{
    if end - start > CHUNK {
        let cut = (start + CHUNK) as u64;
        stretches_cover_everything(cut, end, speaker);
        let rest = stretches(cut, end, speaker);
        let jobs = stretches(start, end, speaker);
        assert forall|i: int| 0 <= i < jobs.len() implies 0 < (#[trigger] jobs[i]).end
            - jobs[i].start <= CHUNK by {
            if i > 0 {
                assert(jobs[i] == rest[i - 1]);
            }
        }
        assert forall|i: int| 0 <= i < jobs.len() - 1 implies (#[trigger] jobs[i]).end == jobs[i
            + 1].start by {
            assert(jobs[i + 1] == rest[i]);
            if i > 0 {
                assert(jobs[i] == rest[i - 1]);
            }
        }
        assert(jobs.last() == rest.last());
    }
}

/// A stretch of speech is cut every thirty seconds and nowhere else, and all of it stays with its
/// speaker.
pub proof fn stretches_are_cut_every_thirty_seconds(start: u64, end: u64, speaker: Option<usize>)
    ensures
        ({
            let jobs = stretches(start, end, speaker);
            &&& jobs.len() == (if start < end {
                (end - start + 479_999) / 480_000
            } else {
                0
            })
            &&& forall|i: int|
                0 <= i < jobs.len() ==> {
                    &&& (#[trigger] jobs[i]).start == start + i * 480_000
                    &&& jobs[i].end == (if i < jobs.len() - 1 {
                        start + (i + 1) * 480_000
                    } else {
                        end as int
                    })
                    &&& jobs[i].speaker == speaker
                }
        }),
    decreases end - start,
{
    if start < end && end - start > CHUNK {
        let cut = (start + CHUNK) as u64;
        stretches_are_cut_every_thirty_seconds(cut, end, speaker);
        let rest = stretches(cut, end, speaker);
        let jobs = stretches(start, end, speaker);
        assert(jobs.len() == rest.len() + 1);
        assert forall|i: int| 0 <= i < jobs.len() implies {
            &&& (#[trigger] jobs[i]).start == start + i * 480_000
            &&& jobs[i].end == (if i < jobs.len() - 1 {
                start + (i + 1) * 480_000
            } else {
                end as int
            })
            &&& jobs[i].speaker == speaker
        } by {
            if i > 0 {
                assert(jobs[i] == rest[i - 1]);
            }
        }
    }
}

/// Whether a sample lies in a stretch that is handed over as a speaker's.
pub open spec fn handed_over(jobs: Seq<Job>, sample: int, speaker: Option<usize>) -> bool {
    exists|i: int|
        0 <= i < jobs.len() && (#[trigger] jobs[i]).start <= sample < jobs[i].end && jobs[i].speaker
            == speaker
}

proof fn stretches_hand_over(start: u64, end: u64, speaker: Option<usize>, sample: int, who: Option<usize>)
    ensures
        handed_over(stretches(start, end, speaker), sample, who) <==> (start <= sample < end && who
            == speaker),
    decreases end - start,
{
    let jobs = stretches(start, end, speaker);
    if start < end {
        if end - start <= CHUNK {
            assert(jobs[0] == (Job { start, end, speaker }));
        } else {
            let cut = (start + CHUNK) as u64;
            stretches_hand_over(cut, end, speaker, sample, who);
            let rest = stretches(cut, end, speaker);
            assert(jobs[0] == (Job { start, end: cut, speaker }));
            if handed_over(rest, sample, who) {
                let i = choose|i: int|
                    0 <= i < rest.len() && (#[trigger] rest[i]).start <= sample < rest[i].end
                        && rest[i].speaker == who;
                assert(jobs[i + 1] == rest[i]);
            }
            if handed_over(jobs, sample, who) {
                let i = choose|i: int|
                    0 <= i < jobs.len() && (#[trigger] jobs[i]).start <= sample < jobs[i].end
                        && jobs[i].speaker == who;
                if i > 0 {
                    assert(jobs[i] == rest[i - 1]);
                }
            }
        }
    }
}

/// The stretches of a recording whose speakers are not told apart.
pub fn plain_jobs(len: u64) -> (r: Vec<Job>)
    ensures
        r@ == stretches(0, len, None),
{
    let mut jobs: Vec<Job> = Vec::new();
    add_stretches(&mut jobs, 0, len, None);
    proof {
        assert(jobs@ =~= stretches(0, len, None));
    }
    jobs
}

/// The stretches of one speaker segment.
pub open spec fn segment_stretches(seg: SpeakerSegment, len: u64) -> Seq<Job> {
    stretches(
        sample_at_or_before(seg.start_sec, len as int) as u64,
        sample_at_or_after(seg.end_sec, len as int) as u64,
        Some(seg.speaker),
    )
}

/// The stretches of a recording, speaker segment by speaker segment.
pub open spec fn diarized(segments: Seq<SpeakerSegment>, len: u64) -> Seq<Job>
    decreases segments.len(),
{
    if segments.len() == 0 {
        seq![]
    } else {
        diarized(segments.drop_last(), len) + segment_stretches(segments.last(), len)
    }
}

/// The stretches of a recording whose speakers are told apart. Segments reach from the sample at
/// or before their start to the one at or after their end, cut off at the recording's end.
pub fn diarized_jobs(segments: &Vec<SpeakerSegment>, len: u64) -> (r: Vec<Job>)
    ensures
        r@ == diarized(segments@, len),
{
    let mut jobs: Vec<Job> = Vec::new();
    let n: usize = segments.len();
    let mut i: usize = 0;
    proof {
        assert(jobs@ =~= diarized(segments@.take(0), len));
    }
    while i < n
        invariant
            i <= n,
            n == segments@.len(),
            jobs@ == diarized(segments@.take(i as int), len),
        decreases n - i,
    {
        let seg = segments[i];
        let start: u64 = scaled_sample(seg.start_sec, len, false);
        let end: u64 = scaled_sample(seg.end_sec, len, true);
        proof {
            let k = i as int;
            assert(segments@.take(k + 1).drop_last() =~= segments@.take(k));
            assert(segments@.take(k + 1).last() == seg);
        }
        add_stretches(&mut jobs, start, end, Some(seg.speaker));
        i = i + 1;
    }
    proof {
        assert(segments@.take(n as int) =~= segments@);
    }
    jobs
}

/// Whether a speaker is said to speak at a sample.
pub open spec fn speaks_at(segments: Seq<SpeakerSegment>, len: u64, sample: int, who: usize) -> bool {
    exists|i: int|
        0 <= i < segments.len() && (#[trigger] segments[i]).speaker == who && sample_at_or_before(
            segments[i].start_sec,
            len as int,
        ) <= sample < sample_at_or_after(segments[i].end_sec, len as int)
}

/// Everything that was said is handed over, and under the name of who said it: a sample lies in a
/// stretch of a speaker exactly where a segment of that speaker reaches over it.
pub proof fn speech_stays_with_its_speaker(
    segments: Seq<SpeakerSegment>,
    len: u64,
    sample: int,
    who: usize,
)
    ensures
        handed_over(diarized(segments, len), sample, Some(who)) <==> speaks_at(
            segments,
            len,
            sample,
            who,
        ),
    decreases segments.len(),
{
    let all = diarized(segments, len);
    if segments.len() > 0 {
        let front = diarized(segments.drop_last(), len);
        let seg = segments.last();
        let part = segment_stretches(seg, len);
        speech_stays_with_its_speaker(segments.drop_last(), len, sample, who);
        samples_are_within(seg.start_sec, len);
        samples_are_within(seg.end_sec, len);
        stretches_hand_over(
            sample_at_or_before(seg.start_sec, len as int) as u64,
            sample_at_or_after(seg.end_sec, len as int) as u64,
            Some(seg.speaker),
            sample,
            Some(who),
        );
        if handed_over(all, sample, Some(who)) {
            let i = choose|i: int|
                0 <= i < all.len() && (#[trigger] all[i]).start <= sample < all[i].end
                    && all[i].speaker == Some(who);
            if i < front.len() {
                assert(front[i] == all[i]);
                assert(handed_over(front, sample, Some(who)));
            } else {
                assert(part[i - front.len()] == all[i]);
                assert(handed_over(part, sample, Some(who)));
            }
        }
        if handed_over(front, sample, Some(who)) {
            let i = choose|i: int|
                0 <= i < front.len() && (#[trigger] front[i]).start <= sample < front[i].end
                    && front[i].speaker == Some(who);
            assert(all[i] == front[i]);
        }
        if handed_over(part, sample, Some(who)) {
            let i = choose|i: int|
                0 <= i < part.len() && (#[trigger] part[i]).start <= sample < part[i].end
                    && part[i].speaker == Some(who);
            assert(all[front.len() + i] == part[i]);
        }
        if speaks_at(segments.drop_last(), len, sample, who) {
            let i = choose|i: int|
                0 <= i < segments.drop_last().len() && (#[trigger] segments.drop_last()[i]).speaker
                    == who && sample_at_or_before(
                    segments.drop_last()[i].start_sec,
                    len as int,
                ) <= sample < sample_at_or_after(segments.drop_last()[i].end_sec, len as int);
            assert(segments[i] == segments.drop_last()[i]);
        }
        if speaks_at(segments, len, sample, who) {
            let i = choose|i: int|
                0 <= i < segments.len() && (#[trigger] segments[i]).speaker == who
                    && sample_at_or_before(segments[i].start_sec, len as int) <= sample
                    < sample_at_or_after(segments[i].end_sec, len as int);
            if i < segments.len() - 1 {
                assert(segments.drop_last()[i] == segments[i]);
            }
        }
        assert(segments[segments.len() - 1] == seg);
    }
}

/// No stretch reaches beyond the recording.
pub proof fn stretches_stay_within_the_recording(segments: Seq<SpeakerSegment>, len: u64)
    ensures
        forall|i: int|
            0 <= i < diarized(segments, len).len() ==> (#[trigger] diarized(segments, len)[i]).start
                < diarized(segments, len)[i].end <= len,
    decreases segments.len(),
{
    if segments.len() > 0 {
        stretches_stay_within_the_recording(segments.drop_last(), len);
        let seg = segments.last();
        let front = diarized(segments.drop_last(), len);
        let start = sample_at_or_before(seg.start_sec, len as int) as u64;
        let end = sample_at_or_after(seg.end_sec, len as int) as u64;
        samples_are_within(seg.end_sec, len);
        stretches_are_within(start, end, Some(seg.speaker));
        let all = diarized(segments, len);
        assert forall|i: int| 0 <= i < all.len() implies (#[trigger] all[i]).start < all[i].end
            <= len by {
            if i < front.len() {
                assert(all[i] == front[i]);
            } else {
                assert(all[i] == segment_stretches(seg, len)[i - front.len()]);
            }
        }
    }
}

proof fn samples_are_within(x: Single, len: u64)
    ensures
        0 <= sample_at_or_before(x, len as int) <= len,
        0 <= sample_at_or_after(x, len as int) <= len,
{
    let n = mantissa(x) * RATE;
    let e = exponent(x);
    assert(n >= 0);
    if e >= 0 {
        lemma_pow2_pos(e as nat);
        assert(n * pow2(e as nat) >= 0) by (nonlinear_arith)
            requires
                n >= 0,
                pow2(e as nat) > 0,
        ;
    } else {
        let p = pow2((-e) as nat) as int;
        lemma_pow2_pos((-e) as nat);
        vstd::arithmetic::div_mod::lemma_div_pos_is_pos(n, p);
        vstd::arithmetic::div_mod::lemma_div_pos_is_pos(n + p - 1, p);
    }
}

proof fn stretches_are_within(start: u64, end: u64, speaker: Option<usize>)
    ensures
        forall|i: int|
            0 <= i < stretches(start, end, speaker).len() ==> (#[trigger] stretches(
                start,
                end,
                speaker,
            )[i]).start < stretches(start, end, speaker)[i].end <= end,
    decreases end - start,
{
    if start < end && end - start > CHUNK {
        let cut = (start + CHUNK) as u64;
        stretches_are_within(cut, end, speaker);
        let rest = stretches(cut, end, speaker);
        let jobs = stretches(start, end, speaker);
        assert forall|i: int| 0 <= i < jobs.len() implies (#[trigger] jobs[i]).start < jobs[i].end
            <= end by {
            if i > 0 {
                assert(jobs[i] == rest[i - 1]);
            }
        }
    }
}

// ── Text ─────────────────────────────────────────────────────────────────────

/// How a speaker is called in a transcript; people count from one.
pub open spec fn speaker_name(speaker: usize) -> Seq<char> {
    "Speaker "@ + decimal((speaker + 1) as nat)
}

/// A transcript segment: the stretch, the speaker's name and the text.
pub fn transcript_segment(job: &Job, text: String) -> (r: TranscriptSegment)
    requires
        job.speaker matches Some(n) ==> n < 0xFFFF_FFFF_FFFF_FFFF,
    ensures
        r@ == (SegmentView {
            start: job.start,
            end: job.end,
            speaker: match job.speaker {
                Some(n) => Some(speaker_name(n)),
                None => None,
            },
            text: text@,
        }),
        job.speaker matches Some(n) ==> (r@.speaker matches Some(name) && name.take(8)
            == "Speaker "@ && number_in(name.skip(8)) == n + 1),
{
    proof {
        if let Some(n) = job.speaker {
            speakers_have_names_of_their_own(n, n);
        }
    }
    let speaker = match job.speaker {
        Some(n) => {
            let mut s = "Speaker ".to_owned();
            s.append(decimal_of(n as u64 + 1).as_str());
            Some(s)
        },
        None => None,
    };
    TranscriptSegment { start: job.start, end: job.end, speaker, text }
}

/// Speakers are told apart by their names: two speakers never share one, and what follows the word
/// is a number, counted from one.
pub proof fn speakers_have_names_of_their_own(a: usize, b: usize)
    ensures
        a != b ==> speaker_name(a) != speaker_name(b),
        speaker_name(a).len() > 8,
        speaker_name(a).take(8) == "Speaker "@,
        is_number(speaker_name(a).skip(8)),
        number_in(speaker_name(a).skip(8)) == a + 1,
{
    reveal_strlit("Speaker ");
    decimals_read_back((a + 1) as nat);
    decimals_read_back((b + 1) as nat);
    assert("Speaker "@.len() == 8);
    assert(speaker_name(a).skip(8) =~= decimal((a + 1) as nat));
    assert(speaker_name(b).skip(8) =~= decimal((b + 1) as nat));
    assert(speaker_name(a).take(8) =~= "Speaker "@);
}

/// Whether a text is to be corrected: correction is on, and there is something to correct.
pub open spec fn correctable(no_llm: bool, text: Seq<char>) -> bool {
    !no_llm && trim(text).len() > 0
}

/// Every text with something in it is worth correcting, as long as correction is on; a blank one
/// never is.
pub proof fn only_blank_texts_are_left_alone(no_llm: bool, text: Seq<char>)
    ensures
        correctable(no_llm, text) <==> !no_llm && exists|i: int|
            0 <= i < text.len() && !is_white(#[trigger] text[i]),
{
    let (i, _j) = trimming_finds_the_text(text);
    if exists|k: int| 0 <= k < text.len() && !is_white(#[trigger] text[k]) {
        let k = choose|k: int| 0 <= k < text.len() && !is_white(#[trigger] text[k]);
        trim_keeps_text(text, k);
    }
    if trim(text).len() > 0 {
        assert(!is_white(text[i]));
    }
}

/// Whether to ask for a correction.
pub fn needs_correction(no_llm: bool, text: &str) -> (r: bool)
    ensures
        r == correctable(no_llm, text@),
{
    !no_llm && !is_blank(text)
}

/// The text to keep: the correction where one was asked for and came, else the text itself,
/// without surrounding white space.
pub fn maybe_correct_text(no_llm: bool, text: &str, correction: Option<String>) -> (r: String)
    ensures
        r@ == (match correction {
            Some(c) => if correctable(no_llm, text@) {
                trim(c@)
            } else {
                trim(text@)
            },
            None => trim(text@),
        }),
{
    if needs_correction(no_llm, text) {
        if let Some(c) = correction {
            return trimmed(c.as_str());
        }
    }
    trimmed(text)
}

// ── Speakers ─────────────────────────────────────────────────────────────────

/// Whether a segment of a speaker occurs.
pub open spec fn speaks(segments: Seq<SpeakerSegment>, speaker: usize) -> bool {
    exists|i: int| 0 <= i < segments.len() && (#[trigger] segments[i]).speaker == speaker
}

/// Whether a list grows from one entry to the next.
pub open spec fn ascending(list: Seq<usize>) -> bool {
    forall|i: int, j: int| 0 <= i < j < list.len() ==> list[i] < list[j]
}

fn add_speaker(list: &mut Vec<usize>, speaker: usize)
    requires
        ascending(old(list)@),
    ensures
        ascending(final(list)@),
        forall|s: usize| #[trigger]
            final(list)@.contains(s) <==> (old(list)@.contains(s) || s == speaker),
{
    let n: usize = list.len();
    let mut p: usize = 0;
    while p < n && list[p] < speaker
        invariant
            p <= n,
            n == list@.len(),
            forall|i: int| 0 <= i < p ==> list@[i] < speaker,
        decreases n - p,
    {
        p = p + 1;
    }
    if p < n && list[p] == speaker {
        return;
    }
    let ghost was = list@;
    list.insert(p, speaker);
    proof {
        let now = list@;
        assert(now =~= was.insert(p as int, speaker));
        assert forall|i: int, j: int| 0 <= i < j < now.len() implies now[i] < now[j] by {
            if p < n {
                assert(was[p as int] > speaker);
            }
            if i > p {
                assert(was[i - 1] < was[j - 1]);
            }
            if i == p && j > p + 1 {
                assert(was[p as int] < was[j - 1]);
            }
            if i < p && j > p {
                assert(was[i] < was[j - 1]);
            }
        }
        assert forall|s: usize| #[trigger] now.contains(s) <==> (was.contains(s) || s
            == speaker) by {
            if was.contains(s) {
                let i = choose|i: int| 0 <= i < was.len() && was[i] == s;
                if i < p {
                    assert(now[i] == s);
                } else {
                    assert(now[i + 1] == s);
                }
            }
            assert(now[p as int] == speaker);
            if now.contains(s) && s != speaker {
                let i = choose|i: int| 0 <= i < now.len() && now[i] == s;
                if i < p {
                    assert(was[i] == s);
                } else {
                    assert(was[i - 1] == s);
                }
            }
        }
    }
}

/// The speakers that occur, each once, in ascending order.
pub fn unique_speakers(segments: &Vec<SpeakerSegment>) -> (r: Vec<usize>)
    ensures
        ascending(r@),
        forall|s: usize| #[trigger] r@.contains(s) <==> speaks(segments@, s),
{
    let mut list: Vec<usize> = Vec::new();
    let n: usize = segments.len();
    let mut i: usize = 0;
    while i < n
        invariant
            i <= n,
            n == segments@.len(),
            ascending(list@),
            forall|s: usize| #[trigger]
                list@.contains(s) <==> speaks(segments@.take(i as int), s),
        decreases n - i,
    {
        let who: usize = segments[i].speaker;
        let ghost was = list@;
        add_speaker(&mut list, who);
        proof {
            let k = i as int;
            let old_part = segments@.take(k);
            let part = segments@.take(k + 1);
            assert forall|s: usize| #[trigger] list@.contains(s) <==> speaks(part, s) by {
                if speaks(old_part, s) {
                    let j = choose|j: int|
                        0 <= j < old_part.len() && (#[trigger] old_part[j]).speaker == s;
                    assert(part[j].speaker == s);
                }
                if s == who {
                    assert(part[k].speaker == s);
                }
                if speaks(part, s) && s != who {
                    let j = choose|j: int|
                        0 <= j < part.len() && (#[trigger] part[j]).speaker == s;
                    assert(old_part[j].speaker == s);
                }
                assert(was.contains(s) <==> speaks(old_part, s));
            }
        }
        i = i + 1;
    }
    proof {
        assert(segments@.take(n as int) =~= segments@);
    }
    list
}

/// Whoever a segment is of speaks, and nobody else; a list that grows names nobody twice.
pub proof fn whoever_has_a_segment_speaks(
    segments: Seq<SpeakerSegment>,
    list: Seq<usize>,
    i: int,
    j: int,
)
    ensures
        0 <= i < segments.len() ==> speaks(segments, segments[i].speaker),
        forall|s: usize|
            (forall|k: int| 0 <= k < segments.len() ==> (#[trigger] segments[k]).speaker != s)
                ==> !#[trigger] speaks(segments, s),
        ascending(list) && 0 <= i < j < list.len() ==> list[i] + 1 <= list[j],
{
}

}
