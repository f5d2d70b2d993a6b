//! Live transcript preview: what the recogniser has heard so far, while it is still being said.
//!
//! The recogniser reads whole utterances, so a worker re-reads the audio captured so far a couple
//! of times a second. Once a stretch is long enough the text up to a pause is frozen, and only
//! the audio behind the pause is read again.

use vstd::prelude::*;
use vstd::string::*;

use crate::rounding::{
    DOUBLE, SINGLE, count, counted, keep, kept, nearest, nearest_is_within_a_half, round, rounded, rounding_is_monotonic,
    rounding_is_precise, rounding_stays_close, small_numbers_are_kept, to_nearest, whole_quotient,
    whole_quotient_of, whole_quotients_are_exact, whole_quotients_are_monotonic,
};
use crate::single::Single;
use crate::wave::drawable;
use crate::text::{
    ascii_alphanumeric, chars_of, end_trimmed, is_ascii_alphanumeric, is_white, trim,
    trim_cuts_between, trim_end, trim_end_cuts_at, trim_end_leaves_none, trim_is_idempotent,
    trimmed, trimming_finds_the_text,
};

verus! {

/// Minimum gap between two passes, in nanoseconds.
pub const PASS_INTERVAL: u64 = 650_000_000;

/// Longest gap that a slow model earns itself, in nanoseconds.
pub const MAX_INTERVAL: u64 = 3_000_000_000;

/// Shortest wait for more audio, in nanoseconds.
pub const MIN_WAIT: u64 = 30_000_000;

/// Samples after which the text up to a pause is frozen: eight seconds.
pub const COMMIT_AFTER: usize = 128_000;

/// Samples in a frame of the pause search: twenty milliseconds.
pub const FRAME: usize = 320;

// ── Gluing text ──────────────────────────────────────────────────────────────

/// One text followed by another, with a space only where two Latin words meet.
pub open spec fn seam(h: Seq<char>, t: Seq<char>) -> Seq<char> {
    if h.len() == 0 {
        t
    } else if t.len() == 0 {
        h
    } else if is_ascii_alphanumeric(h.last()) && is_ascii_alphanumeric(t[0]) {
        h.push(' ') + t
    } else {
        h + t
    }
}

/// A frozen prefix followed by the newest guess, without the white space around them.
pub open spec fn glue(head: Seq<char>, tail: Seq<char>) -> Seq<char> {
    seam(trim_end(head), trim(tail))
}

/// Glues a frozen prefix to the newest guess. Latin words need the space that Chinese does not.
pub fn joined(head: &str, tail: &str) -> (r: String)
    ensures
        r@ == glue(head@, tail@),
{
    let mut out = end_trimmed(head);
    let rest = trimmed(tail);
    let h = chars_of(out.as_str());
    let t = chars_of(rest.as_str());
    if h.len() == 0 {
        return rest;
    }
    if t.len() == 0 {
        return out;
    }
    if ascii_alphanumeric(h[h.len() - 1]) && ascii_alphanumeric(t[0]) {
        out.push(' ');
    }
    out.append(rest.as_str());
    out
}

/// Gluing keeps both texts whole and in order, and adds at most one space between them.
pub proof fn glue_keeps_both_texts(head: Seq<char>, tail: Seq<char>)
    ensures
        ({
            let h = trim_end(head);
            let t = trim(tail);
            let g = glue(head, tail);
            &&& h.len() + t.len() <= g.len() <= h.len() + t.len() + 1
            &&& g.take(h.len() as int) == h
            &&& g.skip(g.len() - t.len()) == t
            &&& g.len() == h.len() + t.len() + 1 ==> g[h.len() as int] == ' '
        }),
{
    let h = trim_end(head);
    let t = trim(tail);
    let g = glue(head, tail);
    if h.len() == 0 {
        assert(g.take(0) == h);
        assert(g.skip(0) == t);
    } else if t.len() == 0 {
        assert(g.take(h.len() as int) == h);
        assert(g.skip(g.len() as int) == t);
    } else {
        assert(g.take(h.len() as int) == h);
        assert(g.skip(g.len() - t.len()) == t);
    }
}

proof fn glued_text_needs_no_trimming(head: Seq<char>, tail: Seq<char>)
    ensures
        trim_end(glue(head, tail)) == glue(head, tail),
        trim(glue(head, tail)) == seam(trim(head), trim(tail)),
{
    let g = glue(head, tail);
    let h = trim_end(head);
    let t = trim(tail);
    trim_is_idempotent(tail);
    let (i, j) = trimming_finds_the_text(head);
    if h.len() == 0 {
        trim_end_leaves_none(t);
        if t.len() > 0 {
            trim_end_cuts_at(t, t.len() - 1);
            assert(t.take(t.len() as int) =~= t);
        }
    } else {
        let last = g.len() - 1;
        assert(!is_white(g[last])) by {
            if t.len() > 0 {
                assert(g[last] == t.last());
            } else {
                assert(g[last] == head[j]);
            }
        }
        assert forall|k: int| 0 <= k < i implies is_white(#[trigger] g[k]) by {
            assert(g[k] == head[k]);
        }
        assert(g[i] == head[i]);
        trim_end_cuts_at(g, last);
        assert(g.take(last + 1) =~= g);
        trim_cuts_between(g, i, last);
        assert(trim(head).last() == head[j]);
        assert(h.last() == head[j]);
        assert(g.subrange(i, last + 1) =~= seam(trim(head), t));
    }
}

/// It does not matter in which order three texts are glued together.
pub proof fn gluing_is_associative(a: Seq<char>, b: Seq<char>, c: Seq<char>)
    ensures
        glue(glue(a, b), c) == glue(a, glue(b, c)),
{
    glued_text_needs_no_trimming(a, b);
    glued_text_needs_no_trimming(b, c);
    let x = trim_end(a);
    let y = trim(b);
    let z = trim(c);
    assert(seam(seam(x, y), z) =~= seam(x, seam(y, z)));
}

/// A space goes between two texts exactly where a letter or digit of ASCII meets another; a text
/// that is blank leaves the other as it is.
pub proof fn latin_words_are_kept_apart(head: Seq<char>, tail: Seq<char>)
    ensures
        ({
            let h = trim_end(head);
            let t = trim(tail);
            let latin = |c: char|
                '0' <= c <= '9' || 'A' <= c <= 'Z' || 'a' <= c <= 'z';
            &&& h.len() == 0 ==> glue(head, tail) == t
            &&& t.len() == 0 ==> glue(head, tail) == h
            &&& h.len() > 0 && t.len() > 0 && latin(h.last()) && latin(t[0]) ==> glue(head, tail)
                == h + seq![' '] + t
            &&& h.len() > 0 && t.len() > 0 && !(latin(h.last()) && latin(t[0])) ==> glue(head, tail)
                == h + t
        }),
{
    let h = trim_end(head);
    assert(h.push(' ') =~= h + seq![' ']);
}

/// The running transcript of one utterance: text that will not change any more.
pub struct Transcript {
    frozen: String,
}

impl View for Transcript {
    type V = Seq<char>;

    closed spec fn view(&self) -> Seq<char> {
        self.frozen@
    }
}

impl Transcript {
    /// A transcript with nothing frozen.
    pub fn new() -> (r: Transcript)
        ensures
            r@ == Seq::<char>::empty(),
    {
        Transcript { frozen: String::new() }
    }

    /// What to show when `tail` is the newest guess for the audio not frozen yet.
    pub fn partial(&self, tail: &str) -> (r: String)
        ensures
            r@ == glue(self@, tail@),
    {
        joined(self.frozen.as_str(), tail)
    }

    /// Freezes `head`, the text up to a pause.
    pub fn commit(&mut self, head: &str)
        ensures
            final(self)@ == glue(old(self)@, head@),
    {
        self.frozen = joined(self.frozen.as_str(), head);
    }
}

/// What has been frozen keeps its place at the start of every later preview.
pub proof fn frozen_text_stays(frozen: Seq<char>, head: Seq<char>, tail: Seq<char>)
    ensures
        glue(frozen, tail).take(trim_end(frozen).len() as int) == trim_end(frozen),
        glue(glue(frozen, head), tail).len() >= trim_end(frozen).len(),
        glue(glue(frozen, head), tail).take(trim_end(frozen).len() as int) == trim_end(frozen),
{
    let n = trim_end(frozen).len() as int;
    let g = glue(frozen, head);
    glue_keeps_both_texts(frozen, tail);
    glue_keeps_both_texts(frozen, head);
    glue_keeps_both_texts(g, tail);
    trim_end_leaves_none(frozen);
    trim_end_leaves_none(g);
    trim_is_idempotent(head);
    if g.len() > 0 {
        assert(trim_end(g) == g);
    }
    let all = glue(g, tail);
    assert(all.take(g.len() as int).take(n) == all.take(n));
}

// ── Where the audio can be cut ───────────────────────────────────────────────

/// The frame of the capture that an offset into 16 kHz mono falls into, reckoned in double
/// precision.
pub open spec fn capture_frame(mono_index: int, rate: int) -> int {
    counted(
        whole_quotient(kept(kept(mono_index, DOUBLE as int) * rate, DOUBLE as int), 16000),
    )
}

/// Where an offset into 16 kHz mono lands in the interleaved capture buffer.
pub open spec fn capture_offset(mono_index: int, rate: int, stride: int) -> int {
    capture_frame(mono_index, rate) * stride
}

fn frame_of(mono_index: usize, sample_rate: u32) -> (r: usize)
    ensures
        r == capture_frame(mono_index as int, sample_rate as int),
{
    let n: u128 = keep(mono_index as u128, DOUBLE);
    proof {
        assert(0 <= n * sample_rate <= 0x2_0000_0000_0000_0000 * 0xFFFF_FFFF) by (nonlinear_arith)
            requires
                0 <= n <= 0x2_0000_0000_0000_0000,
                0 <= sample_rate <= 0xFFFF_FFFF,
        ;
    }
    count(whole_quotient_of(keep(n * sample_rate as u128, DOUBLE), 16000))
}

/// Where an offset into 16 kHz mono lands in the interleaved capture buffer, rounded down to a
/// frame.
pub fn raw_offset(mono_index: usize, sample_rate: u32, stride: usize) -> (r: usize)
    requires
        capture_offset(mono_index as int, sample_rate as int, stride as int) <= usize::MAX,
    ensures
        r == capture_offset(mono_index as int, sample_rate as int, stride as int),
{
    let frames: usize = frame_of(mono_index, sample_rate);
    proof {
        assert(0 <= frames * stride) by (nonlinear_arith)
            requires
                0 <= frames,
                0 <= stride,
        ;
    }
    frames * stride
}

/// An offset always falls between two frames of the capture buffer, and later audio lands later.
pub proof fn offsets_fall_between_frames(a: int, b: int, rate: int, stride: int)
    requires
        0 <= a <= b,
        0 <= rate,
        0 < stride,
    ensures
        capture_offset(a, rate, stride) % stride == 0,
        0 <= capture_offset(a, rate, stride) <= capture_offset(b, rate, stride),
{
    let d = DOUBLE as int;
    rounding_stays_close(a, 1, d);
    rounding_is_monotonic(a, b, 1, d);
    let (m, n) = (kept(a, d), kept(b, d));
    assert(0 <= m * rate <= n * rate) by (nonlinear_arith)
        requires
            0 <= m <= n,
            0 <= rate,
    ;
    rounding_stays_close(m * rate, 1, d);
    rounding_is_monotonic(m * rate, n * rate, 1, d);
    whole_quotients_are_monotonic(kept(m * rate, d), kept(n * rate, d), 16000);
    let x = capture_frame(a, rate);
    let y = capture_frame(b, rate);
    assert(0 <= x * stride <= y * stride) by (nonlinear_arith)
        requires
            0 <= x <= y,
            0 < stride,
    ;
    vstd::arithmetic::div_mod::lemma_mod_multiples_basic(x, stride);
}

/// As long as offset and rate multiply to less than 2^53, an offset lands on the frame at the same
/// time: a second of one is a second of the other.
pub proof fn offsets_keep_their_time(mono_index: int, rate: int, stride: int)
    requires
        0 <= mono_index < 0x20_0000_0000_0000,
        0 <= rate,
        mono_index * rate < 0x20_0000_0000_0000,
        mono_index * rate / 16000 <= usize::MAX,
    ensures
        capture_offset(mono_index, rate, stride) == (mono_index * rate / 16000) * stride,
{
    small_numbers_are_kept(mono_index, DOUBLE as int);
    assert(0 <= mono_index * rate) by (nonlinear_arith)
        requires
            0 <= mono_index,
            0 <= rate,
    ;
    small_numbers_are_kept(mono_index * rate, DOUBLE as int);
    whole_quotients_are_exact(mono_index * rate, 16000);
}

/// How many captured samples a frozen stretch of `split` mono samples takes off the front of a
/// buffer of `buffered` samples.
pub fn frozen_samples(split: usize, sample_rate: u32, stride: usize, buffered: usize) -> (r: usize)
    ensures
        ({
            let at = capture_offset(split as int, sample_rate as int, stride as int);
            r == if at <= buffered {
                at
            } else {
                buffered as int
            }
        }),
{
    let frames: usize = frame_of(split, sample_rate);
    proof {
        assert(0 <= frames * stride <= 0xFFFF_FFFF_FFFF_FFFF * 0xFFFF_FFFF_FFFF_FFFF)
            by (nonlinear_arith)
            requires
                0 <= frames <= 0xFFFF_FFFF_FFFF_FFFF,
                0 <= stride <= 0xFFFF_FFFF_FFFF_FFFF,
        ;
    }
    let at: u128 = frames as u128 * stride as u128;
    if at <= buffered as u128 {
        at as usize
    } else {
        buffered
    }
}

/// The first frame to look for a pause in: the middle-to-late part of the buffer.
pub open spec fn pause_from(frames: int) -> int {
    frames * 45 / 100
}

/// The frame before which the search for a pause ends.
pub open spec fn pause_to(frames: int) -> int {
    frames * 90 / 100
}

/// Whether `at` is the earliest of the quietest frames in `levels[from..to]`.
pub open spec fn is_quietest(levels: Seq<Single>, from: int, to: int, at: int) -> bool {
    &&& from <= at < to
    &&& forall|k: int| from <= k < at ==> levels[at].total_rank() < #[trigger] levels[k].total_rank()
    &&& forall|k: int|
        at <= k < to ==> levels[at].total_rank() <= #[trigger] levels[k].total_rank()
}

/// A pause is looked for between 45 and 90 hundredths of the buffer: the frame found ends after the
/// former and no later than the latter, and every frame there is at least as loud.
pub proof fn a_pause_is_found_late(levels: Seq<Single>, at: int)
    requires
        levels.len() >= 25,
        is_quietest(
            levels,
            pause_from(levels.len() as int),
            pause_to(levels.len() as int),
            at,
        ),
    ensures
        45 * levels.len() < 100 * (at + 1) <= 90 * levels.len(),
        at > 0,
        forall|f: int|
            45 * levels.len() < 100 * (f + 1) <= 90 * levels.len() ==> levels[at].total_rank()
                <= #[trigger] levels[f].total_rank(),
        forall|f: int|
            45 * levels.len() < 100 * (f + 1) && f < at ==> levels[at].total_rank()
                < #[trigger] levels[f].total_rank(),
{
}

/// The quietest frame in the middle-to-late part of the buffer, if it is quiet enough to be a
/// pause rather than a soft syllable. `levels` holds the energy of each whole frame, `limit` the
/// energy up to which a frame counts as a pause. The result is a sample offset.
pub fn quiet_split(levels: &Vec<Single>, limit: Single) -> (r: Option<usize>)
    requires
        levels@.len() * FRAME <= usize::MAX,
    ensures
        levels@.len() < 25 ==> r is None,
        r matches Some(offset) ==> {
            &&& offset % 320 == 0 && offset > 0
            &&& 45 * levels@.len() < 100 * (offset / 320 + 1)
            &&& 100 * (offset / 320 + 1) <= 90 * levels@.len()
            &&& levels@[offset as int / 320].at_most(limit)
        },
        r is None && levels@.len() >= 25 && drawable(levels@) ==> forall|f: int|
            45 * levels@.len() < 100 * (f + 1) <= 90 * levels@.len()
                ==> !(#[trigger] levels@[f]).at_most(limit),
        levels@.len() >= 25 ==> exists|at: int|
            {
                &&& #[trigger] is_quietest(
                    levels@,
                    pause_from(levels@.len() as int),
                    pause_to(levels@.len() as int),
                    at,
                )
                &&& match r {
                    Some(offset) => levels@[at].at_most(limit) && offset == at * FRAME,
                    None => !levels@[at].at_most(limit),
                }
            },
{
    let frames: usize = levels.len();
    if frames < 25 {
        return None;
    }
    let from: usize = (frames as u128 * 45 / 100) as usize;
    let to: usize = (frames as u128 * 90 / 100) as usize;
    let mut best: usize = from;
    let mut at: usize = from + 1;
    while at < to
        invariant
            frames == levels@.len(),
            from < at <= to <= frames,
            is_quietest(levels@, from as int, at as int, best as int),
        decreases to - at,
    {
        if levels[at].total_rank_of() < levels[best].total_rank_of() {
            best = at;
        }
        at += 1;
    }
    proof {
        assert(is_quietest(
            levels@,
            pause_from(levels@.len() as int),
            pause_to(levels@.len() as int),
            best as int,
        ));
    }
    proof {
        a_pause_is_found_late(levels@, best as int);
        assert(best * FRAME / 320 == best);
    }
    if levels[best].le(limit) {
        Some(best * FRAME)
    } else {
        proof {
            if drawable(levels@) {
                assert forall|f: int|
                    45 * levels@.len() < 100 * (f + 1) <= 90
                        * levels@.len() implies !(#[trigger] levels@[f]).at_most(limit) by {
                    assert(levels@[best as int].total_rank() <= levels@[f].total_rank());
                }
            }
        }
        None
    }
}

/// There is only one earliest quietest frame.
pub proof fn quietest_is_unique(levels: Seq<Single>, from: int, to: int, a: int, b: int)
    requires
        is_quietest(levels, from, to, a),
        is_quietest(levels, from, to, b),
    ensures
        a == b,
{
    if a < b {
        assert(levels[b].total_rank() < levels[a].total_rank());
    } else if b < a {
        assert(levels[a].total_rank() < levels[b].total_rank());
    }
}

/// Whether `mono_len` samples are long enough to freeze the text up to a pause.
pub fn worth_freezing(mono_len: usize) -> (r: bool)
    ensures
        r == (mono_len >= COMMIT_AFTER),
{
    mono_len >= COMMIT_AFTER
}

// ── When to run ──────────────────────────────────────────────────────────────

/// A time in nanoseconds, half as long again, reckoned in single precision: as seconds the whole
/// ones and the rest over a thousand million are added up, in units of 2^-53, and the product, in
/// units of 2^-54, is brought back to the nearest nanosecond.
pub open spec fn half_as_long_again(nanos: int) -> int {
    let single = SINGLE as int;
    let whole = kept(nanos / 1_000_000_000, single) * 0x20_0000_0000_0000;
    let rest = rounded(
        kept(nanos % 1_000_000_000, single) * 0x1000_0000_0000,
        1_953_125,
        single,
    );
    let scaled = kept(3 * kept(whole + rest, single), single);
    nearest(scaled * 1_000_000_000, 0x40_0000_0000_0000)
}

fn longer(nanos: u64) -> (r: u128)
    ensures
        r == half_as_long_again(nanos as int),
{
    let whole: u128 = keep(nanos as u128 / 1_000_000_000, SINGLE) * 0x20_0000_0000_0000;
    let rest: u128 = round(
        keep(nanos as u128 % 1_000_000_000, SINGLE) * 0x1000_0000_0000,
        1_953_125,
        SINGLE,
    );
    let scaled: u128 = keep(3 * keep(whole + rest, SINGLE), SINGLE);
    to_nearest(scaled * 1_000_000_000, 0x40_0000_0000_0000)
}

/// The gap before the next pass, after one that took `elapsed`: half as long again, within
/// bounds.
pub open spec fn interval_after(elapsed: int) -> int {
    let wanted = half_as_long_again(elapsed);
    if wanted <= PASS_INTERVAL {
        PASS_INTERVAL as int
    } else if wanted >= MAX_INTERVAL {
        MAX_INTERVAL as int
    } else {
        wanted
    }
}

/// The gap before the next pass, in nanoseconds. Grows if a pass turns out to be expensive.
pub fn next_interval(elapsed: u64) -> (r: u64)
    ensures
        r == interval_after(elapsed as int),
        PASS_INTERVAL <= r <= MAX_INTERVAL,
{
    let wanted: u128 = longer(elapsed);
    if wanted <= PASS_INTERVAL as u128 {
        PASS_INTERVAL
    } else if wanted >= MAX_INTERVAL as u128 {
        MAX_INTERVAL
    } else {
        wanted as u64
    }
}

/// The gap before the next pass is half as long again as the pass took, to the microsecond, but
/// neither below 0.65 seconds nor above three.
pub proof fn a_slow_pass_earns_a_longer_gap(elapsed: int)
    requires
        elapsed >= 0,
    ensures
        650_000_000 <= interval_after(elapsed) <= 3_000_000_000,
        elapsed <= 433_332_000 ==> interval_after(elapsed) == 650_000_000,
        elapsed >= 2_000_001_000 ==> interval_after(elapsed) == 3_000_000_000,
        433_334_000 <= elapsed <= 1_999_999_000 ==> -2000 <= 2 * interval_after(elapsed) - 3
            * elapsed <= 2000,
{
    let single = SINGLE as int;
    let w = elapsed / 1_000_000_000;
    let n = elapsed % 1_000_000_000;
    let a = kept(w, single);
    let b = kept(n, single);
    rounding_is_precise(w, 1, single);
    rounding_is_precise(n, 1, single);
    rounding_stays_close(w, 1, single);
    rounding_stays_close(n, 1, single);
    let c = rounded(b * 0x1000_0000_0000, 1_953_125, single);
    rounding_is_precise(b * 0x1000_0000_0000, 1_953_125, single);
    rounding_stays_close(b * 0x1000_0000_0000, 1_953_125, single);
    let s = a * 0x20_0000_0000_0000 + c;
    let t = kept(s, single);
    rounding_is_precise(s, 1, single);
    rounding_stays_close(s, 1, single);
    let u = kept(3 * t, single);
    rounding_is_precise(3 * t, 1, single);
    rounding_stays_close(3 * t, 1, single);
    let v = nearest(u * 1_000_000_000, 0x40_0000_0000_0000);
    nearest_is_within_a_half(u * 1_000_000_000, 0x40_0000_0000_0000);
    assert(v == half_as_long_again(elapsed));
    assert(elapsed == w * 1_000_000_000 + n);
}

/// 0.9 in single precision, in units of 2^-24.
pub const MIN_AUDIO: u128 = 15_099_494;

/// How long audio is in seconds, reckoned in single precision, in units of 2^-24: the samples over
/// the channels and then over the rate. Below half a second the units are coarser than the last
/// bit.
pub open spec fn seconds(samples: int, rate: int, stride: int) -> int {
    let single = SINGLE as int;
    let frames = rounded(kept(samples, single) * 0x100_0000_0000, stride, single);
    rounded(frames, kept(rate, single) * 0x1_0000, single)
}

/// Whether `samples` interleaved samples hold at least nine tenths of a second.
pub open spec fn enough_audio(samples: int, rate: int, stride: int) -> bool {
    rate > 0 && stride > 0 && seconds(samples, rate, stride) >= MIN_AUDIO
}

/// Nine tenths of a second of audio are enough and less is not, to a thousandth of a second.
pub proof fn nine_tenths_of_a_second_are_enough(samples: int, rate: int, stride: int)
    requires
        0 <= samples,
        0 < rate,
        0 < stride,
    ensures
        1000 * samples >= 901 * (rate * stride) ==> enough_audio(samples, rate, stride),
        1000 * samples <= 899 * (rate * stride) ==> !enough_audio(samples, rate, stride),
{
    let single = SINGLE as int;
    let a = kept(samples, single);
    rounding_is_precise(samples, 1, single);
    rounding_stays_close(samples, 1, single);
    let f = rounded(a * 0x100_0000_0000, stride, single);
    rounding_is_precise(a * 0x100_0000_0000, stride, single);
    rounding_stays_close(a * 0x100_0000_0000, stride, single);
    let c = kept(rate, single);
    rounding_is_precise(rate, 1, single);
    rounding_stays_close(rate, 1, single);
    assert(c > 0);
    let d = c * 0x1_0000;
    let y = rounded(f, d, single);
    rounding_is_precise(f, d, single);
    let fs = f * stride;
    let p = c * stride;
    let r = rate * stride;
    // The rate in single precision, for every channel.
    assert(-r <= (p - r) * 0x100_0000 <= r) by (nonlinear_arith)
        requires
            -rate <= (c - rate) * 0x100_0000 <= rate,
            stride > 0,
            p == c * stride,
            r == rate * stride,
    ;
    assert(r > 0 && stride <= r) by (nonlinear_arith)
        requires
            rate >= 1,
            stride >= 1,
            r == rate * stride,
    ;
    // The quotient by the rate, for every channel.
    let ys = y * d * stride;
    assert(-fs - p * 0x8000 * 0x100_0000 <= (ys - fs) * 0x100_0000 <= fs + p * 0x8000 * 0x100_0000)
        by (nonlinear_arith)
        requires
            (-f <= (y * d - f) * 0x100_0000 <= f) || (-d <= 2 * (y * d - f) <= d),
            d == c * 0x1_0000,
            p == c * stride,
            fs == f * stride,
            ys == y * d * stride,
            stride > 0,
            c > 0,
            f >= 0,
    ;
    assert(ys == y * p * 0x1_0000) by (nonlinear_arith)
        requires
            ys == y * d * stride,
            d == c * 0x1_0000,
            p == c * stride,
    ;
    let z = y * p;
    if 1000 * samples >= 901 * r && y < MIN_AUDIO {
        assert(z <= 15_099_493 * p) by (nonlinear_arith)
            requires
                y <= 15_099_493,
                z == y * p,
                p >= 0,
        ;
        assert(false);
    }
    if 1000 * samples <= 899 * r && y >= MIN_AUDIO {
        assert(z >= 15_099_494 * p) by (nonlinear_arith)
            requires
                y >= 15_099_494,
                z == y * p,
                p >= 0,
        ;
        assert(false);
    }
}

fn is_enough(samples: usize, sample_rate: u32, stride: u16) -> (r: bool)
    ensures
        r == enough_audio(samples as int, sample_rate as int, stride as int),
{
    if sample_rate == 0 || stride == 0 {
        return false;
    }
    let n: u128 = keep(samples as u128, SINGLE);
    let frames: u128 = round(n * 0x100_0000_0000, stride as u128, SINGLE);
    let rate: u128 = keep(sample_rate as u128, SINGLE);
    proof {
        rounding_stays_close(sample_rate as int, 1, SINGLE as int);
    }
    round(frames, rate * 0x1_0000, SINGLE) >= MIN_AUDIO
}

/// What the preview worker does next.
#[derive(Clone, Copy, Debug, PartialEq, Eq, Structural)]
pub enum PreviewWait {
    /// The utterance is over.
    Finish,
    /// Read the audio captured so far.
    Run,
    /// Sleep for this many nanoseconds unless audio arrives.
    Wait(u64),
}

/// Decides whether there is enough audio for another pass.
pub fn preview_wait(
    stopped: bool,
    waited: u64,
    interval: u64,
    samples: usize,
    sample_rate: u32,
    stride: u16,
) -> (r: PreviewWait)
    ensures
        r == if stopped {
            PreviewWait::Finish
        } else if waited >= interval && enough_audio(
            samples as int,
            sample_rate as int,
            stride as int,
        ) {
            PreviewWait::Run
        } else if waited >= interval || interval - waited <= MIN_WAIT {
            PreviewWait::Wait(MIN_WAIT)
        } else {
            PreviewWait::Wait((interval - waited) as u64)
        },
{
    if stopped {
        return PreviewWait::Finish;
    }
    if waited >= interval && is_enough(samples, sample_rate, stride) {
        return PreviewWait::Run;
    }
    if waited >= interval || interval - waited <= MIN_WAIT {
        PreviewWait::Wait(MIN_WAIT)
    } else {
        PreviewWait::Wait(interval - waited)
    }
}

// ── One utterance ────────────────────────────────────────────────────────────

/// The preview of one utterance.
#[verifier::ext_equal]
pub struct PreviewModel<T> {
    /// Captured audio that is not frozen yet.
    pub raw: Seq<T>,
    pub frozen: Seq<char>,
    pub interval: u64,
    /// When the last pass began; `None` before the first.
    pub last_pass: Option<u64>,
    pub stopped: bool,
}

impl<T> PreviewModel<T> {
    /// How long ago the last pass began; the first one is always due.
    pub open spec fn waited(self, now: u64) -> u64 {
        match self.last_pass {
            Some(at) => if now >= at {
                (now - at) as u64
            } else {
                0
            },
            None => self.interval,
        }
    }

    /// What to do next.
    pub open spec fn wait(self, now: u64, rate: u32, stride: u16) -> PreviewWait {
        let waited = self.waited(now);
        if self.stopped {
            PreviewWait::Finish
        } else if waited >= self.interval && enough_audio(
            self.raw.len() as int,
            rate as int,
            stride as int,
        ) {
            PreviewWait::Run
        } else if waited >= self.interval || self.interval - waited <= MIN_WAIT {
            PreviewWait::Wait(MIN_WAIT)
        } else {
            PreviewWait::Wait((self.interval - waited) as u64)
        }
    }

    /// How many samples a frozen stretch takes off the front of the audio.
    pub open spec fn cut(self, split: int, rate: int, stride: int) -> int {
        let at = capture_offset(split, rate, stride);
        if at <= self.raw.len() {
            at
        } else {
            self.raw.len() as int
        }
    }

    /// The state once the text up to a pause was recognised: the text joins what is frozen, and
    /// its audio is dropped.
    pub open spec fn freeze(self, head: Seq<char>, split: int, rate: int, stride: int) -> PreviewModel<
        T,
    > {
        PreviewModel {
            raw: self.raw.skip(self.cut(split, rate, stride)),
            frozen: glue(self.frozen, head),
            ..self
        }
    }
}

/// The preview of one utterance, over samples of type `T`.
pub struct LivePreview<T> {
    raw: Vec<T>,
    transcript: Transcript,
    interval: u64,
    last_pass: Option<u64>,
    stopped: bool,
}

impl<T> View for LivePreview<T> {
    type V = PreviewModel<T>;

    closed spec fn view(&self) -> PreviewModel<T> {
        PreviewModel {
            raw: self.raw@,
            frozen: self.transcript@,
            interval: self.interval,
            last_pass: self.last_pass,
            stopped: self.stopped,
        }
    }
}

impl<T> LivePreview<T> {
    /// An utterance begins.
    pub fn start() -> (r: LivePreview<T>)
        ensures
            r@ == (PreviewModel {
                raw: Seq::<T>::empty(),
                frozen: Seq::<char>::empty(),
                interval: PASS_INTERVAL,
                last_pass: None,
                stopped: false,
            }),
    {
        LivePreview {
            raw: Vec::new(),
            transcript: Transcript::new(),
            interval: PASS_INTERVAL,
            last_pass: None,
            stopped: false,
        }
    }

    /// Take a capture buffer, as it came off the microphone.
    pub fn push(&mut self, chunk: Vec<T>)
        ensures
            final(self)@ == (PreviewModel { raw: old(self)@.raw + chunk@, ..old(self)@ }),
    {
        let mut chunk = chunk;
        self.raw.append(&mut chunk);
    }

    /// The utterance is over.
    pub fn stop(&mut self)
        ensures
            final(self)@ == (PreviewModel { stopped: true, ..old(self)@ }),
    {
        self.stopped = true;
    }

    /// Whether the utterance is over.
    pub fn is_stopped(&self) -> (r: bool)
        ensures
            r == self@.stopped,
    {
        self.stopped
    }

    /// What to do next. Where a pass is due, its time is noted.
    pub fn wait(&mut self, now: u64, sample_rate: u32, stride: u16) -> (r: PreviewWait)
        ensures
            r == old(self)@.wait(now, sample_rate, stride),
            final(self)@ == (PreviewModel {
                last_pass: if r == PreviewWait::Run {
                    Some(now)
                } else {
                    old(self)@.last_pass
                },
                ..old(self)@
            }),
    {
        let waited: u64 = match self.last_pass {
            Some(at) => if now >= at {
                now - at
            } else {
                0
            },
            None => self.interval,
        };
        let r = preview_wait(
            self.stopped,
            waited,
            self.interval,
            self.raw.len(),
            sample_rate,
            stride,
        );
        if r == PreviewWait::Run {
            self.last_pass = Some(now);
        }
        r
    }

    /// The audio to read.
    pub fn audio(&self) -> (r: &Vec<T>)
        ensures
            r@ == self@.raw,
    {
        &self.raw
    }

    /// A pass ended: what to show for the newest guess, which is nothing once the utterance is over.
    /// The gap to the next pass follows from how long this one took.
    pub fn pass_ended(&mut self, tail: &str, elapsed: u64) -> (r: Option<String>)
        ensures
            match r {
                Some(text) => !old(self)@.stopped && text@ == glue(old(self)@.frozen, tail@),
                None => old(self)@.stopped,
            },
            final(self)@ == (if old(self)@.stopped {
                old(self)@
            } else {
                PreviewModel { interval: interval_after(elapsed as int) as u64, ..old(self)@ }
            }),
    {
        if self.stopped {
            return None;
        }
        self.interval = next_interval(elapsed);
        Some(self.transcript.partial(tail))
    }

    /// Freeze the text up to a pause at `split` mono samples.
    pub fn freeze(&mut self, head: &str, split: usize, sample_rate: u32, stride: usize)
        ensures
            final(self)@ == old(self)@.freeze(
                head@,
                split as int,
                sample_rate as int,
                stride as int,
            ),
    {
        self.transcript.commit(head);
        let n: usize = frozen_samples(split, sample_rate, stride, self.raw.len());
        let ghost had = self.raw@;
        let rest = self.raw.split_off(n);
        self.raw = rest;
        proof {
            assert(self.raw@ =~= had.skip(n as int));
        }
    }
}

/// Freezing drops all of the audio before the pause and, as long as offset and rate multiply to less
/// than 2^53, counts it by the time: what is left begins at the pause.
pub proof fn freezing_drops_what_was_read<T>(
    m: PreviewModel<T>,
    head: Seq<char>,
    split: int,
    rate: int,
    stride: int,
)
    requires
        0 <= split < 0x20_0000_0000_0000,
        0 <= rate,
        0 < stride,
        split * rate < 0x20_0000_0000_0000,
        split * rate / 16000 <= usize::MAX,
    ensures
        ({
            let n = (split * rate / 16000) * stride;
            let after = m.freeze(head, split, rate, stride);
            &&& n <= m.raw.len() ==> after.raw == m.raw.skip(n)
            &&& n > m.raw.len() ==> after.raw.len() == 0
            &&& after.interval == m.interval && after.last_pass == m.last_pass && after.stopped
                == m.stopped
        }),
{
    offsets_keep_their_time(split, rate, stride);
}

/// Freezing changes nothing that is shown: what was frozen and then read on reads as if it had been
/// read at once.
pub proof fn freezing_keeps_the_text<T>(
    m: PreviewModel<T>,
    head: Seq<char>,
    tail: Seq<char>,
    split: int,
    rate: int,
    stride: int,
)
    ensures
        glue(m.freeze(head, split, rate, stride).frozen, tail) == glue(m.frozen, glue(head, tail)),
{
    gluing_is_associative(m.frozen, head, tail);
}

/// A pass is run exactly when the utterance goes on, the gap since the last pass is over and there is
/// enough audio; a wait lasts until the gap is over, but thirty milliseconds at least. The first pass
/// is due at once.
pub proof fn passes_wait_for_their_time<T>(m: PreviewModel<T>, now: u64, rate: u32, stride: u16)
    requires
        m.last_pass matches Some(at) ==> at <= now,
    ensures
        ({
            let next = m.wait(now, rate, stride);
            let left = match m.last_pass {
                Some(at) => at + m.interval - now,
                None => 0,
            };
            let enough = enough_audio(m.raw.len() as int, rate as int, stride as int);
            &&& m.stopped <==> next == PreviewWait::Finish
            &&& next == PreviewWait::Run <==> !m.stopped && left <= 0 && enough
            &&& match next {
                PreviewWait::Wait(time) => time == (if left > 30_000_000 {
                    left
                } else {
                    30_000_000
                }),
                _ => true,
            }
        }),
{
}

/// Freezing drops only audio from before the pause, in whole frames, and never loses what came
/// in meanwhile: what is kept is the end of the audio.
pub proof fn freezing_keeps_later_audio<T>(
    m: PreviewModel<T>,
    head: Seq<char>,
    split: int,
    rate: int,
    stride: int,
)
    requires
        0 <= split,
        0 <= rate,
        0 < stride,
    ensures
        ({
            let n = m.cut(split, rate, stride);
            &&& 0 <= n <= capture_offset(split, rate, stride)
            &&& m.raw == m.raw.take(n) + m.freeze(head, split, rate, stride).raw
        }),
{
    offsets_fall_between_frames(0, split, rate, stride);
    let n = m.cut(split, rate, stride);
    assert(m.raw =~= m.raw.take(n) + m.raw.skip(n));
}

}
