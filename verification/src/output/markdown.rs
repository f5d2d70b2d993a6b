//! Transcripts as Markdown documents.

use vstd::arithmetic::div_mod::lemma_fundamental_div_mod_converse;
use vstd::arithmetic::power2::{
    lemma2_to64, lemma2_to64_rest, lemma_pow2_adds, lemma_pow2_pos, lemma_pow2_strictly_increases, pow2,
};
use vstd::prelude::*;
use vstd::string::*;

use crate::rounding::{
    DOUBLE, holdable_numbers_are_kept, keep, kept, nearest, nearest_is_within_a_half, round, rounded,
    rounding_is_monotonic, rounding_is_to_a_power_of_two, rounding_stays_close,
    small_numbers_are_kept,
};
use crate::text::{
    chars_of, ink_adds_up, inked, is_blank, is_number, number_in, opt_view, same_option,
    trim, trim_is_idempotent, trim_keeps_text, trimmed, trimming_keeps_the_ink, two_digits,
    two_digits_of, two_digits_read_back,
};

verus! {

/// The gap between two segments that still count as one flow of speech: 0.8 seconds in double
/// precision, in units of 2^-66 seconds.
pub const CLOSE: u128 = 7_205_759_403_792_794 * 8192;

/// A second in units of 2^-66 seconds.
pub const SECOND: u128 = 0x4_0000_0000_0000_0000;

/// How the date of a document is written.
pub const DATE_FORMAT: &'static str = "%Y-%m-%d %H:%M:%S";

/// A stretch of the recording and what was said in it. Positions are counted in samples, 16000 of
/// them in a second.
#[derive(Debug)]
pub struct TranscriptSegment {
    pub start: u64,
    pub end: u64,
    pub speaker: Option<String>,
    pub text: String,
}

/// The contents of a [`TranscriptSegment`].
#[verifier::ext_equal]
pub struct SegmentView {
    pub start: u64,
    pub end: u64,
    pub speaker: Option<Seq<char>>,
    pub text: Seq<char>,
}

impl View for TranscriptSegment {
    type V = SegmentView;

    open spec fn view(&self) -> SegmentView {
        SegmentView {
            start: self.start,
            end: self.end,
            speaker: opt_view(self.speaker),
            text: self.text@,
        }
    }
}

impl Clone for TranscriptSegment {
    fn clone(&self) -> (r: TranscriptSegment)
        ensures
            r@ == self@,
    {
        TranscriptSegment {
            start: self.start,
            end: self.end,
            speaker: self.speaker.clone(),
            text: self.text.clone(),
        }
    }
}

/// The contents of a list of segments.
pub open spec fn segment_views(list: Seq<TranscriptSegment>) -> Seq<SegmentView> {
    list.map_values(|s: TranscriptSegment| s@)
}

// ── Positions ────────────────────────────────────────────────────────────────

/// A position in seconds, reckoned in double precision, in units of 2^-66 seconds: the samples over
/// 16000. The first sample after the start is at 2^-14 seconds and a little more, so the units are
/// as fine as the last bit of any position.
pub open spec fn position(samples: int) -> int {
    rounded(kept(samples, DOUBLE as int) * 0x800_0000_0000_0000, 125, DOUBLE as int)
}

fn position_of(samples: u64) -> (r: u128)
    ensures
        r == position(samples as int),
        r <= 0x80_0000_0000_0000_0000_0000_0000_0000,
{
    let n: u128 = keep(samples as u128, DOUBLE);
    let r: u128 = round(n * 0x800_0000_0000_0000, 125, DOUBLE);
    proof {
        rounding_stays_close(n * 0x800_0000_0000_0000, 125, DOUBLE as int);
    }
    r
}

/// The whole seconds before a position.
pub open spec fn seconds_at(samples: u64) -> u64 {
    (position(samples as int) / SECOND as int) as u64
}

/// The whole seconds before a position, or in a recording of that many samples.
pub fn whole_seconds(samples: u64) -> (r: u64)
    ensures
        r == seconds_at(samples),
{
    (position_of(samples) / SECOND) as u64
}

/// How far a position in double precision is from the exact one.
proof fn positions_are_precise(samples: int) -> (k: nat)
    requires
        0 <= samples < 0x20_0000_0000_0000,
    ensures
        position(samples) == nearest(samples * 0x800_0000_0000_0000, 125int * pow2(k)) * pow2(k),
        pow2(k) > 0,
        k == 0 || 125 * pow2(k) <= 128 * samples,
        -125 * pow2(k) <= 2 * (125 * position(samples) - samples * 0x800_0000_0000_0000) <= 125
            * pow2(k),
{
    let d = DOUBLE as int;
    small_numbers_are_kept(samples, d);
    let num = samples * 0x800_0000_0000_0000;
    let k = rounding_is_to_a_power_of_two(num, 125, d);
    lemma_pow2_pos(k);
    lemma2_to64();
    let p = pow2(k) as int;
    nearest_is_within_a_half(num, 125 * p);
    let v = nearest(num, 125 * p);
    assert(v * (125 * p) == 125 * (v * p)) by (nonlinear_arith);
    if k == 0 {
        assert(pow2(0) == 1);
    }
    k
}

/// The whole seconds before a position are the samples over 16000, as long as there are fewer than
/// 2^53 of them.
pub proof fn a_second_has_sixteen_thousand_samples(samples: u64)
    requires
        samples < 0x20_0000_0000_0000,
    ensures
        seconds_at(samples) == samples / 16000,
{
    let s = samples as int;
    let k = positions_are_precise(s);
    let p = pow2(k) as int;
    lemma2_to64();
    lemma2_to64_rest();
    let v = position(s);
    let q = s / 16000;
    let r = s % 16000;
    let second = SECOND as int;
    assert(s == 16000 * q + r);
    assert(s * 0x800_0000_0000_0000 == 125 * (q * second) + r * 0x800_0000_0000_0000);
    assert(v < (q + 1) * second);
    if r == 0 {
        if k >= 60 {
            if k > 60 {
                lemma_pow2_strictly_increases(60, k);
            }
            assert(false);
        }
        let j = (66 - k) as nat;
        lemma_pow2_adds(k, j);
        lemma_pow2_adds(60, 6);
        assert(pow2(66) == second);
        let m = q * pow2(j);
        assert(s * 0x800_0000_0000_0000 == m * (125 * p) && m * p == q * second)
            by (nonlinear_arith)
            requires
                s * 0x800_0000_0000_0000 == 125 * (q * second),
                second == p * pow2(j),
                m == q * pow2(j),
        ;
        lemma_fundamental_div_mod_converse(s * 0x800_0000_0000_0000, 125 * p, m, 0);
        assert(nearest(s * 0x800_0000_0000_0000, 125 * p) == m);
    }
    assert(q * second <= v);
    lemma_fundamental_div_mod_converse(v, second, q, v - q * second);
}

// ── Merging ──────────────────────────────────────────────────────────────────

/// Whether two positions are close: their difference, reckoned in double precision, is at most
/// 0.8 seconds.
pub open spec fn close(a: u64, b: u64) -> bool {
    let d = position(a as int) - position(b as int);
    kept(
        if d >= 0 {
            d
        } else {
            -d
        },
        DOUBLE as int,
    ) <= CLOSE
}

/// Positions less than 0.8 seconds apart are close, and positions farther apart are not: within
/// 2^48 samples only a distance of exactly 0.8 seconds depends on rounding.
pub proof fn eight_tenths_of_a_second_are_close(a: u64, b: u64)
    requires
        a < 0x1_0000_0000_0000,
        b < 0x1_0000_0000_0000,
    ensures
        -12800 < a - b < 12800 ==> close(a, b),
        !(-12800 <= a - b <= 12800) ==> !close(a, b),
        close(a, b) == close(b, a),
{
    let d = DOUBLE as int;
    let j = positions_are_precise(a as int);
    let k = positions_are_precise(b as int);
    lemma2_to64();
    let gap = if position(a as int) >= position(b as int) {
        position(a as int) - position(b as int)
    } else {
        position(b as int) - position(a as int)
    };
    let m = 7_205_759_403_792_794int;
    assert(pow2(13) == 8192);
    holdable_numbers_are_kept(m, 13, d);
    holdable_numbers_are_kept(m + 1, 13, d);
    if -12800 < a - b < 12800 {
        assert(gap <= m * 8192);
        rounding_is_monotonic(gap, m * 8192, 1, d);
    }
    if !(-12800 <= a - b <= 12800) {
        assert(gap >= (m + 1) * 8192);
        rounding_is_monotonic((m + 1) * 8192, gap, 1, d);
    }
}

/// Whether a segment carries on where another stopped.
pub open spec fn carries_on(last: SegmentView, seg: SegmentView) -> bool {
    last.speaker == seg.speaker && close(seg.start, last.end)
}

/// Two segments as one: the texts with a space between them, unless a line ends there.
pub open spec fn fused(last: SegmentView, seg: SegmentView) -> SegmentView {
    SegmentView {
        start: last.start,
        end: if seg.end >= last.end {
            seg.end
        } else {
            last.end
        },
        speaker: last.speaker,
        text: (if last.text.len() > 0 && last.text.last() == '\n' {
            last.text
        } else {
            last.text.push(' ')
        }) + trim(seg.text),
    }
}

/// Segments that carry one another on made one, blank ones left out.
pub open spec fn merged(segments: Seq<SegmentView>) -> Seq<SegmentView>
    decreases segments.len(),
{
    if segments.len() == 0 {
        seq![]
    } else {
        let done = merged(segments.drop_last());
        let seg = segments.last();
        if trim(seg.text).len() == 0 {
            done
        } else if done.len() > 0 && carries_on(done.last(), seg) {
            done.drop_last().push(fused(done.last(), seg))
        } else {
            done.push(seg)
        }
    }
}

fn gap_is_close(end: u64, start: u64) -> (r: bool)
    ensures
        r == close(start, end),
{
    let a: u128 = position_of(start);
    let b: u128 = position_of(end);
    let gap: u128 = if a >= b {
        a - b
    } else {
        b - a
    };
    keep(gap, DOUBLE) <= CLOSE
}

/// Makes segments that carry one another on into one, and leaves blank ones out.
pub fn merge_adjacent_segments(segments: &Vec<TranscriptSegment>) -> (r: Vec<TranscriptSegment>)
    ensures
        segment_views(r@) == merged(segment_views(segments@)),
{
    let ghost all = segment_views(segments@);
    let mut done: Vec<TranscriptSegment> = Vec::new();
    let n: usize = segments.len();
    let mut i: usize = 0;
    proof {
        assert(segment_views(done@) =~= merged(all.take(0)));
    }
    while i < n
        invariant
            i <= n,
            n == segments@.len(),
            all == segment_views(segments@),
            segment_views(done@) == merged(all.take(i as int)),
        decreases n - i,
    {
        let seg = &segments[i];
        let ghost k = i as int;
        let ghost had = segment_views(done@);
        proof {
            assert(all.take(k + 1).drop_last() =~= all.take(k));
            assert(all.take(k + 1).last() == seg@);
        }
        if !is_blank(seg.text.as_str()) {
            let count: usize = done.len();
            let joins = if count > 0 {
                let last = &done[count - 1];
                same_option(&last.speaker, &seg.speaker) && gap_is_close(last.end, seg.start)
            } else {
                false
            };
            proof {
                if count > 0 {
                    assert(had.last() == done@[count - 1]@);
                }
            }
            if joins {
                if let Some(last) = done.pop() {
                    let mut text = last.text;
                    let ghost before = text@;
                    let chars = chars_of(text.as_str());
                    let broken = chars.len() > 0 && chars[chars.len() - 1] == '\n';
                    if !broken {
                        text.push(' ');
                    }
                    text.append(trimmed(seg.text.as_str()).as_str());
                    let end: u64 = if seg.end >= last.end {
                        seg.end
                    } else {
                        last.end
                    };
                    done.push(
                        TranscriptSegment { start: last.start, end, speaker: last.speaker, text },
                    );
                    proof {
                        assert(done@.last()@ =~= fused(had.last(), seg@));
                        assert(segment_views(done@) =~= had.drop_last().push(
                            fused(had.last(), seg@),
                        ));
                    }
                }
            } else {
                done.push(seg.clone());
                proof {
                    assert(segment_views(done@) =~= had.push(seg@));
                }
            }
        }
        i = i + 1;
    }
    proof {
        assert(all.take(n as int) =~= all);
    }
    done
}

/// Merging leaves nothing more to merge: no segment carries on the one before it.
pub proof fn merging_is_complete(segments: Seq<SegmentView>)
    ensures
        forall|i: int|
            0 <= i < merged(segments).len() - 1 ==> !carries_on(
                #[trigger] merged(segments)[i],
                merged(segments)[i + 1],
            ),
    decreases segments.len(),
{
    if segments.len() > 0 {
        merging_is_complete(segments.drop_last());
        let done = merged(segments.drop_last());
        let all = merged(segments);
        assert forall|i: int| 0 <= i < all.len() - 1 implies !carries_on(
            #[trigger] all[i],
            all[i + 1],
        ) by {
            if i < done.len() - 1 {
                assert(all[i] == done[i]);
                assert(!carries_on(done[i], done[i + 1]));
                assert(all[i + 1].start == done[i + 1].start);
                assert(all[i + 1].speaker == done[i + 1].speaker);
            } else {
                assert(done.len() > 0);
                assert(all[i] == done.last());
            }
        }
    }
}

/// Merging never leaves a blank segment.
pub proof fn merged_segments_have_text(segments: Seq<SegmentView>)
    ensures
        forall|i: int|
            0 <= i < merged(segments).len() ==> trim(
                (#[trigger] merged(segments)[i]).text,
            ).len() > 0,
    decreases segments.len(),
{
    if segments.len() > 0 {
        merged_segments_have_text(segments.drop_last());
        let done = merged(segments.drop_last());
        let seg = segments.last();
        if trim(seg.text).len() > 0 && done.len() > 0 && carries_on(done.last(), seg) {
            let text = fused(done.last(), seg).text;
            let at = text.len() - trim(seg.text).len();
            trim_is_idempotent(seg.text);
            assert(text[at] == trim(seg.text)[0]);
            trim_keeps_text(text, at);
        }
    }
}

proof fn settled_segments_stay(segments: Seq<SegmentView>)
    requires
        forall|i: int| 0 <= i < segments.len() ==> trim((#[trigger] segments[i]).text).len() > 0,
        forall|i: int|
            0 <= i < segments.len() - 1 ==> !carries_on(#[trigger] segments[i], segments[i + 1]),
    ensures
        merged(segments) == segments,
    decreases segments.len(),
{
    if segments.len() > 0 {
        let front = segments.drop_last();
        assert forall|i: int| 0 <= i < front.len() implies trim((#[trigger] front[i]).text).len()
            > 0 by {
            assert(front[i] == segments[i]);
        }
        assert forall|i: int| 0 <= i < front.len() - 1 implies !carries_on(
            #[trigger] front[i],
            front[i + 1],
        ) by {
            assert(front[i] == segments[i]);
        }
        settled_segments_stay(front);
        let n = segments.len();
        assert(trim(segments[n - 1].text).len() > 0);
        if n > 1 {
            assert(!carries_on(segments[n - 2], segments[n - 1]));
            assert(front.last() == segments[n - 2]);
        }
        assert(front.push(segments.last()) =~= segments);
    } else {
        assert(merged(segments) =~= segments);
    }
}

/// What was said, character by character, and by whom; white space aside.
pub open spec fn said(segments: Seq<SegmentView>) -> Seq<(Option<Seq<char>>, char)>
    decreases segments.len(),
{
    if segments.len() == 0 {
        seq![]
    } else {
        said(segments.drop_last()) + said_in(segments.last())
    }
}

/// What was said in a segment, and by whom.
pub open spec fn said_in(seg: SegmentView) -> Seq<(Option<Seq<char>>, char)> {
    inked(seg.text).map_values(|c: char| (seg.speaker, c))
}

/// Merging loses no word, changes none, and never gives one speaker's words to another: what was
/// said, in which order and by whom, stays.
pub proof fn merging_keeps_what_was_said(segments: Seq<SegmentView>)
    ensures
        said(merged(segments)) == said(segments),
    decreases segments.len(),
{
    if segments.len() > 0 {
        merging_keeps_what_was_said(segments.drop_last());
        let done = merged(segments.drop_last());
        let seg = segments.last();
        trimming_keeps_the_ink(seg.text);
        if trim(seg.text).len() == 0 {
            assert(trim(seg.text) =~= Seq::empty());
            assert(inked(seg.text).len() == 0);
            assert(said(segments) =~= said(done));
        } else if done.len() > 0 && carries_on(done.last(), seg) {
            let last = done.last();
            let f = fused(last, seg);
            let front = if last.text.len() > 0 && last.text.last() == '\n' {
                last.text
            } else {
                last.text.push(' ')
            };
            assert(inked(front) == inked(last.text)) by {
                if front != last.text {
                    assert(last.text.push(' ').drop_last() =~= last.text);
                }
            }
            ink_adds_up(front, trim(seg.text));
            assert(said_in(f) =~= said_in(last) + said_in(seg));
            let all = merged(segments);
            assert(all.drop_last() =~= done.drop_last());
            assert(said(all) =~= said(done) + said_in(seg));
        } else {
            assert(merged(segments).drop_last() =~= done);
        }
    }
}

/// A segment that follows within 0.8 seconds of the last one of the same speaker continues it, with
/// a space between the texts unless a line ends there; any other stands on its own.
pub proof fn a_close_segment_continues_the_last(segments: Seq<SegmentView>, seg: SegmentView)
    requires
        inked(seg.text).len() > 0,
        merged(segments).len() > 0,
        seg.start < 0x1_0000_0000_0000,
        merged(segments).last().end < 0x1_0000_0000_0000,
    ensures
        ({
            let before = merged(segments);
            let after = merged(segments.push(seg));
            let last = before.last();
            &&& last.speaker == seg.speaker && -12800 < seg.start - last.end < 12800 ==> {
                &&& after.len() == before.len()
                &&& after.drop_last() == before.drop_last()
                &&& after.last().start == last.start
                &&& after.last().end >= last.end && after.last().end >= seg.end
                &&& after.last().end == last.end || after.last().end == seg.end
                &&& after.last().speaker == last.speaker
                &&& after.last().text == (if last.text.len() > 0 && last.text.last() == '\n' {
                    last.text + trim(seg.text)
                } else {
                    last.text + seq![' '] + trim(seg.text)
                })
            }
            &&& last.speaker != seg.speaker || !(-12800 <= seg.start - last.end <= 12800)
                ==> after == before.push(seg)
        }),
{
    let all = segments.push(seg);
    assert(all.drop_last() =~= segments);
    trimming_keeps_the_ink(seg.text);
    if trim(seg.text).len() == 0 {
        assert(trim(seg.text) =~= Seq::empty());
    }
    let last = merged(segments).last();
    eight_tenths_of_a_second_are_close(seg.start, last.end);
    assert(last.text.push(' ') =~= last.text + seq![' ']);
    assert(merged(segments).drop_last().push(fused(last, seg)).drop_last() =~= merged(
        segments,
    ).drop_last());
}

/// The first segment with something in it is kept as it is.
pub proof fn the_first_words_open_a_segment(segments: Seq<SegmentView>, seg: SegmentView)
    requires
        inked(seg.text).len() > 0,
        merged(segments).len() == 0,
    ensures
        merged(segments.push(seg)) == seq![seg],
{
    assert(segments.push(seg).drop_last() =~= segments);
    trimming_keeps_the_ink(seg.text);
    if trim(seg.text).len() == 0 {
        assert(trim(seg.text) =~= Seq::empty());
    }
    assert(merged(segments).push(seg) =~= seq![seg]);
}

/// Merging what was merged changes nothing.
pub proof fn merging_twice_is_merging_once(segments: Seq<SegmentView>)
    ensures
        merged(merged(segments)) == merged(segments),
{
    merging_is_complete(segments);
    merged_segments_have_text(segments);
    settled_segments_stay(merged(segments));
}

// ── Times ────────────────────────────────────────────────────────────────────

/// Hours, minutes and seconds, two digits each.
pub open spec fn clock(secs: u64) -> Seq<char> {
    two_digits((secs / 3600) as nat) + ":"@ + two_digits(((secs % 3600) / 60) as nat) + ":"@
        + two_digits((secs % 60) as nat)
}

/// A time of day or a length, as hours, minutes and seconds.
pub fn fmt_duration(secs: u64) -> (r: String)
    ensures
        r@ == clock(secs),
{
    let mut t = two_digits_of(secs / 3600);
    t.append(":");
    t.append(two_digits_of((secs % 3600) / 60).as_str());
    t.append(":");
    t.append(two_digits_of(secs % 60).as_str());
    t
}

/// Whether a text is a time: hours, minutes below sixty and seconds below sixty, with colons
/// between them.
pub open spec fn is_time(s: Seq<char>) -> bool {
    let n = s.len() as int;
    &&& n >= 8 && s[n - 3] == ':' && s[n - 6] == ':'
    &&& is_number(s.take(n - 6)) && is_number(s.subrange(n - 5, n - 3)) && is_number(s.skip(n - 2))
    &&& number_in(s.subrange(n - 5, n - 3)) < 60
    &&& number_in(s.skip(n - 2)) < 60
}

/// The seconds that a time amounts to.
pub open spec fn seconds_in(s: Seq<char>) -> int {
    let n = s.len() as int;
    number_in(s.take(n - 6)) * 3600 + number_in(s.subrange(n - 5, n - 3)) * 60 + number_in(
        s.skip(n - 2),
    )
}

/// A time reads back as the seconds it was made of.
pub proof fn times_read_back(secs: u64)
    ensures
        is_time(clock(secs)),
        seconds_in(clock(secs)) == secs,
        secs < 360_000 ==> clock(secs).len() == 8,
{
    let h = (secs / 3600) as nat;
    let m = ((secs % 3600) / 60) as nat;
    let x = (secs % 60) as nat;
    two_digits_read_back(h);
    two_digits_read_back(m);
    two_digits_read_back(x);
    reveal_strlit(":");
    let s = clock(secs);
    let n = s.len() as int;
    assert(":"@.len() == 1 && ":"@[0] == ':');
    assert(n == two_digits(h).len() + 6);
    assert(s.take(n - 6) =~= two_digits(h));
    assert(s.subrange(n - 5, n - 3) =~= two_digits(m));
    assert(s.skip(n - 2) =~= two_digits(x));
}

proof fn times_have_no_brackets(s: Seq<char>, i: int)
    requires
        is_time(s),
        0 <= i < s.len(),
    ensures
        s[i] != ']',
{
    let n = s.len() as int;
    if i < n - 6 {
        assert(s.take(n - 6)[i] == s[i]);
    } else if n - 6 < i < n - 3 {
        assert(s.subrange(n - 5, n - 3)[i - (n - 5)] == s[i]);
    } else if i >= n - 2 {
        assert(s.skip(n - 2)[i - (n - 2)] == s[i]);
    }
}

/// A position in the recording.
pub open spec fn offset(secs: u64) -> Seq<char> {
    "["@ + clock(secs) + "]"@
}

/// A position in the recording, in brackets.
pub fn fmt_offset(secs: u64) -> (r: String)
    ensures
        r@ == offset(secs),
{
    let mut t = "[".to_owned();
    t.append(fmt_duration(secs).as_str());
    t.append("]");
    t
}

// ── The document ─────────────────────────────────────────────────────────────

/// A segment's heading: who, from when to when.
pub open spec fn title(seg: SegmentView) -> Seq<char> {
    let last = if seg.end >= seg.start {
        seg.end
    } else {
        seg.start
    };
    (match seg.speaker {
        Some(who) => "## "@ + who + " "@,
        None => "## "@,
    }) + offset(seconds_at(seg.start)) + " - "@ + offset(seconds_at(last))
}

/// What stands in front of the times in a heading.
pub open spec fn heading_start(speaker: Option<Seq<char>>) -> Seq<char> {
    match speaker {
        Some(who) => "## "@ + who + " ["@,
        None => "## ["@,
    }
}

/// A heading tells who speaks, where the segment starts and where it ends, both as times that count
/// a second for every 16000 samples.
pub proof fn headings_tell_who_and_when(seg: SegmentView) -> (times: (Seq<char>, Seq<char>))
    ensures
        title(seg) == heading_start(seg.speaker) + times.0 + "] - ["@ + times.1 + "]"@,
        is_time(times.0),
        is_time(times.1),
        seg.start < 0x20_0000_0000_0000 ==> seconds_in(times.0) == seg.start / 16000,
        seg.start < 0x20_0000_0000_0000 && seg.end < 0x20_0000_0000_0000 ==> seconds_in(times.1)
            == (if seg.end >= seg.start {
            seg.end / 16000
        } else {
            seg.start / 16000
        }),
{
    let last = if seg.end >= seg.start {
        seg.end
    } else {
        seg.start
    };
    let a = clock(seconds_at(seg.start));
    let b = clock(seconds_at(last));
    times_read_back(seconds_at(seg.start));
    times_read_back(seconds_at(last));
    if seg.start < 0x20_0000_0000_0000 {
        a_second_has_sixteen_thousand_samples(seg.start);
    }
    if last < 0x20_0000_0000_0000 {
        a_second_has_sixteen_thousand_samples(last);
    }
    reveal_strlit("## ");
    reveal_strlit(" ");
    reveal_strlit(" [");
    reveal_strlit("## [");
    reveal_strlit("[");
    reveal_strlit("]");
    reveal_strlit(" - ");
    reveal_strlit("] - [");
    assert("] - ["@ =~= "]"@ + " - "@ + "["@);
    assert("## ["@ =~= "## "@ + "["@);
    assert(" ["@ =~= " "@ + "["@);
    assert(title(seg) =~= heading_start(seg.speaker) + a + "] - ["@ + b + "]"@);
    (a, b)
}

/// Two segments of one speaker that start or end in different seconds have different headings.
pub proof fn headings_tell_segments_apart(a: SegmentView, b: SegmentView)
    requires
        a.speaker == b.speaker,
        a.start <= a.end < 0x20_0000_0000_0000,
        b.start <= b.end < 0x20_0000_0000_0000,
        a.start / 16000 != b.start / 16000 || a.end / 16000 != b.end / 16000,
    ensures
        title(a) != title(b),
{
    let (a0, a1) = headings_tell_who_and_when(a);
    let (b0, b1) = headings_tell_who_and_when(b);
    let start = heading_start(a.speaker);
    let n = start.len() as int;
    reveal_strlit("] - [");
    reveal_strlit("]");
    assert("] - ["@.len() == 5 && "] - ["@[0] == ']');
    assert("]"@.len() == 1);
    if title(a) == title(b) {
        let t = title(a);
        if a0.len() < b0.len() {
            assert(t[n + a0.len()] == "] - ["@[0]);
            assert(t[n + a0.len()] == b0[a0.len() as int]);
            times_have_no_brackets(b0, a0.len() as int);
        } else if b0.len() < a0.len() {
            assert(t[n + b0.len()] == "] - ["@[0]);
            assert(t[n + b0.len()] == a0[b0.len() as int]);
            times_have_no_brackets(a0, b0.len() as int);
        }
        assert(a0 =~= t.subrange(n, n + a0.len()));
        assert(b0 =~= t.subrange(n, n + b0.len()));
        assert(a1 =~= t.subrange(n + a0.len() + 5, t.len() - 1));
        assert(b1 =~= t.subrange(n + b0.len() + 5, t.len() - 1));
    }
}

/// A segment's part of the document.
pub open spec fn section(seg: SegmentView) -> Seq<char> {
    title(seg) + "\n\n"@ + trim(seg.text) + "\n\n"@
}

/// The document's head.
pub open spec fn head(source: Seq<char>, date: Seq<char>, duration_secs: u64) -> Seq<char> {
    "# 会议转写\n\n**来源**: "@ + source + "  \n**日期**: "@ + date + "  \n**时长**: "@ + clock(
        duration_secs,
    ) + "  \n\n---\n\n"@
}

/// The parts of all segments in a row.
pub open spec fn sections(segments: Seq<SegmentView>) -> Seq<char>
    decreases segments.len(),
{
    if segments.len() == 0 {
        seq![]
    } else {
        sections(segments.drop_last()) + section(segments.last())
    }
}

/// The whole document.
pub open spec fn document(
    segments: Seq<SegmentView>,
    source: Seq<char>,
    date: Seq<char>,
    duration_secs: u64,
) -> Seq<char> {
    head(source, date, duration_secs) + sections(merged(segments))
}

/// The head of a document names the source, the date and the length, which reads back.
pub proof fn the_head_tells_source_date_and_length(
    source: Seq<char>,
    date: Seq<char>,
    duration_secs: u64,
) -> (length: Seq<char>)
    ensures
        head(source, date, duration_secs) == "# 会议转写\n\n**来源**: "@ + source
            + "  \n**日期**: "@ + date + "  \n**时长**: "@ + length + "  \n\n---\n\n"@,
        is_time(length),
        seconds_in(length) == duration_secs,
{
    times_read_back(duration_secs);
    clock(duration_secs)
}

/// A document is its head and then, for each merged segment in order, the heading, a blank line, the
/// text without white space around it, and another blank line.
pub proof fn the_document_holds_every_segment(
    segments: Seq<SegmentView>,
    source: Seq<char>,
    date: Seq<char>,
    duration_secs: u64,
    i: int,
)
    requires
        0 <= i < merged(segments).len(),
    ensures
        document(segments, source, date, duration_secs) == head(source, date, duration_secs)
            + sections(merged(segments).take(i)) + title(merged(segments)[i]) + "\n\n"@ + trim(
            merged(segments)[i].text,
        ) + "\n\n"@ + sections(merged(segments).skip(i + 1)),
{
    let all = merged(segments);
    sections_follow_one_another(all.take(i + 1), all.skip(i + 1));
    assert(all.take(i + 1) + all.skip(i + 1) =~= all);
    assert(all.take(i + 1).drop_last() =~= all.take(i));
    assert(all.take(i + 1).last() == all[i]);
    let seg = all[i];
    let before = sections(all.take(i));
    let after = sections(all.skip(i + 1));
    assert(sections(all.take(i + 1)) == before + section(seg));
    assert(sections(all) == before + section(seg) + after);
    five_parts_regroup(
        head(source, date, duration_secs),
        before,
        title(seg),
        "\n\n"@,
        trim(seg.text),
        after,
    );
}

proof fn five_parts_regroup(
    first: Seq<char>,
    before: Seq<char>,
    a: Seq<char>,
    gap: Seq<char>,
    b: Seq<char>,
    after: Seq<char>,
)
    ensures
        first + (before + (a + gap + b + gap) + after) == first + before + a + gap + b + gap + after,
{
    assert(first + (before + (a + gap + b + gap) + after) =~= first + before + a + gap + b + gap
        + after);
}

/// The parts of two lists in a row are those of the one and then those of the other, and no
/// segments have no parts.
pub proof fn sections_follow_one_another(a: Seq<SegmentView>, b: Seq<SegmentView>)
    ensures
        sections(a + b) == sections(a) + sections(b),
        sections(Seq::empty()).len() == 0,
    decreases b.len(),
{
    if b.len() == 0 {
        assert(a + b =~= a);
        assert(sections(a) + sections(b) =~= sections(a));
    } else {
        sections_follow_one_another(a, b.drop_last());
        assert((a + b).drop_last() =~= a + b.drop_last());
        assert(sections(a + b) =~= sections(a) + sections(b));
    }
}

fn section_of(seg: &TranscriptSegment) -> (r: String)
    ensures
        r@ == section(seg@),
{
    let last: u64 = if seg.end >= seg.start {
        seg.end
    } else {
        seg.start
    };
    let mut t = "## ".to_owned();
    if let Some(who) = &seg.speaker {
        t.append(who.as_str());
        t.append(" ");
    }
    t.append(fmt_offset(whole_seconds(seg.start)).as_str());
    t.append(" - ");
    t.append(fmt_offset(whole_seconds(last)).as_str());
    t.append("\n\n");
    t.append(trimmed(seg.text.as_str()).as_str());
    t.append("\n\n");
    t
}

/// The document of a date that is given.
pub fn render_dated(
    segments: &Vec<TranscriptSegment>,
    source_name: &str,
    date: &str,
    duration_secs: u64,
) -> (r: String)
    ensures
        r@ == document(segment_views(segments@), source_name@, date@, duration_secs),
{
    let mut doc = "# 会议转写\n\n**来源**: ".to_owned();
    doc.append(source_name);
    doc.append("  \n**日期**: ");
    doc.append(date);
    doc.append("  \n**时长**: ");
    doc.append(fmt_duration(duration_secs).as_str());
    doc.append("  \n\n---\n\n");
    let list = merge_adjacent_segments(segments);
    let ghost top = doc@;
    let ghost all = segment_views(list@);
    let n: usize = list.len();
    let mut i: usize = 0;
    proof {
        assert(top + sections(all.take(0)) =~= top);
    }
    while i < n
        invariant
            i <= n,
            n == list@.len(),
            all == segment_views(list@),
            doc@ == top + sections(all.take(i as int)),
        decreases n - i,
    {
        let part = section_of(&list[i]);
        proof {
            let k = i as int;
            assert(all.take(k + 1).drop_last() =~= all.take(k));
            assert(all.take(k + 1).last() == list@[k]@);
            assert(top + sections(all.take(k)) + part@ =~= top + sections(all.take(k + 1)));
        }
        doc.append(part.as_str());
        i = i + 1;
    }
    proof {
        assert(all.take(n as int) =~= all);
    }
    doc
}

/// Whether two digits stand at a place.
pub open spec fn two_digits_at(s: Seq<char>, i: int) -> bool {
    0x30 <= s[i] as u32 <= 0x39 && 0x30 <= s[i + 1] as u32 <= 0x39
}

/// Whether a text is a date and a time of day: a year of at least four places, then month, day,
/// hour, minute and second with two digits each.
pub open spec fn is_timestamp(s: Seq<char>) -> bool {
    let n = s.len() as int;
    &&& n >= 19
    &&& s[n - 15] == '-' && two_digits_at(s, n - 14)
    &&& s[n - 12] == '-' && two_digits_at(s, n - 11)
    &&& s[n - 9] == ' ' && two_digits_at(s, n - 8)
    &&& s[n - 6] == ':' && two_digits_at(s, n - 5)
    &&& s[n - 3] == ':' && two_digits_at(s, n - 2)
}

/// The local time, written by `chrono::Local::now().format(..)` in [`DATE_FORMAT`]. Trusted: the
/// text has the shape of that format. Which moment it names depends on the clock and the time
/// zone, and is not stated.
#[verifier::external_body]
fn local_time(format: &str) -> (r: String)
    requires
        format@ == DATE_FORMAT@,
    ensures
        is_timestamp(r@),
{
    chrono::Local::now().format(format).to_string()
}

/// The document of a transcript, dated now.
pub fn render(segments: &Vec<TranscriptSegment>, source_name: &str, duration_secs: u64) -> (r:
    String)
    ensures
        exists|date: Seq<char>| #[trigger]
            is_timestamp(date) && r@ == document(
                segment_views(segments@),
                source_name@,
                date,
                duration_secs,
            ),
{
    let date = local_time(DATE_FORMAT);
    let r = render_dated(segments, source_name, date.as_str(), duration_secs);
    proof {
        assert(is_timestamp(date@) && r@ == document(
            segment_views(segments@),
            source_name@,
            date@,
            duration_secs,
        ));
    }
    r
}

/// A transcript in which nothing was said is the head alone.
pub proof fn silence_is_not_written(
    segments: Seq<SegmentView>,
    source: Seq<char>,
    date: Seq<char>,
    duration_secs: u64,
)
    requires
        forall|i: int| 0 <= i < segments.len() ==> trim((#[trigger] segments[i]).text).len() == 0,
    ensures
        document(segments, source, date, duration_secs) == head(source, date, duration_secs),
    decreases segments.len(),
{
    if segments.len() > 0 {
        assert(trim(segments[segments.len() - 1].text).len() == 0);
        silence_is_not_written(segments.drop_last(), source, date, duration_secs);
    } else {
        assert(document(segments, source, date, duration_secs) =~= head(
            source,
            date,
            duration_secs,
        ));
    }
}

}
