//! Hands-free listening: cutting the microphone signal into utterances.

use vstd::prelude::*;
use vstd::string::*;

use crate::rounding::{
    DOUBLE, SINGLE, count, counted, keep, kept, rounding_stays_close, small_numbers_are_kept,
    whole_quotient, whole_quotient_of, whole_quotients_are_exact,
};
use crate::single::Single;
use crate::text::{is_ascii_alphanumeric, same_text, trim, trimmed};

verus! {

/// Whether speech is under way.
#[derive(Clone, Copy, Debug, PartialEq, Eq, Structural)]
pub enum VadState {
    Silence,
    Speech,
}

/// Limits of an utterance, counted in interleaved samples.
#[derive(Clone, Copy, Debug, PartialEq, Eq, Structural)]
pub struct VadLimits {
    /// Quiet samples that end an utterance.
    pub silence: usize,
    /// Length at which an utterance is cut even though speech goes on.
    pub longest: usize,
    /// Length below which nothing is handed to the recogniser.
    pub shortest: usize,
}

/// Seconds after which an utterance is cut.
pub const MAX_SEGMENT_SECS: u64 = 30;

impl VadLimits {
    /// The limits for a stream of `channels` interleaved channels: `silence_ms` of quiet, reckoned
    /// in double precision, thirty seconds at most, reckoned in single precision, and half a second
    /// at least.
    pub open spec fn of_stream(rate: u32, channels: usize, silence_ms: u64) -> (int, int, int) {
        let quiet = kept(rate * kept(silence_ms as int, DOUBLE as int), DOUBLE as int);
        let longest = kept(MAX_SEGMENT_SECS * kept(rate as int, SINGLE as int), SINGLE as int);
        (
            counted(whole_quotient(quiet, 1000)) * channels,
            counted(longest) * channels,
            (rate as int / 2) * channels,
        )
    }

    fn frames(rate: u32, silence_ms: u64) -> (r: (usize, usize))
        ensures
            (r.0 as int, r.1 as int, rate as int / 2) == Self::of_stream(rate, 1, silence_ms),
            rate as int / 2 <= r.1,
    {
        let ms: u128 = keep(silence_ms as u128, DOUBLE);
        proof {
            assert(0 <= rate * ms <= 0xFFFF_FFFF * 0x2_0000_0000_0000_0000) by (nonlinear_arith)
                requires
                    0 <= rate <= 0xFFFF_FFFF,
                    0 <= ms <= 0x2_0000_0000_0000_0000,
            ;
        }
        let quiet: u128 = keep(rate as u128 * ms, DOUBLE);
        let hertz: u128 = keep(rate as u128, SINGLE);
        let longest: u128 = keep(MAX_SEGMENT_SECS as u128 * hertz, SINGLE);
        proof {
            rounding_stays_close(rate as int, 1, SINGLE as int);
            rounding_stays_close(MAX_SEGMENT_SECS * hertz, 1, SINGLE as int);
        }
        (count(whole_quotient_of(quiet, 1000)), count(longest))
    }

    /// Whether the limits for a stream can be counted.
    pub fn fit(rate: u32, channels: usize, silence_ms: u64) -> (r: bool)
        ensures
            r == (Self::of_stream(rate, channels, silence_ms).0 <= usize::MAX && Self::of_stream(
                rate,
                channels,
                silence_ms,
            ).1 <= usize::MAX),
    {
        let (quiet, longest) = Self::frames(rate, silence_ms);
        proof {
            products_fit(quiet, channels);
            products_fit(longest, channels);
        }
        let most: u128 = usize::MAX as u128;
        quiet as u128 * channels as u128 <= most && longest as u128 * channels as u128 <= most
    }

    /// The limits for a stream.
    pub fn for_stream(rate: u32, channels: usize, silence_ms: u64) -> (r: VadLimits)
        requires
            Self::of_stream(rate, channels, silence_ms).0 <= usize::MAX,
            Self::of_stream(rate, channels, silence_ms).1 <= usize::MAX,
        ensures
            (r.silence as int, r.longest as int, r.shortest as int) == Self::of_stream(
                rate,
                channels,
                silence_ms,
            ),
            r.shortest <= r.longest,
    {
        let (quiet, longest) = Self::frames(rate, silence_ms);
        let shortest: usize = (rate / 2) as usize;
        proof {
            products_fit(quiet, channels);
            products_fit(longest, channels);
            assert(0 <= shortest * channels <= longest * channels) by (nonlinear_arith)
                requires
                    0 <= shortest <= longest,
                    channels >= 0,
            ;
        }
        VadLimits {
            silence: quiet * channels,
            longest: longest * channels,
            shortest: shortest * channels,
        }
    }
}

proof fn products_fit(a: usize, b: usize)
    ensures
        0 <= a * b <= 0xFFFF_FFFF_FFFF_FFFF * 0xFFFF_FFFF_FFFF_FFFF,
{
    assert(0 <= a * b <= 0xFFFF_FFFF_FFFF_FFFF * 0xFFFF_FFFF_FFFF_FFFF) by (nonlinear_arith)
        requires
            0 <= a <= 0xFFFF_FFFF_FFFF_FFFF,
            0 <= b <= 0xFFFF_FFFF_FFFF_FFFF,
    ;
}

/// At rates up to 559240 Hz, and as long as rate and silence multiply to less than 2^53, the limits
/// are whole fractions of the rate: the milliseconds of silence, thirty seconds and half a second,
/// for every channel.
pub proof fn limits_are_parts_of_the_rate(rate: u32, channels: usize, silence_ms: u64)
    requires
        rate <= 559_240,
        rate * silence_ms < 0x20_0000_0000_0000,
        silence_ms < 0x20_0000_0000_0000,
        30 * rate <= usize::MAX,
        rate * silence_ms / 1000 <= usize::MAX,
    ensures
        VadLimits::of_stream(rate, channels, silence_ms) == (
            (rate * silence_ms / 1000) * channels,
            (30 * rate) * channels,
            (rate as int / 2) * channels,
        ),
{
    small_numbers_are_kept(silence_ms as int, DOUBLE as int);
    assert(0 <= rate * silence_ms) by (nonlinear_arith)
        requires
            rate >= 0,
            silence_ms >= 0,
    ;
    small_numbers_are_kept(rate * silence_ms, DOUBLE as int);
    whole_quotients_are_exact(rate * silence_ms, 1000);
    small_numbers_are_kept(rate as int, SINGLE as int);
    small_numbers_are_kept(30 * rate, SINGLE as int);
}

/// What the detector remembers between two chunks.
#[verifier::ext_equal]
pub struct VadModel<T> {
    pub state: VadState,
    pub buffer: Seq<T>,
    pub silence: int,
}

/// What one chunk does: the next memory, and the utterance that it completes.
pub open spec fn vad_step<T>(
    m: VadModel<T>,
    limits: VadLimits,
    threshold: Single,
    chunk: Seq<T>,
    energy: Single,
) -> (VadModel<T>, Option<Seq<T>>) {
    let idle = VadModel { state: VadState::Silence, buffer: Seq::<T>::empty(), silence: 0 };
    match m.state {
        VadState::Silence => if threshold.less(energy) {
            (VadModel { state: VadState::Speech, buffer: chunk, silence: 0 }, None)
        } else {
            (m, None)
        },
        VadState::Speech => {
            let heard = m.buffer + chunk;
            if energy.less(threshold) {
                let quiet = m.silence + chunk.len();
                if quiet >= limits.silence && heard.len() >= limits.shortest {
                    (idle, Some(heard))
                } else {
                    (VadModel { state: VadState::Speech, buffer: heard, silence: quiet }, None)
                }
            } else if heard.len() >= limits.longest {
                (idle, Some(heard))
            } else {
                (VadModel { state: VadState::Speech, buffer: heard, silence: 0 }, None)
            }
        },
    }
}

/// An energy-based voice activity detector.
pub struct Vad<T> {
    limits: VadLimits,
    threshold: Single,
    state: VadState,
    buffer: Vec<T>,
    silence: usize,
}

impl<T> View for Vad<T> {
    type V = VadModel<T>;

    closed spec fn view(&self) -> VadModel<T> {
        VadModel { state: self.state, buffer: self.buffer@, silence: self.silence as int }
    }
}

impl<T> Vad<T> {
    /// The limits the detector was made with.
    pub closed spec fn limits(self) -> VadLimits {
        self.limits
    }

    /// The energy above which a chunk counts as speech.
    pub closed spec fn threshold(self) -> Single {
        self.threshold
    }

    /// Quiet samples are part of the utterance, and between utterances nothing is kept.
    pub closed spec fn wf(self) -> bool {
        &&& self.silence <= self.buffer@.len()
        &&& self.state == VadState::Silence ==> self.buffer@.len() == 0
    }

    /// A detector that has heard nothing yet.
    pub fn new(limits: VadLimits, threshold: Single) -> (r: Vad<T>)
        ensures
            r.wf(),
            r.limits() == limits,
            r.threshold() == threshold,
            r@ == (VadModel {
                state: VadState::Silence,
                buffer: Seq::<T>::empty(),
                silence: 0,
            }),
    {
        Vad { limits, threshold, state: VadState::Silence, buffer: Vec::new(), silence: 0 }
    }

    fn take(&mut self) -> (r: Vec<T>)
        ensures
            r@ == old(self)@.buffer,
            final(self)@ == (VadModel {
                state: VadState::Silence,
                buffer: Seq::<T>::empty(),
                silence: 0,
            }),
            final(self).limits() == old(self).limits(),
            final(self).threshold() == old(self).threshold(),
            final(self).wf(),
    {
        let mut out: Vec<T> = Vec::new();
        std::mem::swap(&mut self.buffer, &mut out);
        self.silence = 0;
        self.state = VadState::Silence;
        out
    }

    /// Feeds one chunk and its energy; gives the utterance that it completes, if any.
    pub fn push(&mut self, chunk: Vec<T>, energy: Single) -> (r: Option<Vec<T>>)
        requires
            old(self).wf(),
        ensures
            final(self).wf(),
            final(self).limits() == old(self).limits(),
            final(self).threshold() == old(self).threshold(),
            final(self)@ == vad_step(
                old(self)@,
                old(self).limits(),
                old(self).threshold(),
                chunk@,
                energy,
            ).0,
            (match r {
                Some(v) => Some(v@),
                None => None,
            }) == vad_step(
                old(self)@,
                old(self).limits(),
                old(self).threshold(),
                chunk@,
                energy,
            ).1,
    {
        let mut chunk = chunk;
        match self.state {
            VadState::Silence => {
                if self.threshold.lt(energy) {
                    self.state = VadState::Speech;
                    self.silence = 0;
                    self.buffer = chunk;
                }
                None
            },
            VadState::Speech => {
                let added: usize = chunk.len();
                self.buffer.append(&mut chunk);
                let total: usize = self.buffer.len();
                if energy.lt(self.threshold) {
                    self.silence = self.silence + added;
                    if self.silence >= self.limits.silence && total >= self.limits.shortest {
                        Some(self.take())
                    } else {
                        None
                    }
                } else {
                    self.silence = 0;
                    if total >= self.limits.longest {
                        Some(self.take())
                    } else {
                        None
                    }
                }
            },
        }
    }

    /// Ends the session: what is left is an utterance if it is long enough.
    pub fn finish(self) -> (r: Option<Vec<T>>)
        requires
            self.wf(),
        ensures
            match r {
                Some(v) => self@.state == VadState::Speech && self@.buffer.len()
                    >= self.limits().shortest && v@ == self@.buffer,
                None => self@.state == VadState::Silence || self@.buffer.len()
                    < self.limits().shortest,
            },
    {
        if self.state == VadState::Speech && self.buffer.len() >= self.limits.shortest {
            Some(self.buffer)
        } else {
            None
        }
    }
}

/// No utterance shorter than the minimum is ever handed to the recogniser.
pub proof fn utterances_are_long_enough<T>(
    m: VadModel<T>,
    limits: VadLimits,
    threshold: Single,
    chunk: Seq<T>,
    energy: Single,
)
    requires
        limits.shortest <= limits.longest,
    ensures
        vad_step(m, limits, threshold, chunk, energy).1 matches Some(heard) ==> heard.len()
            >= limits.shortest,
{
}

/// Once speech is under way, a chunk that is not quiet never leaves an utterance of the maximum
/// length or more waiting.
pub proof fn long_speech_is_cut<T>(
    m: VadModel<T>,
    limits: VadLimits,
    threshold: Single,
    chunk: Seq<T>,
    energy: Single,
)
    requires
        m.state == VadState::Speech,
        !energy.less(threshold),
    ensures
        ({
            let (next, cut) = vad_step(m, limits, threshold, chunk, energy);
            cut is None ==> next.buffer.len() < limits.longest
        }),
{
}

/// Speech is never dropped: while it is under way, a chunk ends up behind what was heard before,
/// either in the utterance handed out or in the one still growing.
pub proof fn speech_is_kept<T>(
    m: VadModel<T>,
    limits: VadLimits,
    threshold: Single,
    chunk: Seq<T>,
    energy: Single,
)
    requires
        m.state == VadState::Speech,
    ensures
        ({
            let (next, cut) = vad_step(m, limits, threshold, chunk, energy);
            cut == Some(m.buffer + chunk) && next.buffer.len() == 0 || cut is None && next.buffer
                == m.buffer + chunk
        }),
{
}

/// What the detector remembers after a row of chunks, each with its energy.
pub open spec fn after_hearing<T>(
    history: Seq<(Seq<T>, Single)>,
    limits: VadLimits,
    threshold: Single,
) -> VadModel<T>
    decreases history.len(),
{
    if history.len() == 0 {
        VadModel { state: VadState::Silence, buffer: Seq::<T>::empty(), silence: 0 }
    } else {
        vad_step(
            after_hearing(history.drop_last(), limits, threshold),
            limits,
            threshold,
            history.last().0,
            history.last().1,
        ).0
    }
}

/// The utterance that the last chunk of a row completes, if any.
pub open spec fn completed<T>(
    history: Seq<(Seq<T>, Single)>,
    limits: VadLimits,
    threshold: Single,
) -> Option<Seq<T>> {
    vad_step(
        after_hearing(history.drop_last(), limits, threshold),
        limits,
        threshold,
        history.last().0,
        history.last().1,
    ).1
}

/// How many samples of quiet stand at the end of a row of chunks, without a break.
pub open spec fn quiet_at_the_end<T>(history: Seq<(Seq<T>, Single)>, threshold: Single) -> int
    decreases history.len(),
{
    if history.len() > 0 && history.last().1.less(threshold) {
        quiet_at_the_end(history.drop_last(), threshold) + history.last().0.len()
    } else {
        0
    }
}

/// All samples of a row of chunks.
pub open spec fn samples_of<T>(history: Seq<(Seq<T>, Single)>) -> Seq<T>
    decreases history.len(),
{
    if history.len() == 0 {
        seq![]
    } else {
        samples_of(history.drop_last()) + history.last().0
    }
}

/// What the detector counts is the unbroken quiet at the end: a chunk that is not quiet starts the
/// count over. So an utterance that a quiet chunk ends has enough quiet in a row at its end, and one
/// that has, and is long enough, is ended.
pub proof fn only_unbroken_silence_ends_an_utterance<T>(
    history: Seq<(Seq<T>, Single)>,
    limits: VadLimits,
    threshold: Single,
)
    requires
        history.len() > 0,
    ensures
        ({
            let before = after_hearing(history.drop_last(), limits, threshold);
            let after = after_hearing(history, limits, threshold);
            let quiet = history.last().1.less(threshold);
            let cut = completed(history, limits, threshold);
            &&& after.state == VadState::Speech ==> after.silence == quiet_at_the_end(
                history,
                threshold,
            )
            &&& !quiet ==> after.silence == 0
            &&& quiet && cut is Some ==> quiet_at_the_end(history, threshold) >= limits.silence
                && cut->0.len() >= limits.shortest
            &&& quiet && before.state == VadState::Speech && quiet_at_the_end(history, threshold)
                >= limits.silence && before.buffer.len() + history.last().0.len()
                >= limits.shortest ==> cut is Some
            &&& !quiet && cut is Some ==> cut->0.len() >= limits.longest
            &&& before.state == VadState::Silence ==> cut is None
        }),
    decreases history.len(),
{
    let front = history.drop_last();
    if front.len() > 0 {
        only_unbroken_silence_ends_an_utterance(front, limits, threshold);
    }
    assert(front.len() == 0 ==> after_hearing(front, limits, threshold).state
        == VadState::Silence);
    detector_is_idle_in_silence(front, limits, threshold);
}

proof fn detector_is_idle_in_silence<T>(
    history: Seq<(Seq<T>, Single)>,
    limits: VadLimits,
    threshold: Single,
)
    ensures
        after_hearing(history, limits, threshold).state == VadState::Silence ==> after_hearing(
            history,
            limits,
            threshold,
        ).buffer.len() == 0 && after_hearing(history, limits, threshold).silence == 0,
    decreases history.len(),
{
    if history.len() > 0 {
        detector_is_idle_in_silence(history.drop_last(), limits, threshold);
    }
}

/// Speech begins with a chunk above the threshold and with no other.
pub proof fn speech_begins_above_the_threshold<T>(
    m: VadModel<T>,
    limits: VadLimits,
    threshold: Single,
    chunk: Seq<T>,
    energy: Single,
)
    requires
        m.state == VadState::Silence,
    ensures
        ({
            let (next, cut) = vad_step(m, limits, threshold, chunk, energy);
            &&& cut is None
            &&& threshold.less(energy) ==> next.state == VadState::Speech && next.buffer == chunk
            &&& !threshold.less(energy) ==> next == m
        }),
{
}

/// While speech is under way, what is kept is everything since a chunk above the threshold, from its
/// first sample on.
pub proof fn an_utterance_is_heard_without_a_gap<T>(
    history: Seq<(Seq<T>, Single)>,
    limits: VadLimits,
    threshold: Single,
)
    ensures
        after_hearing(history, limits, threshold).state == VadState::Speech ==> exists|j: int|
            {
                &&& 0 <= j < history.len()
                &&& threshold.less((#[trigger] history[j]).1)
                &&& after_hearing(history, limits, threshold).buffer == samples_of(history.skip(j))
            },
    decreases history.len(),
{
    let after = after_hearing(history, limits, threshold);
    if history.len() > 0 && after.state == VadState::Speech {
        let front = history.drop_last();
        let before = after_hearing(front, limits, threshold);
        let n = history.len() as int;
        if before.state == VadState::Speech {
            an_utterance_is_heard_without_a_gap(front, limits, threshold);
            let j = choose|j: int|
                {
                    &&& 0 <= j < front.len()
                    &&& threshold.less((#[trigger] front[j]).1)
                    &&& before.buffer == samples_of(front.skip(j))
                };
            assert(history[j] == front[j]);
            assert(history.skip(j).drop_last() =~= front.skip(j));
            assert(history.skip(j).last() == history.last());
        } else {
            let tail = history.skip(n - 1);
            assert(tail.drop_last() =~= Seq::empty());
            assert(tail.last() == history.last());
            assert(samples_of(tail.drop_last()) =~= Seq::empty());
            assert(samples_of(tail) =~= history.last().0);
            assert(threshold.less(history[n - 1].1));
        }
    }
}

// ── Meaningful text ──────────────────────────────────────────────────────────

/// Whether Unicode counts a character as a letter or a number: what `char::is_alphanumeric`
/// returns.
pub uninterp spec fn alphanumeric(c: char) -> bool;

/// `char::is_alphanumeric`: the result depends on the character alone, and within ASCII it is
/// true of the letters and digits only.
#[verifier::external_body]
fn is_alphanumeric(c: char) -> (r: bool)
    ensures
        r == alphanumeric(c),
        (c as u32) < 0x80 ==> r == is_ascii_alphanumeric(c),
{
    c.is_alphanumeric()
}

/// Marks that never count as content.
pub open spec fn is_mark(c: char) -> bool {
    ||| c == '。'
    ||| c == '，'
    ||| c == '、'
    ||| c == '！'
    ||| c == '？'
    ||| c == '…'
    ||| c == '·'
    ||| c == '.'
    ||| c == ','
    ||| c == '!'
    ||| c == '?'
}

/// How many characters of `s` carry content.
pub open spec fn content_chars(s: Seq<char>) -> nat
    decreases s.len(),
{
    if s.len() == 0 {
        0
    } else {
        content_chars(s.drop_last()) + (if alphanumeric(s.last()) && !is_mark(s.last()) {
            1nat
        } else {
            0nat
        })
    }
}

/// Whether a transcript is worth inserting: at least two letters or digits. Punctuation and
/// single stray characters are not.
pub fn is_meaningful_pub(text: &str) -> (r: bool)
    ensures
        r == (content_chars(text@) >= 2),
{
    let mut count: usize = 0;
    for c in it: text.chars()
        invariant
            it.seq() == text@,
            count <= 2,
            count == 2 ==> content_chars(text@.take(it.index() as int)) >= 2,
            count < 2 ==> content_chars(text@.take(it.index() as int)) == count,
    {
        proof {
            let i = it.index() as int;
            assert(text@.take(i + 1).drop_last() == text@.take(i));
        }
        let mark = c == '。' || c == '，' || c == '、' || c == '！' || c == '？' || c == '…' || c
            == '·' || c == '.' || c == ',' || c == '!' || c == '?';
        if is_alphanumeric(c) && !mark && count < 2 {
            count += 1;
        }
    }
    proof {
        assert(text@.take(text@.len() as int) == text@);
    }
    count >= 2
}

/// The content of two texts in a row adds up, so more text never makes a transcript meaningless.
pub proof fn content_adds_up(a: Seq<char>, b: Seq<char>)
    ensures
        content_chars(a + b) == content_chars(a) + content_chars(b),
    decreases b.len(),
{
    if b.len() == 0 {
        assert(a + b == a);
    } else {
        assert((a + b).drop_last() == a + b.drop_last());
        content_adds_up(a, b.drop_last());
    }
}

/// A text has a meaning as soon as two of its characters are letters or digits, wherever they stand,
/// and not before; marks never count.
pub proof fn two_letters_have_a_meaning(s: Seq<char>)
    ensures
        content_chars(s) >= 2 ==> exists|i: int, j: int|
            0 <= i < j < s.len() && alphanumeric(#[trigger] s[i]) && alphanumeric(#[trigger] s[j]),
        forall|i: int, j: int|
            0 <= i < j < s.len() && alphanumeric(#[trigger] s[i]) && alphanumeric(#[trigger] s[j])
                && !"。，、！？…·.,!?"@.contains(s[i]) && !"。，、！？…·.,!?"@.contains(s[j])
                ==> content_chars(s) >= 2,
{
    reveal_strlit("。，、！？…·.,!?");
    let marks = "。，、！？…·.,!?"@;
    if content_chars(s) >= 2 {
        let j = last_content(s);
        let front = s.take(j);
        let i = last_content(front);
        assert(front[i] == s[i]);
        assert(alphanumeric(s[i]) && alphanumeric(s[j]));
    }
    assert forall|i: int, j: int|
        0 <= i < j < s.len() && alphanumeric(#[trigger] s[i]) && alphanumeric(#[trigger] s[j])
            && !marks.contains(s[i]) && !marks.contains(s[j]) implies content_chars(s) >= 2 by {
        marks_are_listed(s[i]);
        marks_are_listed(s[j]);
        let a = s.take(j);
        let b = s.skip(j);
        content_adds_up(a, b);
        assert(a + b =~= s);
        assert(a[i] == s[i]);
        assert(b[0] == s[j]);
        content_counts_each(a, i);
        content_counts_each(b, 0);
    }
}

/// Marks are the eleven that separate sentences and their parts, and nothing else is one.
pub proof fn marks_are_listed(c: char)
    ensures
        is_mark(c) <==> "。，、！？…·.,!?"@.contains(c),
{
    reveal_strlit("。，、！？…·.,!?");
    let marks = "。，、！？…·.,!?"@;
    assert(marks[0] == '。' && marks[1] == '，' && marks[2] == '、' && marks[3] == '！' && marks[4]
        == '？' && marks[5] == '…' && marks[6] == '·' && marks[7] == '.' && marks[8] == ','
        && marks[9] == '!' && marks[10] == '?');
}

proof fn content_counts_each(s: Seq<char>, i: int)
    requires
        0 <= i < s.len(),
        alphanumeric(s[i]),
        !is_mark(s[i]),
    ensures
        content_chars(s) >= 1,
    decreases s.len(),
{
    if i < s.len() - 1 {
        content_counts_each(s.drop_last(), i);
    }
}

proof fn last_content(s: Seq<char>) -> (i: int)
    requires
        content_chars(s) >= 1,
    ensures
        0 <= i < s.len(),
        alphanumeric(s[i]),
        content_chars(s.take(i)) == content_chars(s) - 1,
    decreases s.len(),
{
    let n = s.len() as int;
    if alphanumeric(s.last()) && !is_mark(s.last()) {
        assert(s.take(n - 1) =~= s.drop_last());
        n - 1
    } else {
        let i = last_content(s.drop_last());
        assert(s.drop_last().take(i) =~= s.take(i));
        i
    }
}

// ── Settings ─────────────────────────────────────────────────────────────────

/// What hands-free listening works with.
pub struct LiveConfig {
    pub vad_silence_ms: u64,
    pub energy_threshold: Single,
    pub input_device: Option<String>,
    pub output_path: Option<String>,
    pub lm_url: String,
    pub lm_model: String,
    pub no_llm: bool,
}

/// What is printed when listening begins.
pub fn listening_banner(cfg: &LiveConfig) -> (r: String)
    ensures
        r@ == (if cfg.no_llm {
            "Listening... (LLM disabled, press Ctrl+C to stop)"@
        } else {
            "Listening... (LLM polish via "@ + cfg.lm_url@ + ", press Ctrl+C to stop)"@
        }),
{
    if cfg.no_llm {
        return "Listening... (LLM disabled, press Ctrl+C to stop)".to_owned();
    }
    let mut t = "Listening... (LLM polish via ".to_owned();
    t.append(cfg.lm_url.as_str());
    t.append(", press Ctrl+C to stop)");
    t
}

// ── The clipboard ────────────────────────────────────────────────────────────

/// How long to look for the text on the clipboard, in nanoseconds.
pub const CLIPBOARD_DEADLINE: u64 = 300_000_000;

/// How long to wait between two looks, in nanoseconds.
pub const CLIPBOARD_POLL: u64 = 30_000_000;

/// How long to wait where there is no way to look, in nanoseconds.
pub const CLIPBOARD_BLIND_WAIT: u64 = 120_000_000;

/// What reading the clipboard back came to.
pub enum ClipboardRead {
    Text(String),
    /// There is no program to read it with.
    NoReader,
    Failed,
}

/// How to go on waiting for the clipboard.
#[derive(Clone, Copy, Debug, PartialEq, Eq, Structural)]
pub enum ClipboardStep {
    /// The text is there.
    Ready,
    /// Wait a fixed time and trust.
    WaitBlindly,
    /// The time is over.
    GiveUp,
    /// Look again in a moment.
    LookAgain,
}

/// How to go on after a look at the clipboard, which is to hold `expected`.
pub fn wait_clipboard_ready_pub(expected: &str, read: &ClipboardRead, waited: u64) -> (r:
    ClipboardStep)
    ensures
        r == (match *read {
            ClipboardRead::NoReader => ClipboardStep::WaitBlindly,
            ClipboardRead::Text(t) => if t@ == expected@ {
                ClipboardStep::Ready
            } else if waited >= CLIPBOARD_DEADLINE {
                ClipboardStep::GiveUp
            } else {
                ClipboardStep::LookAgain
            },
            ClipboardRead::Failed => if waited >= CLIPBOARD_DEADLINE {
                ClipboardStep::GiveUp
            } else {
                ClipboardStep::LookAgain
            },
        }),
{
    match read {
        ClipboardRead::NoReader => {
            return ClipboardStep::WaitBlindly;
        },
        ClipboardRead::Text(t) => {
            if same_text(t.as_str(), expected) {
                return ClipboardStep::Ready;
            }
        },
        ClipboardRead::Failed => {},
    }
    if waited >= CLIPBOARD_DEADLINE {
        ClipboardStep::GiveUp
    } else {
        ClipboardStep::LookAgain
    }
}

/// What came of running the program that fills the clipboard: its error output, trimmed, where it
/// failed.
pub fn set_clipboard_pub(success: bool, stderr: &str) -> (r: Result<(), String>)
    ensures
        match r {
            Ok(_) => success,
            Err(m) => !success && m@ == "wl-copy failed: "@ + trim(stderr@),
        },
{
    if success {
        return Ok(());
    }
    let mut m = "wl-copy failed: ".to_owned();
    m.append(trimmed(stderr).as_str());
    Err(m)
}

}
