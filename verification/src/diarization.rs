//! Who speaks when: settings of the speaker diarization and what is kept of its result.

use vstd::prelude::*;
use vstd::string::*;

use crate::single::Single;
use crate::text::{decimal, decimal_of, decimals_read_back, is_blank, number_in, trim};

verus! {

/// A stretch of speech by one speaker, in seconds.
#[derive(Clone, Copy, Debug, PartialEq, Eq, Structural)]
pub struct SpeakerSegment {
    pub start_sec: Single,
    pub end_sec: Single,
    pub speaker: usize,
}

/// The diarization asked for.
pub struct DiarizationConfig {
    pub segmentation_model: String,
    pub embedding_model: String,
    pub num_clusters: Option<i32>,
    pub threshold: Single,
    pub min_duration_on: Single,
    pub min_duration_off: Single,
}

/// What a diarization engine is created with; a negative number of clusters means that clustering
/// is to infer it.
pub struct DiarizationSettings {
    pub segmentation_model: String,
    pub embedding_model: String,
    pub num_clusters: i32,
    pub threshold: Single,
    pub min_duration_on: Single,
    pub min_duration_off: Single,
}

/// Why no diarization engine can be created.
#[derive(Clone, Copy, Debug, PartialEq, Eq, Structural)]
pub enum DiarizationError {
    NoSegmentationModel,
    NoEmbeddingModel,
}

impl DiarizationError {
    /// The message shown to the user.
    pub fn message(self) -> (r: &'static str)
        ensures
            r@ == match self {
                DiarizationError::NoSegmentationModel =>
                    "speaker segmentation model path is empty"@,
                DiarizationError::NoEmbeddingModel => "speaker embedding model path is empty"@,
            },
    {
        match self {
            DiarizationError::NoSegmentationModel => "speaker segmentation model path is empty",
            DiarizationError::NoEmbeddingModel => "speaker embedding model path is empty",
        }
    }
}

/// What to create the engine with. Both model paths must be given.
pub fn diarization_settings(config: &DiarizationConfig) -> (r: Result<
    DiarizationSettings,
    DiarizationError,
>)
    ensures
        match r {
            Ok(s) => {
                &&& trim(config.segmentation_model@).len() > 0
                &&& trim(config.embedding_model@).len() > 0
                &&& s.segmentation_model@ == config.segmentation_model@
                &&& s.embedding_model@ == config.embedding_model@
                &&& s.num_clusters == (match config.num_clusters {
                    Some(n) => n,
                    None => -1i32,
                })
                &&& s.threshold == config.threshold
                &&& s.min_duration_on == config.min_duration_on
                &&& s.min_duration_off == config.min_duration_off
            },
            Err(DiarizationError::NoSegmentationModel) => trim(config.segmentation_model@).len()
                == 0,
            Err(DiarizationError::NoEmbeddingModel) => trim(config.segmentation_model@).len() > 0
                && trim(config.embedding_model@).len() == 0,
        },
{
    if is_blank(config.segmentation_model.as_str()) {
        return Err(DiarizationError::NoSegmentationModel);
    }
    if is_blank(config.embedding_model.as_str()) {
        return Err(DiarizationError::NoEmbeddingModel);
    }
    Ok(
        DiarizationSettings {
            segmentation_model: config.segmentation_model.clone(),
            embedding_model: config.embedding_model.clone(),
            num_clusters: match config.num_clusters {
                Some(n) => n,
                None => -1,
            },
            threshold: config.threshold,
            min_duration_on: config.min_duration_on,
            min_duration_off: config.min_duration_off,
        },
    )
}

/// The message on a model that wants another sampling rate than the 16 kHz it would get.
pub open spec fn rate_mismatch(rate: u32) -> Seq<char> {
    "Speaker diarization model expects "@ + decimal(rate as nat)
        + "Hz audio; current pipeline resamples to 16000Hz"@
}

/// Whether a diarization model takes the audio as it is resampled.
pub fn check_sample_rate(rate: u32) -> (r: Result<(), String>)
    ensures
        match r {
            Ok(_) => rate == 16000,
            Err(m) => rate != 16000 && m@ == rate_mismatch(rate),
        },
{
    if rate == 16000 {
        return Ok(());
    }
    let mut m = "Speaker diarization model expects ".to_owned();
    m.append(decimal_of(rate as u64).as_str());
    m.append("Hz audio; current pipeline resamples to 16000Hz");
    Err(m)
}

/// The segments that are not empty, in order. One whose bounds do not compare is kept.
pub open spec fn nonempty(segments: Seq<SpeakerSegment>) -> Seq<SpeakerSegment> {
    segments.filter(|s: SpeakerSegment| !s.end_sec.at_most(s.start_sec))
}

/// Drops the segments that end no later than they start.
pub fn keep_nonempty(segments: &Vec<SpeakerSegment>) -> (r: Vec<SpeakerSegment>)
    ensures
        r@ == nonempty(segments@),
{
    let ghost keep = |s: SpeakerSegment| !s.end_sec.at_most(s.start_sec);
    let mut kept: Vec<SpeakerSegment> = Vec::new();
    let n: usize = segments.len();
    let mut i: usize = 0;
    proof {
        reveal(Seq::filter);
        assert(segments@.take(0) =~= Seq::<SpeakerSegment>::empty());
    }
    while i < n
        invariant
            i <= n,
            n == segments.len(),
            keep == (|s: SpeakerSegment| !s.end_sec.at_most(s.start_sec)),
            kept@ == segments@.take(i as int).filter(keep),
        decreases n - i,
    {
        let s = segments[i];
        proof {
            reveal(Seq::filter);
            assert(segments@.take(i + 1).drop_last() =~= segments@.take(i as int));
        }
        if !s.end_sec.le(s.start_sec) {
            kept.push(s);
        }
        i = i + 1;
    }
    proof {
        assert(segments@.take(n as int) =~= segments@);
    }
    kept
}

/// Segments are kept one by one and in order: of two lists in a row what is kept is what is kept of
/// the one and then of the other, and of a single segment nothing is kept exactly where it ends no
/// later than it starts.
pub proof fn segments_are_kept_one_by_one(
    a: Seq<SpeakerSegment>,
    b: Seq<SpeakerSegment>,
    s: SpeakerSegment,
)
    ensures
        nonempty(a + b) == nonempty(a) + nonempty(b),
        nonempty(Seq::empty()) == Seq::<SpeakerSegment>::empty(),
        s.end_sec.at_most(s.start_sec) ==> nonempty(seq![s]) == Seq::<SpeakerSegment>::empty(),
        !s.end_sec.at_most(s.start_sec) ==> nonempty(seq![s]) == seq![s],
{
    let keep = |s: SpeakerSegment| !s.end_sec.at_most(s.start_sec);
    filters_split(a, b, keep);
    reveal(Seq::filter);
    assert(seq![s].drop_last() =~= Seq::<SpeakerSegment>::empty());
    assert(Seq::<SpeakerSegment>::empty().filter(keep) =~= Seq::empty());
    assert(seq![s].filter(keep) =~= if keep(s) {
        seq![s]
    } else {
        Seq::empty()
    });
}

proof fn filters_split(
    a: Seq<SpeakerSegment>,
    b: Seq<SpeakerSegment>,
    keep: spec_fn(SpeakerSegment) -> bool,
)
    ensures
        (a + b).filter(keep) == a.filter(keep) + b.filter(keep),
    decreases b.len(),
{
    reveal(Seq::filter);
    if b.len() == 0 {
        assert(a + b =~= a);
        assert(a.filter(keep) + b.filter(keep) =~= a.filter(keep));
    } else {
        filters_split(a, b.drop_last(), keep);
        assert((a + b).drop_last() =~= a + b.drop_last());
        assert((a + b).last() == b.last());
        assert((a + b).filter(keep) =~= a.filter(keep) + b.filter(keep));
    }
}

/// The message on a model's rate names that rate.
pub proof fn the_message_names_the_rate(rate: u32)
    ensures
        exists|number: Seq<char>| #[trigger]
            number_in(number) == rate && rate_mismatch(rate)
                == "Speaker diarization model expects "@ + number
                + "Hz audio; current pipeline resamples to 16000Hz"@,
{
    decimals_read_back(rate as nat);
    assert(number_in(decimal(rate as nat)) == rate);
}

}
