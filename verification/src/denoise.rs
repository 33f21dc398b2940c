use vstd::prelude::*;

verus! {

/// Number of samples in one frame of the noise suppressor.
pub open spec fn frame_size() -> nat {
    480
}

/// `nnnoiseless::DenoiseState::FRAME_SIZE`: the number of samples the noise
/// suppressor takes and gives per frame. Its source defines it as `120 << 2`,
/// that is 480, which is what the contract claims.
#[verifier::external_body]
fn denoiser_frame_size() -> (n: usize)
    ensures
        n == frame_size(),
{
    nnnoiseless::DenoiseState::FRAME_SIZE
}

/// One frame of samples handed to the noise suppressor.
#[derive(Clone, Copy, Debug, PartialEq, Eq, Structural)]
pub struct FrameSpan {
    /// Index of the first sample of the frame.
    pub start: usize,
    /// Index one past the last sample of the frame.
    pub end: usize,
    /// The denoised output of this frame goes into the result; that of the first
    /// frame is dropped, since the suppressor has no history yet.
    pub keep_output: bool,
}

/// The frames of a recording of `count` samples, in order: frame `i` covers the
/// samples from `i * 480` up to `(i + 1) * 480`, and its output is kept unless it
/// is the first.
pub open spec fn frames_for(count: nat) -> Seq<FrameSpan> {
    Seq::new(
        count / frame_size(),
        |i: int|
            FrameSpan {
                start: (i * frame_size()) as usize,
                end: ((i + 1) * frame_size()) as usize,
                keep_output: i > 0,
            },
    )
}

/// The frames of a recording of `sample_count` samples, in order: whole frames
/// only, a shorter tail is left out.
pub fn denoise_frames(sample_count: usize) -> (frames: Vec<FrameSpan>)
    ensures
        frames@ == frames_for(sample_count as nat),
        frames@.len() == sample_count as nat / frame_size(),
        forall|i: int|
            0 <= i < frames@.len() ==> {
                &&& (#[trigger] frames@[i]).start == i * frame_size()
                &&& frames@[i].end == (i + 1) * frame_size()
                &&& frames@[i].end <= sample_count
                &&& frames@[i].keep_output == (i > 0)
            },
{
    let size: usize = denoiser_frame_size();
    let count: usize = sample_count / size;
    let mut frames: Vec<FrameSpan> = Vec::new();
    let mut i: usize = 0;
    while i < count
        invariant
            size == frame_size(),
            count == sample_count as nat / frame_size(),
            i <= count,
            frames@.len() == i,
            forall|j: int|
                0 <= j < i ==> {
                    &&& (#[trigger] frames@[j]).start == j * frame_size()
                    &&& frames@[j].end == (j + 1) * frame_size()
                    &&& frames@[j].end <= sample_count
                    &&& frames@[j].keep_output == (j > 0)
                },
        decreases count - i,
    {
        assert((i + 1) * 480 <= count * 480 <= sample_count) by (nonlinear_arith)
            requires
                i < count,
                count == sample_count as int / 480,
        ;
        let start: usize = i * size;
        let end: usize = start + size;
        frames.push(FrameSpan { start, end, keep_output: i > 0 });
        i = i + 1;
    }
    assert(frames@ =~= frames_for(sample_count as nat));
    frames
}

/// The number of denoised samples a recording of `sample_count` samples gives:
/// every whole frame but the first.
pub open spec fn denoised_len(sample_count: nat) -> nat {
    let frames: nat = sample_count / frame_size();
    if frames == 0 {
        0
    } else {
        ((frames - 1) * frame_size()) as nat
    }
}

/// The frames whose output is kept hold `denoised_len` samples in all, and they
/// follow each other without gap or overlap.
pub proof fn lemma_kept_frames_cover_denoised_len(sample_count: usize, frames: Seq<FrameSpan>)
    requires
        frames.len() == sample_count as nat / frame_size(),
        forall|i: int|
            0 <= i < frames.len() ==> {
                &&& (#[trigger] frames[i]).start == i * frame_size()
                &&& frames[i].end == (i + 1) * frame_size()
                &&& frames[i].keep_output == (i > 0)
            },
    ensures
        forall|i: int| 0 < i < frames.len() ==> (#[trigger] frames[i]).start == frames[i - 1].end,
        frames.len() > 0 ==> denoised_len(sample_count as nat) == frames.last().end - frames[0].end,
        frames.len() == 0 ==> denoised_len(sample_count as nat) == 0,
{
    assert forall|i: int| 0 < i < frames.len() implies (#[trigger] frames[i]).start
        == frames[i - 1].end by {
        assert(frames[i - 1].end == i * frame_size());
    }
    if frames.len() > 0 {
        let n: int = frames.len() as int;
        assert(frames[n - 1].end == n * 480);
        assert(frames[0].end == 480);
        assert((n - 1) * 480 == n * 480 - 480) by (nonlinear_arith);
    }
}

/// The frames of a recording are the first frames of any longer recording: the
/// suppressor, which takes them in order through one state, sees a recording's
/// frames before anything appended to it.
pub proof fn lemma_frames_of_prefix(shorter: nat, longer: nat)
    requires
        shorter <= longer,
    ensures
        frames_for(shorter).len() <= frames_for(longer).len(),
        frames_for(longer).take(frames_for(shorter).len() as int) == frames_for(shorter),
{
    assert(shorter / 480 <= longer / 480) by (nonlinear_arith)
        requires
            shorter <= longer,
    ;
    assert(frames_for(longer).take(frames_for(shorter).len() as int) =~= frames_for(shorter));
}

/// A tail shorter than a frame, appended to a recording of whole frames, adds no
/// frame.
pub proof fn lemma_short_tail_adds_no_frame(whole: nat, tail: nat)
    requires
        whole % frame_size() == 0,
        tail < frame_size(),
    ensures
        frames_for(whole + tail) == frames_for(whole),
{
    assert((whole + tail) / 480 == whole / 480) by (nonlinear_arith)
        requires
            whole % 480 == 0,
            tail < 480,
    ;
    assert(frames_for(whole + tail) =~= frames_for(whole));
}

} // verus!
