use vstd::prelude::*;

verus! {

/// The largest amplitude of a chunk, or 0 for an empty chunk.
pub open spec fn peak(s: Seq<i32>) -> i32
    decreases s.len(),
{
    if s.len() == 0 {
        0
    } else if s.len() == 1 {
        s[0]
    } else {
        let m: i32 = peak(s.drop_last());
        if s.last() > m {
            s.last()
        } else {
            m
        }
    }
}

/// The smallest amplitude of a chunk, or 0 for an empty chunk.
pub open spec fn trough(s: Seq<i32>) -> i32
    decreases s.len(),
{
    if s.len() == 0 {
        0
    } else if s.len() == 1 {
        s[0]
    } else {
        let m: i32 = trough(s.drop_last());
        if s.last() < m {
            s.last()
        } else {
            m
        }
    }
}

/// A chunk whose amplitudes all lie strictly between `-level` and `level` is silence.
pub open spec fn is_silence(low: i32, high: i32, level: i32) -> bool {
    high < level && low > -level
}

/// Time between `start` and `now`, or 0 if `now` is not later.
pub open spec fn elapsed(start: u64, now: u64) -> int {
    if now >= start {
        now - start
    } else {
        0
    }
}

/// The start of the current silence and whether the pause is over, after a chunk
/// observed at time `now`.
pub open spec fn after_chunk(start: Option<u64>, silent: bool, now: u64, pause: i64) -> (
    Option<u64>,
    bool,
) {
    if silent {
        match start {
            None => (Some(now), false),
            Some(s) => (Some(s), elapsed(s, now) > pause),
        }
    } else {
        (None, false)
    }
}

/// The largest amplitude of a nonempty chunk is one of its amplitudes and bounds
/// all of them; likewise the smallest.
pub proof fn lemma_peak_trough_bounds(s: Seq<i32>)
    requires
        s.len() > 0,
    ensures
        forall|i: int| 0 <= i < s.len() ==> trough(s) <= #[trigger] s[i] <= peak(s),
        exists|i: int| 0 <= i < s.len() && s[i] == peak(s),
        exists|j: int| 0 <= j < s.len() && s[j] == trough(s),
    decreases s.len(),
{
    if s.len() > 1 {
        let d = s.drop_last();
        lemma_peak_trough_bounds(d);
        assert forall|i: int| 0 <= i < s.len() implies trough(s) <= #[trigger] s[i] <= peak(s) by {
            if i < s.len() - 1 {
                assert(s[i] == d[i]);
            }
        }
        let i0 = choose|i: int| 0 <= i < d.len() && d[i] == peak(d);
        let j0 = choose|j: int| 0 <= j < d.len() && d[j] == trough(d);
        if s.last() > peak(d) {
            assert(s[s.len() - 1] == peak(s));
        } else {
            assert(s[i0] == peak(s));
        }
        if s.last() < trough(d) {
            assert(s[s.len() - 1] == trough(s));
        } else {
            assert(s[j0] == trough(s));
        }
    } else {
        assert(s[0] == peak(s));
    }
}

/// The smallest and the largest amplitude of a chunk, both 0 for an empty chunk.
pub fn amplitude_bounds(amplitudes: &Vec<i32>) -> (b: (i32, i32))
    ensures
        b.0 == trough(amplitudes@),
        b.1 == peak(amplitudes@),
{
    let n: usize = amplitudes.len();
    if n == 0 {
        return (0, 0);
    }
    let mut low: i32 = amplitudes[0];
    let mut high: i32 = amplitudes[0];
    let mut i: usize = 1;
    while i < n
        invariant
            n == amplitudes@.len(),
            1 <= i <= n,
            low == trough(amplitudes@.take(i as int)),
            high == peak(amplitudes@.take(i as int)),
        decreases n - i,
    {
        let a: i32 = amplitudes[i];
        assert(amplitudes@.take(i + 1).drop_last() =~= amplitudes@.take(i as int));
        if a > high {
            high = a;
        }
        if a < low {
            low = a;
        }
        i = i + 1;
    }
    assert(amplitudes@.take(n as int) =~= amplitudes@);
    (low, high)
}

/// Whether a chunk with the given smallest and largest amplitude is silence.
pub fn silent(low: i32, high: i32, level: i32) -> (r: bool)
    requires
        level > i32::MIN,
    ensures
        r == is_silence(low, high, level),
{
    high < level && low > -level
}

/// What one observed chunk of sound showed.
pub struct ChunkReport {
    /// Smallest amplitude (0 for an empty chunk).
    pub min: i32,
    /// Largest amplitude (0 for an empty chunk).
    pub max: i32,
    /// The chunk is silence.
    pub silent: bool,
    /// The silence has lasted longer than the pause length: recording ends.
    pub pause_over: bool,
}

/// Watches the amplitudes of successive chunks for a pause in speech: silence
/// lasting longer than a given length.
pub struct PauseDetector {
    silence_start: Option<u64>,
}

impl View for PauseDetector {
    type V = Option<u64>;

    /// When the current silence began, if the last chunk was silence.
    closed spec fn view(&self) -> Option<u64> {
        self.silence_start
    }
}

impl PauseDetector {
    /// A detector that has seen no chunk yet.
    pub fn new() -> (d: PauseDetector)
        ensures
            d@ == None::<u64>,
    {
        PauseDetector { silence_start: None }
    }

    /// Observes the amplitudes of a chunk taken at time `now`; silence is below
    /// `level` in magnitude, and the pause is over once silence has lasted longer
    /// than `pause` (both times in the same unit; a negative pause is over at the
    /// second silent chunk in a row, whenever it comes).
    pub fn observe(&mut self, amplitudes: &Vec<i32>, level: i32, now: u64, pause: i64) -> (report: ChunkReport)
        requires
            level > i32::MIN,
        ensures
            report.min == trough(amplitudes@),
            report.max == peak(amplitudes@),
            report.silent == is_silence(report.min, report.max, level),
            (final(self)@, report.pause_over) == after_chunk(old(self)@, report.silent, now, pause),
    {
        let (low, high) = amplitude_bounds(amplitudes);
        let quiet = silent(low, high, level);
        let mut pause_over = false;
        if quiet {
            match self.silence_start {
                None => {
                    self.silence_start = Some(now);
                },
                Some(s) => {
                    let gone: u64 = if now >= s { now - s } else { 0 };
                    pause_over = if pause < 0 {
                        true
                    } else {
                        gone > pause as u64
                    };
                },
            }
        } else {
            self.silence_start = None;
        }
        ChunkReport { min: low, max: high, silent: quiet, pause_over }
    }
}

/// The detector state after a series of chunks, each given as whether it was
/// silence and when it was taken.
pub open spec fn after_chunks(events: Seq<(bool, u64)>, pause: i64) -> Option<u64>
    decreases events.len(),
{
    if events.len() == 0 {
        None
    } else {
        after_chunk(after_chunks(events.drop_last(), pause), events.last().0, events.last().1, pause).0
    }
}

/// `events[k..]` is the trailing run of silent chunks, and it is not empty.
pub open spec fn trailing_silence_from(events: Seq<(bool, u64)>, k: int) -> bool {
    &&& 0 <= k < events.len()
    &&& forall|j: int| k <= j < events.len() ==> (#[trigger] events[j]).0
    &&& k > 0 ==> !events[k - 1].0
}

/// After any series of chunks, the detector holds the time of the first chunk of
/// the trailing run of silent chunks, and nothing when the last chunk was not
/// silence: a sound resets the pause, and the pause is measured from where the
/// silence began.
pub proof fn lemma_silence_start_is_run_start(events: Seq<(bool, u64)>, pause: i64)
    ensures
        after_chunks(events, pause) is None <==> (events.len() == 0 || !events.last().0),
        after_chunks(events, pause) is Some ==> exists|k: int|
            trailing_silence_from(events, k) && after_chunks(events, pause) == Some(
                #[trigger] events[k].1,
            ),
    decreases events.len(),
{
    if events.len() > 0 {
        let d = events.drop_last();
        lemma_silence_start_is_run_start(d, pause);
        let n: int = events.len() - 1;
        if events.last().0 {
            match after_chunks(d, pause) {
                None => {
                    assert(trailing_silence_from(events, n));
                },
                Some(t) => {
                    let k: int = choose|k: int| trailing_silence_from(d, k) && Some(t) == Some(#[trigger] d[k].1);
                    assert forall|j: int| k <= j < events.len() implies (#[trigger] events[j]).0 by {
                        if j < n {
                            assert(events[j] == d[j]);
                        }
                    }
                    if k > 0 {
                        assert(events[k - 1] == d[k - 1]);
                    }
                    assert(events[k] == d[k]);
                    assert(trailing_silence_from(events, k));
                },
            }
        }
    }
}

} // verus!

verus! {

/// The pause rule, for every start, time and pause length: a silent chunk after
/// a silence that began at `s` keeps `s` as the start, and the pause is over
/// exactly when the time since `s` (none if the clock went back) exceeds the
/// pause, which a negative pause always is; the first silent chunk starts the
/// silence at its own time and never ends the pause; a chunk that is not silent
/// clears the start and never ends the pause.
pub proof fn lemma_pause_rule(start: Option<u64>, s: u64, now: u64, pause: i64)
    ensures
        after_chunk(Some(s), true, now, pause).0 == Some(s),
        after_chunk(Some(s), true, now, pause).1 == ((now >= s && now - s > pause) || pause < 0),
        pause >= 0 ==> (after_chunk(Some(s), true, now, pause).1 == (now >= s && now - s > pause)),
        after_chunk(None, true, now, pause) == (Some(now), false),
        after_chunk(start, false, now, pause) == (None::<u64>, false),
{
}

} // verus!

verus! {

/// A nonempty chunk is silence exactly when every one of its amplitudes lies
/// strictly between `-level` and `level`; an empty chunk is silence exactly when
/// the level is positive.
pub proof fn lemma_silence_means_all_quiet(s: Seq<i32>, level: i32)
    ensures
        s.len() > 0 ==> (is_silence(trough(s), peak(s), level) <==> forall|i: int|
            0 <= i < s.len() ==> -level < #[trigger] s[i] < level),
        s.len() == 0 ==> (is_silence(trough(s), peak(s), level) <==> level > 0),
{
    if s.len() > 0 {
        lemma_peak_trough_bounds(s);
        let i0 = choose|i: int| 0 <= i < s.len() && s[i] == peak(s);
        let j0 = choose|j: int| 0 <= j < s.len() && s[j] == trough(s);
        assert(s[i0] == peak(s));
        assert(s[j0] == trough(s));
    }
}

} // verus!
