use crate::spectrogram_like::SpectrogramLike;
use vstd::prelude::*;

verus! {

/// The largest value of the engine's native integer type.
pub const ENGINE_INT_MAX: u32 = 2147483647;

/// Why a set of synthesis inputs was refused.
#[derive(Debug, Clone, Copy, PartialEq, Eq, Structural)]
pub enum SynthesisError {
    /// F0 length, frame counts or frequency-axis sizes disagree.
    DifferentSizeInput,
    /// A count or rate does not fit the engine's integer type.
    TooLargeValue,
    /// The FFT size does not give the matrices' frequency-axis size.
    InvalidFFTSize,
}

impl SynthesisError {
    /// A short human-readable description.
    pub fn message(&self) -> (r: &'static str) {
        match self {
            SynthesisError::DifferentSizeInput => "Different size input",
            SynthesisError::TooLargeValue => "Too large value",
            SynthesisError::InvalidFFTSize => "invalid fft size",
        }
    }
}

/// Whether an FFT size yields `width` frequency bins: `fft_size / 2 + 1`.
/// A negative FFT size yields none.
pub open spec fn fft_size_fits(fft_size: int, width: int) -> bool {
    fft_size >= 0 && fft_size / 2 + 1 == width
}

/// The FFT size derived from a frequency-axis size when none is given.
pub open spec fn derived_fft_size(width: int) -> int {
    (width - 1) * 2
}

/// What batch synthesis decides on its inputs' sizes: the FFT size to use, or
/// the error, checked in this order: sizes agree, counts fit, FFT size fits.
pub open spec fn synthesis_check(
    f0_len: int,
    sp_time: int,
    sp_freq: int,
    ap_time: int,
    ap_freq: int,
    fft_size: Option<i32>,
    fs: int,
    out_len: int,
) -> Result<i32, SynthesisError> {
    if f0_len != sp_time || sp_time != ap_time || sp_freq != ap_freq {
        Err(SynthesisError::DifferentSizeInput)
    } else if fs > ENGINE_INT_MAX || out_len > ENGINE_INT_MAX || f0_len > ENGINE_INT_MAX {
        Err(SynthesisError::TooLargeValue)
    } else {
        match fft_size {
            Some(n) => if fft_size_fits(n as int, sp_freq) {
                Ok(n)
            } else {
                Err(SynthesisError::InvalidFFTSize)
            },
            None => if derived_fft_size(sp_freq) > ENGINE_INT_MAX {
                Err(SynthesisError::TooLargeValue)
            } else if fft_size_fits(derived_fft_size(sp_freq), sp_freq) {
                Ok(derived_fft_size(sp_freq) as i32)
            } else {
                Err(SynthesisError::InvalidFFTSize)
            },
        }
    }
}

/// The smaller of a requested count and an available count.
pub open spec fn min_len(requested: usize, available: nat) -> int {
    if requested < available {
        requested as int
    } else {
        available as int
    }
}

/// Whether `fft_size / 2 + 1 == width`, with a negative size never fitting.
fn fits(fft_size: i32, width: usize) -> (r: bool)
    ensures
        r == fft_size_fits(fft_size as int, width as int),
{
    fft_size >= 0 && (fft_size as u32 / 2 + 1) as usize == width
}

/// Checks the inputs of batch synthesis into an output buffer of `out_len`
/// samples, and gives the FFT size to hand to the engine: `fft_size` when
/// given, else `(frequency_axis_size - 1) * 2`.
pub fn validate_synthesis<T>(
    f0: &[T],
    spectrogram: &SpectrogramLike<T>,
    aperiodicity: &SpectrogramLike<T>,
    fft_size: Option<i32>,
    fs: u32,
    out_len: usize,
) -> (r: Result<i32, SynthesisError>)
    requires
        spectrogram.wf(),
        aperiodicity.wf(),
    ensures
        r == synthesis_check(
            f0@.len() as int,
            spectrogram.time_axis() as int,
            spectrogram.freq_axis() as int,
            aperiodicity.time_axis() as int,
            aperiodicity.freq_axis() as int,
            fft_size,
            fs as int,
            out_len as int,
        ),
{
    let sp_time = spectrogram.time_axis_size();
    let sp_freq = spectrogram.frequency_axis_size();
    if f0.len() != sp_time || sp_time != aperiodicity.time_axis_size() || sp_freq
        != aperiodicity.frequency_axis_size() {
        return Err(SynthesisError::DifferentSizeInput);
    }
    if fs > ENGINE_INT_MAX || out_len > ENGINE_INT_MAX as usize || f0.len()
        > ENGINE_INT_MAX as usize {
        return Err(SynthesisError::TooLargeValue);
    }
    proof {
        spectrogram.lemma_shape();
    }
    let n: i32 = match fft_size {
        Some(n) => n,
        None => {
            if sp_freq - 1 > (ENGINE_INT_MAX / 2) as usize {
                return Err(SynthesisError::TooLargeValue);
            }
            ((sp_freq - 1) * 2) as i32
        },
    };
    if !fits(n, sp_freq) {
        return Err(SynthesisError::InvalidFFTSize);
    }
    Ok(n)
}

/// What the streaming synthesizer decides on a batch's sizes, checked in this
/// order: sizes agree, the frame count fits, the FFT size fits.
pub open spec fn stream_check(
    f0_len: int,
    sp_time: int,
    sp_freq: int,
    ap_time: int,
    ap_freq: int,
    fft_size: i32,
) -> Result<(), SynthesisError> {
    if f0_len != sp_time || sp_time != ap_time || sp_freq != ap_freq {
        Err(SynthesisError::DifferentSizeInput)
    } else if f0_len > ENGINE_INT_MAX {
        Err(SynthesisError::TooLargeValue)
    } else if !fft_size_fits(fft_size as int, sp_freq) {
        Err(SynthesisError::InvalidFFTSize)
    } else {
        Ok(())
    }
}

/// A batch whose F0 length differs from the spectrogram's frame count is
/// refused as `DifferentSizeInput`, whatever the other sizes are; by the
/// contract of `Synthesizer::add` the queue is then left as it was.
pub proof fn lemma_frame_count_mismatch(
    f0_len: int,
    sp_time: int,
    sp_freq: int,
    ap_time: int,
    ap_freq: int,
    fft_size: i32,
)
    requires
        f0_len != sp_time,
    ensures
        stream_check(f0_len, sp_time, sp_freq, ap_time, ap_freq, fft_size) == Err::<
            (),
            SynthesisError,
        >(SynthesisError::DifferentSizeInput),
{
}

/// Taking `n` samples from a queue that holds at least `n` yields exactly the
/// first `n` and leaves the rest; from a shorter queue it yields all of them
/// and leaves it empty.
pub proof fn lemma_take_counts<T>(queued: Seq<T>, n: usize)
    ensures
        queued.len() >= n ==> queued.take(min_len(n, queued.len())).len() == n && queued.take(
            min_len(n, queued.len()),
        ) + queued.skip(min_len(n, queued.len())) == queued && queued.skip(
            min_len(n, queued.len()),
        ).len() == queued.len() - n,
        queued.len() < n ==> queued.take(min_len(n, queued.len())) == queued && queued.skip(
            min_len(n, queued.len()),
        ) == Seq::<T>::empty(),
{
    if queued.len() >= n {
        assert(queued.take(n as int) + queued.skip(n as int) =~= queued);
    } else {
        assert(queued.take(queued.len() as int) =~= queued);
        assert(queued.skip(queued.len() as int) =~= Seq::<T>::empty());
    }
}

/// Draining the queue in two takes, `a` then `b` samples, yields the same
/// samples in the same order as one take of `a + b`, and leaves the same rest.
pub proof fn lemma_take_split<T>(queued: Seq<T>, a: usize, b: usize)
    requires
        a + b <= usize::MAX,
    ensures
        queued.take(min_len(a, queued.len())) + queued.skip(min_len(a, queued.len())).take(
            min_len(b, queued.skip(min_len(a, queued.len())).len()),
        ) == queued.take(min_len((a + b) as usize, queued.len())),
        queued.skip(min_len(a, queued.len())).skip(
            min_len(b, queued.skip(min_len(a, queued.len())).len()),
        ) == queued.skip(min_len((a + b) as usize, queued.len())),
{
    let ka = min_len(a, queued.len());
    let rest = queued.skip(ka);
    let kb = min_len(b, rest.len());
    let kab = min_len((a + b) as usize, queued.len());
    assert(ka + kb == kab);
    assert(queued.take(ka) + rest.take(kb) =~= queued.take(kab));
    assert(rest.skip(kb) =~= queued.skip(kab));
}

/// What the streaming synthesizer asks of its engine next.
#[derive(Debug, Clone, Copy, PartialEq, Eq, Structural)]
pub enum EngineAction {
    /// Offer the batch's frames to the engine.
    Submit,
    /// Run one overlap-add step.
    Synthesize,
    /// Hand the chunk the engine just emitted to `collect`.
    Collect,
    /// Ask whether the engine's buffer is locked.
    CheckLock,
    /// Rotate the engine's buffer.
    Refresh,
    /// The batch is fully processed.
    Done,
}

/// What the engine answered to the pending action.
#[derive(Debug, Clone, Copy, PartialEq, Eq, Structural)]
pub enum EngineEvent {
    /// The engine took the frames (`true`) or had no room (`false`).
    Submitted(bool),
    /// The step emitted a chunk (`true`) or had nothing pending (`false`).
    Synthesized(bool),
    /// The engine's buffer is locked (`true`) or not.
    Locked(bool),
    /// The buffer was rotated.
    Refreshed,
}

/// Where the synthesizer stands within a batch.
#[derive(Debug, Clone, Copy, PartialEq, Eq, Structural)]
pub enum StreamPhase {
    /// No batch in progress.
    Idle,
    /// The batch has not been taken by the engine yet.
    Submitting,
    /// The batch was taken; its tail is being flushed.
    Draining,
    /// The flush found nothing more; a last lock check remains.
    Finishing,
}

/// The action that continues a phase once a step and its lock check are over.
pub open spec fn resume(phase: StreamPhase) -> EngineAction {
    match phase {
        StreamPhase::Submitting => EngineAction::Submit,
        StreamPhase::Draining => EngineAction::Synthesize,
        _ => EngineAction::Done,
    }
}

/// The phase after `resume(phase)` is taken.
pub open spec fn resumed_phase(phase: StreamPhase) -> StreamPhase {
    match phase {
        StreamPhase::Finishing => StreamPhase::Idle,
        _ => phase,
    }
}

/// The protocol: from the phase, the pending action and the engine's answer,
/// the next phase and action. After every step the lock is checked, and a
/// locked buffer is refreshed before anything else. An answer that does not
/// belong to the pending action changes nothing.
pub open spec fn transition(phase: StreamPhase, pending: EngineAction, event: EngineEvent) -> (
    StreamPhase,
    EngineAction,
) {
    match (pending, event) {
        (EngineAction::Submit, EngineEvent::Submitted(true)) => (
            StreamPhase::Draining,
            EngineAction::Synthesize,
        ),
        (EngineAction::Submit, EngineEvent::Submitted(false)) => (phase, EngineAction::Synthesize),
        (EngineAction::Synthesize, EngineEvent::Synthesized(true)) => (phase, EngineAction::Collect),
        (EngineAction::Synthesize, EngineEvent::Synthesized(false)) => (
            if phase == StreamPhase::Draining {
                StreamPhase::Finishing
            } else {
                phase
            },
            EngineAction::CheckLock,
        ),
        (EngineAction::CheckLock, EngineEvent::Locked(true)) => (phase, EngineAction::Refresh),
        (EngineAction::CheckLock, EngineEvent::Locked(false)) => (
            resumed_phase(phase),
            resume(phase),
        ),
        (EngineAction::Refresh, EngineEvent::Refreshed) => (resumed_phase(phase), resume(phase)),
        _ => (phase, pending),
    }
}

/// Converts spectral frames to samples batch by batch, and keeps the samples
/// that the caller has not taken yet in a first-in first-out queue.
///
/// The engine itself is driven by the caller: `add` validates a batch, then
/// `step` and `collect` tell the caller, one action at a time, what to ask of
/// the engine.
pub struct Synthesizer<T> {
    fft_size: i32,
    queue: std::collections::VecDeque<T>,
    phase: StreamPhase,
    pending: EngineAction,
}

impl<T> Synthesizer<T> {
    /// The samples not yet taken, oldest first.
    pub closed spec fn pending_samples(&self) -> Seq<T> {
        self.queue@
    }

    /// The FFT size the engine was set up with.
    pub closed spec fn spec_fft_size(&self) -> i32 {
        self.fft_size
    }

    pub closed spec fn phase(&self) -> StreamPhase {
        self.phase
    }

    /// The action the caller is to perform next.
    pub closed spec fn pending_action(&self) -> EngineAction {
        self.pending
    }

    /// A synthesizer for an engine with the given FFT size, with no batch in
    /// progress and no samples queued.
    pub fn new(fft_size: i32) -> (r: Synthesizer<T>)
        ensures
            r.spec_fft_size() == fft_size,
            r.pending_samples() == Seq::<T>::empty(),
            r.phase() == StreamPhase::Idle,
            r.pending_action() == EngineAction::Done,
    {
        Synthesizer {
            fft_size,
            queue: std::collections::VecDeque::new(),
            phase: StreamPhase::Idle,
            pending: EngineAction::Done,
        }
    }

    /// The FFT size the engine was set up with.
    pub fn fft_size(&self) -> (r: i32)
        ensures
            r == self.spec_fft_size(),
    {
        self.fft_size
    }

    /// Validates a batch of frames. On success a batch is under way: the next
    /// action is `Submit`. On failure nothing changes.
    pub fn add(
        &mut self,
        f0: &[T],
        spectrogram: &SpectrogramLike<T>,
        aperiodicity: &SpectrogramLike<T>,
    ) -> (r: Result<(), SynthesisError>)
        requires
            spectrogram.wf(),
            aperiodicity.wf(),
        ensures
            r == stream_check(
                f0@.len() as int,
                spectrogram.time_axis() as int,
                spectrogram.freq_axis() as int,
                aperiodicity.time_axis() as int,
                aperiodicity.freq_axis() as int,
                old(self).spec_fft_size(),
            ),
            r is Err ==> *final(self) == *old(self),
            r is Ok ==> final(self).pending_samples() == old(self).pending_samples()
                && final(self).spec_fft_size() == old(self).spec_fft_size() && final(self).phase()
                == StreamPhase::Submitting && final(self).pending_action() == EngineAction::Submit,
    {
        let sp_time = spectrogram.time_axis_size();
        let sp_freq = spectrogram.frequency_axis_size();
        if f0.len() != sp_time || sp_time != aperiodicity.time_axis_size() || sp_freq
            != aperiodicity.frequency_axis_size() {
            return Err(SynthesisError::DifferentSizeInput);
        }
        if f0.len() > ENGINE_INT_MAX as usize {
            return Err(SynthesisError::TooLargeValue);
        }
        if !fits(self.fft_size, sp_freq) {
            return Err(SynthesisError::InvalidFFTSize);
        }
        self.phase = StreamPhase::Submitting;
        self.pending = EngineAction::Submit;
        Ok(())
    }

    /// Takes the engine's answer to the pending action and gives the next
    /// action. The queue is not touched.
    pub fn step(&mut self, event: EngineEvent) -> (r: EngineAction)
        ensures
            (final(self).phase(), final(self).pending_action()) == transition(
                old(self).phase(),
                old(self).pending_action(),
                event,
            ),
            r == final(self).pending_action(),
            final(self).pending_samples() == old(self).pending_samples(),
            final(self).spec_fft_size() == old(self).spec_fft_size(),
    {
        let (phase, pending) = match (self.pending, event) {
            (EngineAction::Submit, EngineEvent::Submitted(true)) => (
                StreamPhase::Draining,
                EngineAction::Synthesize,
            ),
            (EngineAction::Submit, EngineEvent::Submitted(false)) => (
                self.phase,
                EngineAction::Synthesize,
            ),
            (EngineAction::Synthesize, EngineEvent::Synthesized(true)) => (
                self.phase,
                EngineAction::Collect,
            ),
            (EngineAction::Synthesize, EngineEvent::Synthesized(false)) => {
                let next = match self.phase {
                    StreamPhase::Draining => StreamPhase::Finishing,
                    other => other,
                };
                (next, EngineAction::CheckLock)
            },
            (EngineAction::CheckLock, EngineEvent::Locked(true)) => (
                self.phase,
                EngineAction::Refresh,
            ),
            (EngineAction::CheckLock, EngineEvent::Locked(false)) => self.resume(),
            (EngineAction::Refresh, EngineEvent::Refreshed) => self.resume(),
            _ => (self.phase, self.pending),
        };
        self.phase = phase;
        self.pending = pending;
        pending
    }

    fn resume(&self) -> (r: (StreamPhase, EngineAction))
        ensures
            r == (resumed_phase(self.phase()), resume(self.phase())),
    {
        match self.phase {
            StreamPhase::Submitting => (StreamPhase::Submitting, EngineAction::Submit),
            StreamPhase::Draining => (StreamPhase::Draining, EngineAction::Synthesize),
            StreamPhase::Finishing => (StreamPhase::Idle, EngineAction::Done),
            StreamPhase::Idle => (StreamPhase::Idle, EngineAction::Done),
        }
    }

    /// Number of samples waiting in the queue.
    pub fn len(&self) -> (r: usize)
        ensures
            r == self.pending_samples().len(),
    {
        self.queue.len()
    }

    /// Removes and returns the first `min(len, queued)` samples, oldest first.
    pub fn take_signal(&mut self, len: usize) -> (r: Vec<T>)
        ensures
            r@ == old(self).pending_samples().take(min_len(len, old(self).pending_samples().len())),
            final(self).pending_samples() == old(self).pending_samples().skip(
                min_len(len, old(self).pending_samples().len()),
            ),
            final(self).spec_fft_size() == old(self).spec_fft_size(),
            final(self).phase() == old(self).phase(),
            final(self).pending_action() == old(self).pending_action(),
    {
        let n: usize = if len < self.queue.len() {
            len
        } else {
            self.queue.len()
        };
        let mut out: Vec<T> = Vec::with_capacity(n);
        let mut i: usize = 0;
        while i < n
            invariant
                i <= n,
                n == min_len(len, old(self).pending_samples().len()),
                out@ == old(self).pending_samples().take(i as int),
                self.queue@ == old(self).pending_samples().skip(i as int),
                self.fft_size == old(self).fft_size,
                self.phase == old(self).phase,
                self.pending == old(self).pending,
            decreases n - i,
        {
            let x = self.queue.pop_front();
            proof {
                assert(old(self).pending_samples().take(i + 1) == old(self).pending_samples().take(
                    i as int,
                ).push(old(self).pending_samples()[i as int]));
            }
            match x {
                Some(v) => out.push(v),
                None => {},
            }
            i = i + 1;
        }
        out
    }

    /// Removes and returns every queued sample, oldest first.
    pub fn take_signal_all(&mut self) -> (r: Vec<T>)
        ensures
            r@ == old(self).pending_samples(),
            final(self).pending_samples() == Seq::<T>::empty(),
            final(self).spec_fft_size() == old(self).spec_fft_size(),
            final(self).phase() == old(self).phase(),
            final(self).pending_action() == old(self).pending_action(),
    {
        let n = self.queue.len();
        let r = self.take_signal(n);
        proof {
            assert(old(self).pending_samples().take(n as int) == old(self).pending_samples());
            assert(final(self).pending_samples() =~= Seq::<T>::empty());
        }
        r
    }
}

impl<T: Copy> Synthesizer<T> {
    /// Appends the chunk the engine emitted, when a chunk is what the pending
    /// action asks for, and gives the next action (`CheckLock`). Otherwise
    /// nothing changes and the pending action is given again.
    pub fn collect(&mut self, chunk: &[T]) -> (r: EngineAction)
        ensures
            old(self).pending_action() == EngineAction::Collect ==> final(self).pending_samples()
                == old(self).pending_samples() + chunk@ && final(self).pending_action()
                == EngineAction::CheckLock,
            old(self).pending_action() != EngineAction::Collect ==> final(self).pending_samples()
                == old(self).pending_samples() && final(self).pending_action()
                == old(self).pending_action(),
            final(self).phase() == old(self).phase(),
            final(self).spec_fft_size() == old(self).spec_fft_size(),
            r == final(self).pending_action(),
    {
        if self.pending != EngineAction::Collect {
            return self.pending;
        }
        let mut i: usize = 0;
        while i < chunk.len()
            invariant
                i <= chunk@.len(),
                self.queue@ == old(self).pending_samples() + chunk@.take(i as int),
                self.fft_size == old(self).fft_size,
                self.phase == old(self).phase,
                self.pending == old(self).pending,
            decreases chunk@.len() - i,
        {
            self.queue.push_back(chunk[i]);
            proof {
                assert(chunk@.take(i + 1) == chunk@.take(i as int).push(chunk@[i as int]));
            }
            i = i + 1;
        }
        proof {
            assert(chunk@.take(chunk@.len() as int) == chunk@);
        }
        self.pending = EngineAction::CheckLock;
        EngineAction::CheckLock
    }
}

} // verus!
