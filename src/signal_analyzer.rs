use crate::spectrogram_like::SpectrogramLike;
use crate::synthesis::ENGINE_INT_MAX;
use vstd::prelude::*;

verus! {

/// A stage of analysis, and the engine call that computes it.
#[derive(Debug, Clone, Copy, PartialEq, Eq, Structural)]
pub enum AnalysisStage {
    /// F0 estimation, which also gives the temporal positions.
    F0,
    /// Spectral-envelope recovery; needs F0.
    Spectrogram,
    /// Aperiodicity estimation; needs F0.
    Aperiodicity,
}

/// Which stages have been computed: F0, spectrogram, aperiodicity.
pub struct Computed {
    pub f0: bool,
    pub spectrogram: bool,
    pub aperiodicity: bool,
}

/// The engine calls that a request for `stage` needs, in the order they must
/// run: F0 first when it is missing, then the stage itself when it is missing.
pub open spec fn calls_needed(done: Computed, stage: AnalysisStage) -> Seq<AnalysisStage> {
    let f0_part = if done.f0 {
        Seq::<AnalysisStage>::empty()
    } else {
        seq![AnalysisStage::F0]
    };
    match stage {
        AnalysisStage::F0 => f0_part,
        AnalysisStage::Spectrogram => if done.spectrogram {
            f0_part
        } else {
            f0_part.push(AnalysisStage::Spectrogram)
        },
        AnalysisStage::Aperiodicity => if done.aperiodicity {
            f0_part
        } else {
            f0_part.push(AnalysisStage::Aperiodicity)
        },
    }
}

/// The computed stages once `stage` has been computed too.
pub open spec fn mark(done: Computed, stage: AnalysisStage) -> Computed {
    match stage {
        AnalysisStage::F0 => Computed { f0: true, ..done },
        AnalysisStage::Spectrogram => Computed { spectrogram: true, ..done },
        AnalysisStage::Aperiodicity => Computed { aperiodicity: true, ..done },
    }
}

/// The computed stages once every call of `calls` has run.
pub open spec fn mark_all(done: Computed, calls: Seq<AnalysisStage>) -> Computed
    decreases calls.len(),
{
    if calls.len() == 0 {
        done
    } else {
        mark_all(mark(done, calls[0]), calls.drop_first())
    }
}

/// Nothing computed yet.
pub open spec fn none_computed() -> Computed {
    Computed { f0: false, spectrogram: false, aperiodicity: false }
}

/// Number of times `stage` occurs in `calls`.
pub open spec fn count_calls(calls: Seq<AnalysisStage>, stage: AnalysisStage) -> nat
    decreases calls.len(),
{
    if calls.len() == 0 {
        0
    } else {
        (if calls[0] == stage {
            1nat
        } else {
            0nat
        }) + count_calls(calls.drop_first(), stage)
    }
}

/// Frequency-axis size of the spectrogram and aperiodicity for an FFT size.
pub open spec fn spectrum_width(fft_size: int) -> int {
    fft_size / 2 + 1
}

/// What a finished analysis hands back: the signal and whichever stages were
/// computed.
pub struct AnalyzeResult<T> {
    pub signal: Vec<T>,
    pub f0: Option<Vec<T>>,
    pub spectrogram: Option<SpectrogramLike<T>>,
    pub aperiodicity: Option<SpectrogramLike<T>>,
}

/// The stages computed so far over one signal, each kept once computed.
///
/// A request for a stage is answered with the engine calls still needed, in
/// dependency order; the caller runs them and stores their results, and a
/// stored stage is never replaced, so no stage is computed twice.
pub struct AnalysisCache<T> {
    signal: Vec<T>,
    fs: i32,
    fft_size: i32,
    f0: Option<Vec<T>>,
    temporal_positions: Option<Vec<T>>,
    spectrogram: Option<SpectrogramLike<T>>,
    aperiodicity: Option<SpectrogramLike<T>>,
}

impl<T> AnalysisCache<T> {
    pub closed spec fn spec_signal(&self) -> Seq<T> {
        self.signal@
    }

    pub closed spec fn spec_fs(&self) -> i32 {
        self.fs
    }

    pub closed spec fn spec_fft_size(&self) -> i32 {
        self.fft_size
    }

    /// Which stages are stored.
    pub open spec fn computed(&self) -> Computed {
        Computed {
            f0: self.spec_f0() is Some,
            spectrogram: self.spec_spectrogram() is Some,
            aperiodicity: self.spec_aperiodicity() is Some,
        }
    }

    pub closed spec fn spec_f0(&self) -> Option<Seq<T>> {
        match self.f0 {
            Some(v) => Some(v@),
            None => None,
        }
    }

    pub closed spec fn spec_temporal_positions(&self) -> Option<Seq<T>> {
        match self.temporal_positions {
            Some(v) => Some(v@),
            None => None,
        }
    }

    pub closed spec fn spec_spectrogram(&self) -> Option<SpectrogramLike<T>> {
        self.spectrogram
    }

    pub closed spec fn spec_aperiodicity(&self) -> Option<SpectrogramLike<T>> {
        self.aperiodicity
    }

    /// F0 and temporal positions are stored together, with one entry per
    /// frame; a stored matrix has one row per frame and the width that the
    /// FFT size gives, and is stored only after F0.
    pub closed spec fn wf(&self) -> bool {
        &&& self.signal@.len() <= ENGINE_INT_MAX
        &&& self.fs >= 0
        &&& (self.f0 is Some <==> self.temporal_positions is Some)
        &&& (self.f0 is Some ==> self.f0->0@.len() == self.temporal_positions->0@.len())
        &&& (self.spectrogram is Some ==> self.f0 is Some && self.spectrogram->0.wf()
            && self.spectrogram->0.time_axis() == self.f0->0@.len()
            && self.spectrogram->0.freq_axis() == spectrum_width(self.fft_size as int))
        &&& (self.aperiodicity is Some ==> self.f0 is Some && self.aperiodicity->0.wf()
            && self.aperiodicity->0.time_axis() == self.f0->0@.len()
            && self.aperiodicity->0.freq_axis() == spectrum_width(self.fft_size as int))
    }

    /// What a well-formed analysis guarantees of its stored stages: F0 and
    /// temporal positions are stored together and have equal lengths; a
    /// stored spectrogram or aperiodicity is well formed, has one row per F0
    /// frame and `fft_size / 2 + 1` columns.
    pub proof fn lemma_stages(&self)
        requires
            self.wf(),
        ensures
            self.spec_f0() is Some <==> self.spec_temporal_positions() is Some,
            self.spec_f0() is Some ==> self.spec_f0()->0.len()
                == self.spec_temporal_positions()->0.len(),
            self.spec_spectrogram() matches Some(m) ==> m.wf() && self.fits_stage(m),
            self.spec_aperiodicity() matches Some(m) ==> m.wf() && self.fits_stage(m),
            self.spec_signal().len() <= ENGINE_INT_MAX,
            self.spec_fs() >= 0,
    {
    }

    /// An analysis of `signal` sampled at `fs` Hz, with spectra of FFT size
    /// `fft_size`, and nothing computed yet.
    pub fn new(signal: Vec<T>, fs: u32, fft_size: i32) -> (r: AnalysisCache<T>)
        requires
            signal@.len() <= ENGINE_INT_MAX,
            fs <= ENGINE_INT_MAX,
        ensures
            r.wf(),
            r.spec_signal() == signal@,
            r.spec_fs() == fs,
            r.spec_fft_size() == fft_size,
            r.computed() == none_computed(),
            r.spec_f0() is None,
            r.spec_temporal_positions() is None,
            r.spec_spectrogram() is None,
            r.spec_aperiodicity() is None,
    {
        AnalysisCache {
            signal,
            fs: fs as i32,
            fft_size,
            f0: None,
            temporal_positions: None,
            spectrogram: None,
            aperiodicity: None,
        }
    }

    pub fn signal(&self) -> (r: &[T])
        ensures
            r@ == self.spec_signal(),
    {
        self.signal.as_slice()
    }

    pub fn fs(&self) -> (r: i32)
        ensures
            r == self.spec_fs(),
    {
        self.fs
    }

    pub fn fft_size(&self) -> (r: i32)
        ensures
            r == self.spec_fft_size(),
    {
        self.fft_size
    }

    /// The engine calls that a request for `stage` still needs, in the order
    /// they must run.
    pub fn calls_for(&self, stage: AnalysisStage) -> (r: Vec<AnalysisStage>)
        ensures
            r@ == calls_needed(self.computed(), stage),
    {
        let mut calls: Vec<AnalysisStage> = Vec::new();
        if self.f0.is_none() {
            calls.push(AnalysisStage::F0);
        }
        let missing = match stage {
            AnalysisStage::F0 => false,
            AnalysisStage::Spectrogram => self.spectrogram.is_none(),
            AnalysisStage::Aperiodicity => self.aperiodicity.is_none(),
        };
        if missing {
            calls.push(stage);
        }
        assert(calls@ =~= calls_needed(self.computed(), stage));
        calls
    }

    /// The shape, `(frames, fft_size / 2 + 1)`, of the spectrogram and the
    /// aperiodicity, once F0 is stored and when the FFT size is not negative.
    pub fn envelope_shape(&self) -> (r: Option<(usize, usize)>)
        requires
            self.wf(),
        ensures
            r is Some <==> self.spec_f0() is Some && self.spec_fft_size() >= 0,
            r matches Some((t, f)) ==> t == self.spec_f0()->0.len() && f == spectrum_width(
                self.spec_fft_size() as int,
            ),
    {
        match &self.f0 {
            Some(f0) => if self.fft_size >= 0 {
                Some((f0.len(), (self.fft_size / 2 + 1) as usize))
            } else {
                None
            },
            None => None,
        }
    }

    /// Stores the result of F0 estimation, unless F0 is already stored or the
    /// two sequences differ in length; says whether it stored them.
    pub fn store_f0(&mut self, f0: Vec<T>, temporal_positions: Vec<T>) -> (r: bool)
        requires
            old(self).wf(),
        ensures
            r == (old(self).spec_f0() is None && f0@.len() == temporal_positions@.len()),
            final(self).wf(),
            r ==> final(self).spec_f0() == Some(f0@) && final(self).spec_temporal_positions()
                == Some(temporal_positions@) && final(self).computed() == mark(
                old(self).computed(),
                AnalysisStage::F0,
            ) && final(self).spec_spectrogram() == old(self).spec_spectrogram()
                && final(self).spec_aperiodicity() == old(self).spec_aperiodicity(),
            !r ==> *final(self) == *old(self),
            final(self).spec_signal() == old(self).spec_signal(),
            final(self).spec_fs() == old(self).spec_fs(),
            final(self).spec_fft_size() == old(self).spec_fft_size(),
    {
        if self.f0.is_some() || f0.len() != temporal_positions.len() {
            return false;
        }
        self.f0 = Some(f0);
        self.temporal_positions = Some(temporal_positions);
        true
    }

    /// Whether a matrix may be stored as a stage: F0 is stored, and the matrix
    /// has one row per frame and the width that the FFT size gives.
    pub open spec fn fits_stage(&self, m: SpectrogramLike<T>) -> bool {
        &&& self.spec_f0() is Some
        &&& m.time_axis() == self.spec_f0()->0.len()
        &&& m.freq_axis() == spectrum_width(self.spec_fft_size() as int)
    }

    fn fits(&self, m: &SpectrogramLike<T>) -> (r: bool)
        requires
            self.wf(),
            m.wf(),
        ensures
            r == self.fits_stage(*m),
    {
        proof {
            m.lemma_shape();
        }
        match &self.f0 {
            Some(f0) => m.time_axis_size() == f0.len() && self.fft_size >= 0
                && m.frequency_axis_size() == (self.fft_size as u32 / 2 + 1) as usize,
            None => false,
        }
    }

    /// Stores the spectral envelope, unless it is already stored or does not
    /// fit; says whether it stored it.
    pub fn store_spectrogram(&mut self, spectrogram: SpectrogramLike<T>) -> (r: bool)
        requires
            old(self).wf(),
            spectrogram.wf(),
        ensures
            r == (old(self).spec_spectrogram() is None && old(self).fits_stage(spectrogram)),
            final(self).wf(),
            r ==> final(self).spec_spectrogram() == Some(spectrogram) && final(self).computed()
                == mark(old(self).computed(), AnalysisStage::Spectrogram) && final(self).spec_f0()
                == old(self).spec_f0() && final(self).spec_aperiodicity() == old(
                self,
            ).spec_aperiodicity(),
            !r ==> *final(self) == *old(self),
            final(self).spec_signal() == old(self).spec_signal(),
            final(self).spec_fft_size() == old(self).spec_fft_size(),
            final(self).spec_fs() == old(self).spec_fs(),
            final(self).spec_temporal_positions() == old(self).spec_temporal_positions(),
    {
        if self.spectrogram.is_some() || !self.fits(&spectrogram) {
            return false;
        }
        self.spectrogram = Some(spectrogram);
        true
    }

    /// Stores the aperiodicity, unless it is already stored or does not fit;
    /// says whether it stored it.
    pub fn store_aperiodicity(&mut self, aperiodicity: SpectrogramLike<T>) -> (r: bool)
        requires
            old(self).wf(),
            aperiodicity.wf(),
        ensures
            r == (old(self).spec_aperiodicity() is None && old(self).fits_stage(aperiodicity)),
            final(self).wf(),
            r ==> final(self).spec_aperiodicity() == Some(aperiodicity) && final(self).computed()
                == mark(old(self).computed(), AnalysisStage::Aperiodicity) && final(self).spec_f0()
                == old(self).spec_f0() && final(self).spec_spectrogram() == old(
                self,
            ).spec_spectrogram(),
            !r ==> *final(self) == *old(self),
            final(self).spec_signal() == old(self).spec_signal(),
            final(self).spec_fft_size() == old(self).spec_fft_size(),
            final(self).spec_fs() == old(self).spec_fs(),
            final(self).spec_temporal_positions() == old(self).spec_temporal_positions(),
    {
        if self.aperiodicity.is_some() || !self.fits(&aperiodicity) {
            return false;
        }
        self.aperiodicity = Some(aperiodicity);
        true
    }

    /// The F0 track, when computed.
    pub fn f0(&self) -> (r: Option<&[T]>)
        requires
            self.wf(),
        ensures
            r is Some ==> self.spec_temporal_positions() is Some
                && r->0@.len() == self.spec_temporal_positions()->0.len(),
            r is Some <==> self.spec_f0() is Some,
            r is Some ==> r->0@ == self.spec_f0()->0,
    {
        match &self.f0 {
            Some(v) => Some(v.as_slice()),
            None => None,
        }
    }

    /// The temporal positions of the frames, when computed.
    pub fn temporal_positions(&self) -> (r: Option<&[T]>)
        requires
            self.wf(),
        ensures
            r is Some <==> self.spec_f0() is Some,
            r is Some ==> r->0@.len() == self.spec_f0()->0.len(),
            r is Some <==> self.spec_temporal_positions() is Some,
            r is Some ==> r->0@ == self.spec_temporal_positions()->0,
    {
        match &self.temporal_positions {
            Some(v) => Some(v.as_slice()),
            None => None,
        }
    }

    /// The spectral envelope, when computed.
    pub fn spectrogram(&self) -> (r: Option<&SpectrogramLike<T>>)
        requires
            self.wf(),
        ensures
            r is Some ==> self.fits_stage(*r->0) && r->0.wf(),
            r is Some <==> self.spec_spectrogram() is Some,
            r is Some ==> *r->0 == self.spec_spectrogram()->0,
    {
        match &self.spectrogram {
            Some(m) => Some(m),
            None => None,
        }
    }

    /// The aperiodicity, when computed.
    pub fn aperiodicity(&self) -> (r: Option<&SpectrogramLike<T>>)
        requires
            self.wf(),
        ensures
            r is Some ==> self.fits_stage(*r->0) && r->0.wf(),
            r is Some <==> self.spec_aperiodicity() is Some,
            r is Some ==> *r->0 == self.spec_aperiodicity()->0,
    {
        match &self.aperiodicity {
            Some(m) => Some(m),
            None => None,
        }
    }

    /// The signal and the stages that were computed, and nothing else: no
    /// stage is computed here.
    pub fn into_result(self) -> (r: AnalyzeResult<T>)
        requires
            self.wf(),
        ensures
            r.spectrogram matches Some(m) ==> m.wf() && r.f0 is Some && m.time_axis()
                == r.f0->0@.len() && m.freq_axis() == spectrum_width(self.spec_fft_size() as int),
            r.aperiodicity matches Some(m) ==> m.wf() && r.f0 is Some && m.time_axis()
                == r.f0->0@.len() && m.freq_axis() == spectrum_width(self.spec_fft_size() as int),
            r.signal@ == self.spec_signal(),
            r.f0 is Some <==> self.spec_f0() is Some,
            r.f0 is Some ==> r.f0->0@ == self.spec_f0()->0,
            r.spectrogram == self.spec_spectrogram(),
            r.aperiodicity == self.spec_aperiodicity(),
    {
        AnalyzeResult {
            signal: self.signal,
            f0: self.f0,
            spectrogram: self.spectrogram,
            aperiodicity: self.aperiodicity,
        }
    }
}

/// Once the calls that a request for a stage needs have run, a second request
/// for the same stage needs none: each stage is computed at most once.
pub proof fn lemma_second_request_needs_nothing(done: Computed, stage: AnalysisStage)
    ensures
        calls_needed(mark_all(done, calls_needed(done, stage)), stage) == Seq::<
            AnalysisStage,
        >::empty(),
{
    let calls = calls_needed(done, stage);
    reveal_with_fuel(mark_all, 3);
    if calls.len() == 2 {
        assert(calls.drop_first().drop_first().len() == 0);
    } else if calls.len() == 1 {
        assert(calls.drop_first().len() == 0);
    }
    assert(calls_needed(mark_all(done, calls), stage) =~= Seq::<AnalysisStage>::empty());
}

/// Whether `stage` is among the computed stages.
pub open spec fn is_computed(done: Computed, stage: AnalysisStage) -> bool {
    match stage {
        AnalysisStage::F0 => done.f0,
        AnalysisStage::Spectrogram => done.spectrogram,
        AnalysisStage::Aperiodicity => done.aperiodicity,
    }
}

/// Requesting a stage twice, running what each request needs, calls the
/// engine for F0 once if F0 was missing (never otherwise), for the stage
/// itself once if it was missing (never otherwise), and for no other stage.
/// So from a fresh analysis, two requests for the spectral envelope make
/// exactly one F0 call and one spectral-envelope call.
pub proof fn lemma_requested_twice(done: Computed, stage: AnalysisStage)
    ensures
        ({
            let first = calls_needed(done, stage);
            let second = calls_needed(mark_all(done, first), stage);
            &&& count_calls(first + second, AnalysisStage::F0) == if done.f0 {
                0nat
            } else {
                1nat
            }
            &&& forall|other: AnalysisStage|
                other != AnalysisStage::F0 ==> #[trigger] count_calls(first + second, other) == if other
                    == stage && !is_computed(done, stage) {
                    1nat
                } else {
                    0nat
                }
        }),
{
    let first = calls_needed(done, stage);
    lemma_second_request_needs_nothing(done, stage);
    let second = calls_needed(mark_all(done, first), stage);
    assert(first + second =~= first);
    reveal_with_fuel(count_calls, 3);
    if first.len() == 2 {
        assert(first.drop_first().drop_first().len() == 0);
    } else if first.len() == 1 {
        assert(first.drop_first().len() == 0);
    }
}

} // verus!
