use world::signal_analyzer::{AnalysisCache, AnalysisStage};
use world::spectrogram_like::SpectrogramLike;

/// Runs the engine calls that a request needs, with a stand-in engine that
/// counts its calls.
fn request(cache: &mut AnalysisCache<f64>, stage: AnalysisStage, counts: &mut [usize; 3]) {
    for call in cache.calls_for(stage) {
        match call {
            AnalysisStage::F0 => {
                counts[0] += 1;
                assert!(cache.store_f0(vec![120.0; 5], vec![0.0, 0.005, 0.01, 0.015, 0.02]));
            }
            AnalysisStage::Spectrogram => {
                counts[1] += 1;
                let (t, f) = cache.envelope_shape().unwrap();
                assert!(cache.store_spectrogram(SpectrogramLike::new(t, f)));
            }
            AnalysisStage::Aperiodicity => {
                counts[2] += 1;
                let (t, f) = cache.envelope_shape().unwrap();
                assert!(cache.store_aperiodicity(SpectrogramLike::new(t, f)));
            }
        }
    }
}

#[test]
fn spectrogram_twice_calls_engine_once_per_stage() {
    let mut cache = AnalysisCache::new(vec![0.0; 800], 16000, 64);
    let mut counts = [0usize; 3];
    assert_eq!(cache.calls_for(AnalysisStage::Spectrogram), vec![AnalysisStage::F0, AnalysisStage::Spectrogram]);
    request(&mut cache, AnalysisStage::Spectrogram, &mut counts);
    request(&mut cache, AnalysisStage::Spectrogram, &mut counts);
    assert_eq!(counts, [1, 1, 0]);
    assert!(cache.calls_for(AnalysisStage::Spectrogram).is_empty());
    assert_eq!(cache.calls_for(AnalysisStage::Aperiodicity), vec![AnalysisStage::Aperiodicity]);
    request(&mut cache, AnalysisStage::Aperiodicity, &mut counts);
    request(&mut cache, AnalysisStage::F0, &mut counts);
    assert_eq!(counts, [1, 1, 1]);
}

#[test]
fn f0_only_never_computes_spectra() {
    let mut cache = AnalysisCache::new(vec![0.0; 100], 16000, 64);
    let mut counts = [0usize; 3];
    request(&mut cache, AnalysisStage::F0, &mut counts);
    assert_eq!(counts, [1, 0, 0]);
    assert_eq!(cache.f0().unwrap().len(), 5);
    assert_eq!(cache.temporal_positions().unwrap()[1], 0.005);
    assert!(cache.spectrogram().is_none());
    let result = cache.into_result();
    assert_eq!(result.signal.len(), 100);
    assert_eq!(result.f0.unwrap(), vec![120.0; 5]);
    assert!(result.spectrogram.is_none());
    assert!(result.aperiodicity.is_none());
}

#[test]
fn stages_are_stored_once_and_must_fit() {
    let mut cache = AnalysisCache::<f64>::new(vec![0.0; 10], 8000, 16);
    assert_eq!(cache.envelope_shape(), None);
    assert!(!cache.store_spectrogram(SpectrogramLike::new(3, 9)));
    assert!(!cache.store_f0(vec![1.0; 3], vec![0.0; 2]));
    assert!(cache.store_f0(vec![1.0; 3], vec![0.0; 3]));
    assert!(!cache.store_f0(vec![2.0; 3], vec![0.0; 3]));
    assert_eq!(cache.f0().unwrap(), &[1.0, 1.0, 1.0][..]);
    assert_eq!(cache.envelope_shape(), Some((3, 9)));
    assert!(!cache.store_spectrogram(SpectrogramLike::new(3, 8)));
    assert!(!cache.store_aperiodicity(SpectrogramLike::new(4, 9)));
    assert!(cache.store_spectrogram(SpectrogramLike::new(3, 9)));
    assert!(!cache.store_spectrogram(SpectrogramLike::new(3, 9)));
    assert_eq!(cache.fs(), 8000);
    assert_eq!(cache.fft_size(), 16);
    assert_eq!(cache.signal().len(), 10);
    let result = cache.into_result();
    assert_eq!(result.spectrogram.unwrap().time_axis_size(), 3);
    assert!(result.aperiodicity.is_none());
}

#[test]
fn negative_fft_size_has_no_shape() {
    let mut cache = AnalysisCache::<f64>::new(vec![0.0; 10], 8000, -4);
    assert!(cache.store_f0(vec![1.0; 2], vec![0.0; 2]));
    assert_eq!(cache.envelope_shape(), None);
}

#[test]
fn fresh_analysis_has_no_stages() {
    let cache = AnalysisCache::<f64>::new(vec![0.5; 4], 22050, 1024);
    assert!(cache.f0().is_none());
    assert!(cache.temporal_positions().is_none());
    assert!(cache.spectrogram().is_none());
    assert!(cache.aperiodicity().is_none());
    let result = cache.into_result();
    assert_eq!(result.signal, vec![0.5; 4]);
    assert!(result.f0.is_none());
    assert!(result.spectrogram.is_none());
    assert!(result.aperiodicity.is_none());
}
