use world::spectrogram_like::SpectrogramLike;
use world::synthesis::{validate_synthesis, EngineAction, EngineEvent, SynthesisError, Synthesizer};

fn track(frames: usize, width: usize) -> (Vec<f64>, SpectrogramLike<f64>, SpectrogramLike<f64>) {
    (vec![100.0; frames], SpectrogramLike::new(frames, width), SpectrogramLike::new(frames, width))
}

#[test]
fn validate_derives_fft_size() {
    let (f0, sp, ap) = track(4, 513);
    assert_eq!(validate_synthesis(&f0, &sp, &ap, None, 16000, 320), Ok(1024));
    assert_eq!(validate_synthesis(&f0, &sp, &ap, Some(1024), 16000, 320), Ok(1024));
    assert_eq!(validate_synthesis(&f0, &sp, &ap, Some(1025), 16000, 320), Ok(1025));
}

#[test]
fn validate_reports_each_error() {
    let (f0, sp, ap) = track(4, 513);
    let short = vec![100.0; 3];
    assert_eq!(validate_synthesis(&short, &sp, &ap, None, 16000, 320), Err(SynthesisError::DifferentSizeInput));
    let ap_narrow = SpectrogramLike::<f64>::new(4, 257);
    assert_eq!(validate_synthesis(&f0, &sp, &ap_narrow, None, 16000, 320), Err(SynthesisError::DifferentSizeInput));
    let ap_long = SpectrogramLike::<f64>::new(5, 513);
    assert_eq!(validate_synthesis(&f0, &sp, &ap_long, None, 16000, 320), Err(SynthesisError::DifferentSizeInput));
    assert_eq!(validate_synthesis(&f0, &sp, &ap, None, 1 << 31, 320), Err(SynthesisError::TooLargeValue));
    assert_eq!(validate_synthesis(&f0, &sp, &ap, None, 16000, 1 << 31), Err(SynthesisError::TooLargeValue));
    assert_eq!(validate_synthesis(&f0, &sp, &ap, Some(512), 16000, 320), Err(SynthesisError::InvalidFFTSize));
    assert_eq!(validate_synthesis(&f0, &sp, &ap, Some(-1024), 16000, 320), Err(SynthesisError::InvalidFFTSize));
}

#[test]
fn error_messages() {
    assert_eq!(SynthesisError::DifferentSizeInput.message(), "Different size input");
    assert_eq!(SynthesisError::TooLargeValue.message(), "Too large value");
    assert_eq!(SynthesisError::InvalidFFTSize.message(), "invalid fft size");
}

#[test]
fn add_with_mismatched_frames_keeps_queue() {
    let mut synth = Synthesizer::<f64>::new(1024);
    let (f0, sp, ap) = track(4, 513);
    assert_eq!(synth.add(&f0, &sp, &ap), Ok(()));
    assert_eq!(synth.step(EngineEvent::Submitted(true)), EngineAction::Synthesize);
    assert_eq!(synth.step(EngineEvent::Synthesized(true)), EngineAction::Collect);
    assert_eq!(synth.collect(&[1.0, 2.0]), EngineAction::CheckLock);
    let short = vec![100.0; 3];
    assert_eq!(synth.add(&short, &sp, &ap), Err(SynthesisError::DifferentSizeInput));
    assert_eq!(synth.len(), 2);
    assert_eq!(synth.take_signal_all(), vec![1.0, 2.0]);
}

#[test]
fn add_reports_fft_mismatch() {
    let mut synth = Synthesizer::<f64>::new(512);
    let (f0, sp, ap) = track(4, 513);
    assert_eq!(synth.add(&f0, &sp, &ap), Err(SynthesisError::InvalidFFTSize));
    assert_eq!(synth.fft_size(), 512);
}

#[test]
fn protocol_refreshes_a_locked_buffer_and_drains() {
    let mut synth = Synthesizer::<i32>::new(8);
    let (f0, sp, ap) = (vec![0; 2], SpectrogramLike::<i32>::new(2, 5), SpectrogramLike::<i32>::new(2, 5));
    assert_eq!(synth.add(&f0, &sp, &ap), Ok(()));
    // The engine has no room: a step, its chunk, a lock check and a refresh come first.
    assert_eq!(synth.step(EngineEvent::Submitted(false)), EngineAction::Synthesize);
    assert_eq!(synth.step(EngineEvent::Synthesized(true)), EngineAction::Collect);
    assert_eq!(synth.collect(&[1, 2, 3]), EngineAction::CheckLock);
    assert_eq!(synth.step(EngineEvent::Locked(true)), EngineAction::Refresh);
    assert_eq!(synth.step(EngineEvent::Refreshed), EngineAction::Submit);
    // An answer that does not belong to the pending action changes nothing.
    assert_eq!(synth.step(EngineEvent::Refreshed), EngineAction::Submit);
    assert_eq!(synth.step(EngineEvent::Submitted(true)), EngineAction::Synthesize);
    assert_eq!(synth.step(EngineEvent::Synthesized(true)), EngineAction::Collect);
    assert_eq!(synth.collect(&[4]), EngineAction::CheckLock);
    assert_eq!(synth.step(EngineEvent::Locked(false)), EngineAction::Synthesize);
    assert_eq!(synth.step(EngineEvent::Synthesized(false)), EngineAction::CheckLock);
    assert_eq!(synth.step(EngineEvent::Locked(true)), EngineAction::Refresh);
    assert_eq!(synth.step(EngineEvent::Refreshed), EngineAction::Done);
    assert_eq!(synth.step(EngineEvent::Synthesized(true)), EngineAction::Done);
    assert_eq!(synth.collect(&[9, 9]), EngineAction::Done);
    assert_eq!(synth.take_signal_all(), vec![1, 2, 3, 4]);
}

fn filled(samples: &[i32]) -> Synthesizer<i32> {
    let mut synth = Synthesizer::<i32>::new(8);
    let (f0, sp, ap) = (vec![0; 1], SpectrogramLike::<i32>::new(1, 5), SpectrogramLike::<i32>::new(1, 5));
    synth.add(&f0, &sp, &ap).unwrap();
    synth.step(EngineEvent::Submitted(true));
    synth.step(EngineEvent::Synthesized(true));
    synth.collect(samples);
    synth
}

#[test]
fn take_signal_exact_and_short() {
    let mut synth = filled(&[1, 2, 3, 4, 5]);
    assert_eq!(synth.take_signal(3), vec![1, 2, 3]);
    assert_eq!(synth.len(), 2);
    assert_eq!(synth.take_signal(10), vec![4, 5]);
    assert_eq!(synth.len(), 0);
    assert_eq!(synth.take_signal(1), Vec::<i32>::new());
    assert_eq!(synth.take_signal_all(), Vec::<i32>::new());
}

#[test]
fn split_takes_match_one_take() {
    let mut a = filled(&[1, 2, 3, 4, 5, 6]);
    let mut b = filled(&[1, 2, 3, 4, 5, 6]);
    let mut two = a.take_signal(2);
    two.extend(a.take_signal(3));
    assert_eq!(two, b.take_signal(5));
    assert_eq!(a.take_signal_all(), b.take_signal_all());
}
