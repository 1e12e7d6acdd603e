use interval_timer::sound::{SAMPLE_RATE, SoundFile};

#[test]
fn a_fresh_slot_is_not_ready() {
    let s = SoundFile::new();
    assert!(!s.is_ready());
    assert!(s.samples().is_empty());
    assert_eq!(s.sample_rate(), SAMPLE_RATE);
}

#[test]
fn handed_over_samples_make_it_ready() {
    let mut s = SoundFile::new();
    s.set_samples(vec![1, -1, 2, -2], 22_050);
    assert!(s.is_ready());
    assert_eq!(s.samples(), &vec![1, -1, 2, -2]);
    assert_eq!(s.sample_rate(), 22_050);
}

#[test]
fn readiness_can_be_dropped() {
    let mut s = SoundFile::new();
    s.set_samples(vec![3], 8000);
    s.mark_not_ready();
    assert!(!s.is_ready());
    assert_eq!(s.samples(), &vec![3]);
}
