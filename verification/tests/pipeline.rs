use midi_pc::pipeline::Pipeline;

const OSC_HEADER: [u8; 8] = [0x2F, 0x70, 0x63, 0x00, 0x2C, 0x62, 0x00, 0x00];

#[test]
fn note_on_then_note_on_then_note_off_leaves_one_entry() {
    let mut p = Pipeline::new(false);
    p.process_event(&[0x90, 60, 100]).unwrap();
    p.process_event(&[0x90, 64, 100]).unwrap();
    p.process_event(&[0x80, 60, 0]).unwrap();
    assert_eq!(p.snapshot(), vec![4]);
}

#[test]
fn every_event_yields_a_frame_for_the_current_state() {
    let mut p = Pipeline::new(false);
    let f1 = p.process_event(&[0x90, 60, 100]).unwrap();
    assert_eq!(&f1[..8], &OSC_HEADER);
    assert_eq!(&f1[8..12], &[0, 0, 0, 1]);
    assert_eq!(&f1[12..], &[0, 0, 0, 0]);
    // Non-note traffic changes nothing but still yields a frame.
    let f2 = p.process_event(&[0xB0, 7, 127]).unwrap();
    assert_eq!(f2, f1);
    let f3 = p.process_event(&[0x80, 60, 0]).unwrap();
    assert_eq!(&f3[8..12], &[0, 0, 0, 0]);
    assert_eq!(f3.len(), 12);
}

#[test]
fn forwarding_outcome_never_reaches_the_state_update() {
    // The caller forwards the raw bytes and may fail; the pipeline never
    // learns the outcome, so the frame for the same event and the handling
    // of the next event are unaffected.
    let mut p = Pipeline::new(true);
    assert!(p.should_forward());
    let f1 = p.process_event(&[0x90, 62, 100]).unwrap();
    assert_eq!(&f1[12..], &[2, 0, 0, 0]);
    let f2 = p.process_event(&[0x90, 65, 100]).unwrap();
    assert_eq!(&f2[12..], &[2, 5, 0, 0]);
    assert_eq!(p.snapshot(), vec![2, 5]);
}

#[test]
fn unmatched_note_off_is_a_noop() {
    let mut p = Pipeline::new(false);
    p.process_event(&[0x90, 60, 100]).unwrap();
    p.process_event(&[0x80, 61, 0]).unwrap();
    assert_eq!(p.snapshot(), vec![0]);
}

#[test]
fn short_messages_change_nothing_and_still_emit() {
    let mut p = Pipeline::new(false);
    let f = p.process_event(&[]).unwrap();
    assert_eq!(f.len(), 12);
    assert_eq!(p.held_len(), 0);
}

#[test]
fn rapid_pairs_leave_the_set_empty() {
    let mut p = Pipeline::new(false);
    for _ in 0..1000 {
        p.process_event(&[0x90, 60, 100]).unwrap();
        p.process_event(&[0x80, 60, 0]).unwrap();
    }
    assert_eq!(p.held_len(), 0);
    assert_eq!(p.snapshot(), Vec::<u8>::new());
}
