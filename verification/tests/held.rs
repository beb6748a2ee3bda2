use midi_pc::held::HeldKeys;

#[test]
fn new_is_empty() {
    let hk = HeldKeys::new();
    assert_eq!(hk.snapshot(), Vec::<u8>::new());
    assert_eq!(hk.len(), 0);
}

#[test]
fn add_note_appends_in_order() {
    let mut hk = HeldKeys::new();
    hk.add_note(0);
    hk.add_note(4);
    hk.add_note(7);
    assert_eq!(hk.snapshot(), vec![0, 4, 7]);
}

#[test]
fn duplicate_pitch_classes_are_separate_entries() {
    let mut hk = HeldKeys::new();
    hk.add_note(0);
    hk.add_note(0);
    hk.remove_note(0);
    assert_eq!(hk.len(), 1);
    assert_eq!(hk.snapshot(), vec![0]);
}

#[test]
fn remove_note_removes_exactly_one_match() {
    let mut hk = HeldKeys::new();
    hk.add_note(2);
    hk.add_note(5);
    hk.add_note(2);
    hk.remove_note(2);
    // The first match is overwritten by the last entry, which is dropped.
    assert_eq!(hk.snapshot(), vec![2, 5]);
}

#[test]
fn remove_note_absent_is_noop() {
    let mut hk = HeldKeys::new();
    hk.add_note(3);
    hk.add_note(9);
    hk.remove_note(7);
    assert_eq!(hk.snapshot(), vec![3, 9]);
}

#[test]
fn remove_note_on_empty_is_noop() {
    let mut hk = HeldKeys::new();
    hk.remove_note(0);
    assert_eq!(hk.len(), 0);
}

#[test]
fn snapshot_is_a_fresh_copy() {
    let mut hk = HeldKeys::new();
    hk.add_note(1);
    let snap = hk.snapshot();
    hk.add_note(2);
    assert_eq!(snap, vec![1]);
    assert_eq!(hk.snapshot(), vec![1, 2]);
}
