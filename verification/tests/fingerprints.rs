use host::fingerprint::Fingerprint;

#[test]
fn fingerprint_from_eight_words() {
    let words = vec![1u32, 2, 3, 4, 5, 6, 7, 8];
    let f = Fingerprint::from_words(&words).expect("eight words make a fingerprint");
    assert_eq!(f.words, [1, 2, 3, 4, 5, 6, 7, 8]);
    assert_eq!(f, Fingerprint::new([1, 2, 3, 4, 5, 6, 7, 8]));
}

#[test]
fn fingerprint_refuses_other_lengths() {
    assert_eq!(Fingerprint::from_words(&vec![]), None);
    assert_eq!(Fingerprint::from_words(&vec![0]), None);
    assert_eq!(Fingerprint::from_words(&vec![1, 2, 3, 4, 5, 6, 7]), None);
    assert_eq!(Fingerprint::from_words(&vec![1, 2, 3, 4, 5, 6, 7, 8, 9]), None);
}

#[test]
fn fingerprint_words_round_trip() {
    let f = Fingerprint::new([0xffff_ffff, 0, 7, 0x8000_0000, 5, 6, 7, 8]);
    let words = f.to_words();
    assert_eq!(words, vec![0xffff_ffff, 0, 7, 0x8000_0000, 5, 6, 7, 8]);
    assert_eq!(Fingerprint::from_words(&words), Some(f));
}

#[test]
fn fingerprint_comparison_is_exact() {
    let a = Fingerprint::new([1, 2, 3, 4, 5, 6, 7, 8]);
    let b = Fingerprint::new([1, 2, 3, 4, 5, 6, 7, 8]);
    let c = Fingerprint::new([1, 2, 3, 4, 5, 6, 7, 9]);
    let d = Fingerprint::new([0, 2, 3, 4, 5, 6, 7, 8]);
    assert!(a.same(&b));
    assert!(!a.same(&c));
    assert!(!a.same(&d));
    assert!(!c.same(&d));
}
