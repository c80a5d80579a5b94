use librespot::sequence::SeqGenerator;

#[test]
fn sequence_counts_up_from_zero() {
    let mut sequence: SeqGenerator<u32> = SeqGenerator::new(0);
    for expected in 0..1000u32 {
        assert_eq!(sequence.get(), expected);
    }
}

#[test]
fn sequence_starts_where_it_is_told() {
    let mut sequence: SeqGenerator<u32> = SeqGenerator::new(41);
    assert_eq!(sequence.get(), 41);
    assert_eq!(sequence.get(), 42);
    assert_eq!(sequence.get(), 43);
}

#[test]
fn sequence_wraps_after_the_largest_u32() {
    let mut sequence: SeqGenerator<u32> = SeqGenerator::new(u32::MAX - 1);
    assert_eq!(sequence.get(), u32::MAX - 1);
    assert_eq!(sequence.get(), u32::MAX);
    assert_eq!(sequence.get(), 0);
    assert_eq!(sequence.get(), 1);
}

#[test]
fn sequence_of_u8_runs_through_its_whole_domain() {
    let mut sequence: SeqGenerator<u8> = SeqGenerator::new(0);
    for expected in 0..=255u8 {
        assert_eq!(sequence.get(), expected);
    }
    assert_eq!(sequence.get(), 0);
    assert_eq!(sequence.get(), 1);
}

#[test]
fn sequence_wraps_in_every_width() {
    let mut narrow: SeqGenerator<u16> = SeqGenerator::new(u16::MAX);
    assert_eq!(narrow.get(), u16::MAX);
    assert_eq!(narrow.get(), 0);
    let mut wide: SeqGenerator<u64> = SeqGenerator::new(u64::MAX);
    assert_eq!(wide.get(), u64::MAX);
    assert_eq!(wide.get(), 0);
}
