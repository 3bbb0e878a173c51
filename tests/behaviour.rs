use sized_writer::SizedWriter;

#[test]
fn borrowed_writes_that_fit() {
    let mut b = [0u8; 128];
    {
        let mut writer = SizedWriter::from_borrowed(&mut b);
        assert_eq!(writer.write(&[1, 2, 3, 4]), 4);
        assert_eq!(writer.write(&[5, 6, 7, 8, 9]), 5);
        assert_eq!(writer.write_count(), 9);
        assert_eq!(writer.written_bytes(), &[1, 2, 3, 4, 5, 6, 7, 8, 9]);
        assert!(!writer.overflowed());
    }
    assert_eq!(&b[..9], &[1, 2, 3, 4, 5, 6, 7, 8, 9]);
    assert!(b[9..].iter().all(|&x| x == 0));
}

#[test]
fn write_after_clear_overflows_region_of_four() {
    let mut b = [0u8; 4];
    {
        let mut writer = SizedWriter::from_borrowed(&mut b);
        assert_eq!(writer.write(&[1, 2, 3, 4]), 4);
        assert!(!writer.overflowed());
        writer.clear();
        assert_eq!(writer.write_count(), 0);
        assert_eq!(writer.write(&[5, 6, 7, 8, 9]), 4);
        assert!(writer.overflowed());
    }
    assert_eq!(b, [5, 6, 7, 8]);
}

#[test]
fn write_on_full_region_copies_nothing() {
    let mut b = [0u8; 4];
    {
        let mut writer = SizedWriter::from_borrowed(&mut b);
        assert_eq!(writer.write(&[1, 2, 3, 4]), 4);
        assert_eq!(writer.write(&[5, 6, 7, 8, 9]), 0);
        assert_eq!(writer.write_count(), 4);
        assert!(writer.overflowed());
    }
    assert_eq!(b, [1, 2, 3, 4]);
}

#[test]
fn copied_counts_sum_to_capacity() {
    let mut writer = SizedWriter::from_owned([0u8; 6]);
    let counts = [
        writer.write(&[1, 2, 3, 4]),
        writer.write(&[5, 6, 7]),
        writer.write(&[8]),
    ];
    assert_eq!(counts, [4, 2, 0]);
    assert_eq!(counts.iter().sum::<usize>(), 6);
    assert_eq!(writer.write_count(), 6);
    assert!(writer.overflowed());
    assert_eq!(writer.written_bytes(), &[1, 2, 3, 4, 5, 6]);
}

#[test]
fn overflow_raised_when_total_first_exceeds_capacity() {
    let mut writer = SizedWriter::from_owned([0u8; 5]);
    writer.write(&[1, 2]);
    assert!(!writer.overflowed());
    writer.write(&[3, 4, 5]);
    assert!(!writer.overflowed());
    writer.write(&[6]);
    assert!(writer.overflowed());
    assert_eq!(writer.write_count(), 5);
}

#[test]
fn exact_fill_does_not_overflow() {
    let mut writer = SizedWriter::from_owned([0u8; 3]);
    assert_eq!(writer.write(&[7, 8, 9]), 3);
    assert!(!writer.overflowed());
    assert_eq!(writer.write(&[]), 0);
    assert!(!writer.overflowed());
    assert_eq!(writer.write_count(), 3);
}

#[test]
fn empty_write_changes_nothing() {
    let mut writer = SizedWriter::from_owned([0u8; 4]);
    writer.write(&[1, 2]);
    assert_eq!(writer.write(&[]), 0);
    assert_eq!(writer.write_count(), 2);
    assert!(!writer.overflowed());
    writer.write(&[3, 4, 5]);
    assert!(writer.overflowed());
    assert_eq!(writer.write(&[]), 0);
    assert_eq!(writer.write_count(), 4);
    assert!(writer.overflowed());
}

#[test]
fn clear_keeps_overflow_and_bytes() {
    let mut writer = SizedWriter::from_owned([0u8; 2]);
    writer.write(&[1, 2, 3]);
    assert!(writer.overflowed());
    writer.clear();
    assert!(writer.overflowed());
    assert_eq!(writer.write_count(), 0);
    assert_eq!(writer.written_bytes(), &[] as &[u8]);
    writer.write(&[9]);
    assert!(writer.overflowed());
    assert_eq!(writer.into_inner(), [9, 2]);
}

#[test]
fn with_size_is_zero_filled() {
    let mut writer: SizedWriter<[u8; 8]> = SizedWriter::with_size();
    assert_eq!(writer.write_count(), 0);
    assert!(!writer.overflowed());
    writer.write(&[5, 6]);
    assert_eq!(writer.into_inner(), [5, 6, 0, 0, 0, 0, 0, 0]);
}

#[test]
fn reclaimed_region_starts_with_written_bytes() {
    let mut writer = SizedWriter::from_owned([0xAAu8; 6]);
    writer.write(&[1, 2]);
    writer.write(&[3, 4, 5, 6, 7, 8]);
    let count = writer.write_count();
    let region = writer.into_inner();
    assert_eq!(count, 6);
    assert_eq!(&region[..count], &[1, 2, 3, 4, 5, 6]);
}

#[test]
fn new_over_owned_array_keeps_contents() {
    let mut writer = SizedWriter::new([4u8, 4, 4]);
    writer.write(&[1]);
    assert_eq!(writer.written_bytes(), &[1]);
    assert_eq!(writer.into_inner(), [1, 4, 4]);
}

#[test]
fn zero_capacity_region() {
    let mut b: [u8; 0] = [];
    let mut writer = SizedWriter::from_borrowed(&mut b);
    assert_eq!(writer.write(&[]), 0);
    assert!(!writer.overflowed());
    assert_eq!(writer.write(&[1]), 0);
    assert!(writer.overflowed());
    assert_eq!(writer.write_count(), 0);
}
