use patchwork::delay::DelayLine;

#[test]
fn written_value_returns_after_len_writes() {
    let mut d: DelayLine<i32> = DelayLine::new(3, 0);
    assert_eq!(d.read(), 0);
    d.write(7);
    d.write(8);
    d.write(9);
    assert_eq!(d.index(), 0);
    assert_eq!(d.read(), 7);
    d.write(10);
    assert_eq!(d.read(), 8);
}

#[test]
fn behind_reads_newest_slot() {
    let mut d = DelayLine::from_vec(vec![1, 2, 3]);
    assert_eq!(d.read_behind(), 3);
    d.write_behind(30);
    assert_eq!(d.index(), 0);
    d.advance();
    assert_eq!(d.read(), 2);
    assert_eq!(d.read_behind(), 1);
    d.advance();
    assert_eq!(d.read(), 30);
    assert_eq!(d.len(), 3);
}

#[test]
fn single_slot_line() {
    let mut d = DelayLine::new(1, 5u8);
    d.write(6);
    assert_eq!(d.index(), 0);
    assert_eq!(d.read(), 6);
    assert_eq!(d.read_behind(), 6);
}
