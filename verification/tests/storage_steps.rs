use opensprig_rs::storage::{ChunkStep, ChunkedRead, DirWalk, DummyTimesource};

#[test]
fn timesource_gives_the_start_of_1970() {
    let t = DummyTimesource::default().get_timestamp();
    assert_eq!(
        (t.year_since_1970, t.zero_indexed_month, t.zero_indexed_day, t.hours, t.minutes, t.seconds),
        (0, 0, 0, 0, 0, 0)
    );
}

#[test]
fn dir_walk_opens_inside_the_previous_and_closes_all_but_the_last() {
    let mut w = DirWalk::new(100u32);
    assert_eq!(w.parent(), 100);
    assert_eq!(w.innermost(), None);
    assert!(w.to_close().is_empty());
    w.opened(1);
    assert_eq!(w.parent(), 1);
    w.opened(2);
    w.opened(3);
    assert_eq!(w.parent(), 3);
    assert_eq!(w.innermost(), Some(3));
    assert_eq!(w.to_close(), vec![2, 1]);
}

#[test]
fn chunked_read_hands_out_offsets_and_stops() {
    let mut r = ChunkedRead::new(4);
    assert_eq!(r.after_read(4), ChunkStep::Deliver { at: 0, len: 4, last: false });
    assert_eq!(r.after_read(4), ChunkStep::Deliver { at: 4, len: 4, last: false });
    assert_eq!(r.after_read(3), ChunkStep::Deliver { at: 8, len: 3, last: true });
    assert_eq!(r.total(), 11);
    let mut e = ChunkedRead::new(4);
    assert_eq!(e.after_read(0), ChunkStep::Finish);
    assert_eq!(e.total(), 0);
}
