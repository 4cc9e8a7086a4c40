use zinder_ingest::bounds::NonZeroU64;
use zinder_ingest::bulk_catchup::watermark::ByteWatermark;

fn watermark(limit: u64) -> ByteWatermark {
    match NonZeroU64::new(limit) {
        Some(limit) => ByteWatermark::new(limit),
        None => panic!("invalid watermark"),
    }
}

#[test]
fn reservation_releases_on_drop() {
    let mut watermark = watermark(100);
    let mut reservation = match watermark.try_reserve(40) {
        Some(reservation) => reservation,
        None => panic!("reservation should fit"),
    };
    assert_eq!(watermark.snapshot().reserved_bytes, 40);
    watermark.release(&mut reservation);
    assert_eq!(watermark.snapshot().reserved_bytes, 0);
}

#[test]
fn reservation_refuses_over_limit_after_first_reservation() {
    let mut watermark = watermark(100);
    let _first = match watermark.try_reserve(80) {
        Some(reservation) => reservation,
        None => panic!("first reservation should fit"),
    };

    assert!(watermark.try_reserve(21).is_none());
    assert_eq!(watermark.snapshot().reserved_bytes, 80);
}

#[test]
fn first_reservation_can_exceed_limit() {
    let mut watermark = watermark(100);
    let _reservation = match watermark.try_reserve(120) {
        Some(reservation) => reservation,
        None => panic!("first reservation should be allowed"),
    };

    assert_eq!(watermark.snapshot().reserved_bytes, 120);
}

#[test]
fn reservation_resize_updates_snapshot() {
    let mut watermark = watermark(100);
    let mut reservation = match watermark.try_reserve(30) {
        Some(reservation) => reservation,
        None => panic!("reservation should fit"),
    };

    watermark.resize(&mut reservation, 70);

    assert_eq!(watermark.snapshot().reserved_bytes, 70);
}

#[test]
fn releasing_twice_gives_nothing_back_twice() {
    let mut watermark = watermark(100);
    let mut first = match watermark.try_reserve(60) {
        Some(reservation) => reservation,
        None => panic!("reservation should fit"),
    };
    let _second = match watermark.try_reserve(40) {
        Some(reservation) => reservation,
        None => panic!("reservation should fit"),
    };
    assert_eq!(watermark.snapshot().reservations, 2);
    watermark.release(&mut first);
    watermark.release(&mut first);
    assert_eq!(watermark.snapshot().reserved_bytes, 40);
    assert_eq!(watermark.snapshot().reservations, 1);
    assert!(first.is_released);
}

#[test]
fn a_reservation_given_back_often_leaves_the_watermark_as_it_was() {
    let mut watermark = watermark(100);
    let _other = match watermark.try_reserve(30) {
        Some(reservation) => reservation,
        None => panic!("reservation should fit"),
    };
    let before = watermark.snapshot();
    for times in 1..4 {
        let mut reservation = match watermark.try_reserve(40) {
            Some(reservation) => reservation,
            None => panic!("reservation should fit"),
        };
        for _ in 0..times {
            watermark.release(&mut reservation);
            assert_eq!(watermark.snapshot(), before);
        }
    }
}
