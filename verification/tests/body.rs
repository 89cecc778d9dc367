use bytes::Bytes;
use cyclingbody::CyclingBody;
use cyclingbody::CyclingBodySource;
use cyclingbody::Emission;
use cyclingbody::LoopLimit;
use cyclingbody::Tick;
use std::time::Duration;

fn body_of(frames: &[&[u8]], limit: Option<LoopLimit>) -> CyclingBody {
    let frames: Vec<Vec<u8>> = frames.iter().map(|frame| frame.to_vec()).collect();
    CyclingBody::from(CyclingBodySource::from_vecs(frames, Duration::from_millis(100), limit).unwrap())
}

fn tick(body: &mut CyclingBody) -> Option<Bytes> {
    match body.poll_next(Tick::Fired) {
        Emission::Frame(frame) => Some(frame),
        Emission::End => None,
        Emission::Pending => panic!("a fired tick cannot leave the body pending"),
    }
}

#[test]
fn two_frames_two_passes() {
    let source = CyclingBodySource::from_vecs(
        vec![b"A".to_vec(), b"BB".to_vec()],
        Duration::from_millis(100),
        LoopLimit::new(2),
    )
    .unwrap();
    assert_eq!(source.aggregate_size(), 3);
    assert_eq!(source.wait(), Duration::from_millis(100));
    let mut body = CyclingBody::from(source);
    assert_eq!(body.size_hint(), Some(6));
    assert_eq!(tick(&mut body).as_deref(), Some(&b"A"[..]));
    assert_eq!(tick(&mut body).as_deref(), Some(&b"BB"[..]));
    assert_eq!(tick(&mut body).as_deref(), Some(&b"A"[..]));
    assert_eq!(tick(&mut body).as_deref(), Some(&b"BB"[..]));
    assert_eq!(tick(&mut body), None);
    assert!(body.is_exhausted());
    assert_eq!(body.size_hint(), Some(6));
}

#[test]
fn one_frame_without_limit_a_thousand_times() {
    let mut body = body_of(&[b"X"], None);
    for _ in 0..1000 {
        assert_eq!(tick(&mut body).as_deref(), Some(&b"X"[..]));
        assert!(!body.is_exhausted());
        assert!(!body.is_end_stream());
    }
}

#[test]
fn limited_body_emits_limit_times_len_frames_in_order_then_ends() {
    let frames: [&[u8]; 3] = [b"zero", b"one", b"two"];
    for limit in 1..=5usize {
        let mut body = body_of(&frames, LoopLimit::new(limit));
        for k in 0..limit * frames.len() {
            assert_eq!(body.cursor(), k % frames.len());
            assert_eq!(body.loop_count(), k / frames.len());
            assert!(!body.is_exhausted());
            assert_eq!(tick(&mut body).as_deref(), Some(frames[k % frames.len()]));
        }
        for _ in 0..10 {
            assert!(body.is_exhausted());
            assert_eq!(tick(&mut body), None);
            assert_eq!(body.cursor(), 0);
            assert_eq!(body.loop_count(), limit);
        }
    }
}

#[test]
fn unlimited_body_cycles_in_order() {
    let frames: [&[u8]; 4] = [b"a", b"bb", b"", b"dddd"];
    let mut body = body_of(&frames, None);
    for k in 0..403usize {
        assert_eq!(body.cursor(), k % 4);
        assert_eq!(body.loop_count(), k / 4);
        assert_eq!(tick(&mut body).as_deref(), Some(frames[k % 4]));
    }
}

#[test]
fn a_pending_timer_emits_nothing_and_moves_nothing() {
    let mut body = body_of(&[b"one", b"two"], LoopLimit::new(1));
    for _ in 0..5 {
        assert!(matches!(body.poll_next(Tick::Pending), Emission::Pending));
        assert_eq!(body.cursor(), 0);
        assert_eq!(body.loop_count(), 0);
    }
    assert_eq!(tick(&mut body).as_deref(), Some(&b"one"[..]));
    assert!(matches!(body.poll_next(Tick::Pending), Emission::Pending));
    assert_eq!(body.cursor(), 1);
    assert_eq!(tick(&mut body).as_deref(), Some(&b"two"[..]));
    assert!(matches!(body.poll_next(Tick::Pending), Emission::Pending));
    assert!(body.is_exhausted());
    assert_eq!(tick(&mut body), None);
}

#[test]
fn a_late_tick_still_yields_one_frame() {
    let mut body = body_of(&[b"1", b"2", b"3"], None);
    assert_eq!(tick(&mut body).as_deref(), Some(&b"1"[..]));
    let began = std::time::Instant::now();
    while began.elapsed() < Duration::from_millis(30) {
        assert!(matches!(body.poll_next(Tick::Pending), Emission::Pending));
    }
    assert_eq!(tick(&mut body).as_deref(), Some(&b"2"[..]));
    assert_eq!(body.cursor(), 2);
    assert_eq!(tick(&mut body).as_deref(), Some(&b"3"[..]));
}

#[test]
fn a_dropped_body_leaves_the_source_as_it_was() {
    let source = CyclingBodySource::from_vecs(
        vec![b"A".to_vec(), b"BB".to_vec(), b"CCC".to_vec()],
        Duration::from_millis(100),
        LoopLimit::new(2),
    )
    .unwrap();
    let mut first = CyclingBody::from(source.clone());
    assert_eq!(tick(&mut first).as_deref(), Some(&b"A"[..]));
    assert_eq!(tick(&mut first).as_deref(), Some(&b"BB"[..]));
    drop(first);

    assert_eq!(source.len(), 3);
    assert_eq!(source.aggregate_size(), 6);
    let mut second = CyclingBody::from(source);
    assert_eq!(second.cursor(), 0);
    assert_eq!(second.loop_count(), 0);
    assert_eq!(tick(&mut second).as_deref(), Some(&b"A"[..]));
}

#[test]
fn bodies_of_one_source_run_independently() {
    let source =
        CyclingBodySource::from_vecs(vec![b"x".to_vec(), b"y".to_vec()], Duration::ZERO, None)
            .unwrap();
    let mut left = CyclingBody::from(source.clone());
    let mut right = CyclingBody::from(source);
    assert_eq!(tick(&mut left).as_deref(), Some(&b"x"[..]));
    assert_eq!(tick(&mut left).as_deref(), Some(&b"y"[..]));
    assert_eq!(tick(&mut left).as_deref(), Some(&b"x"[..]));
    assert_eq!(tick(&mut right).as_deref(), Some(&b"x"[..]));
    assert_eq!(left.cursor(), 1);
    assert_eq!(right.cursor(), 1);
    assert_eq!(left.loop_count(), 1);
    assert_eq!(right.loop_count(), 0);
}

#[test]
fn size_hint_is_aggregate_size_times_limit() {
    let body = body_of(&[b"12345", b"678"], LoopLimit::new(1000));
    assert_eq!(body.size_hint(), Some(8000));
    let body = body_of(&[b"", b""], LoopLimit::new(9));
    assert_eq!(body.size_hint(), Some(0));
    let body = body_of(&[b"seven77"], LoopLimit::new(1));
    assert_eq!(body.size_hint(), Some(7));
}

#[test]
fn size_hint_is_unknown_without_a_limit() {
    let body = body_of(&[b"12345", b"678"], None);
    assert_eq!(body.size_hint(), None);
}

#[test]
fn size_hint_is_unknown_where_the_total_does_not_fit() {
    let most = u64::try_from(usize::MAX).unwrap();
    let one = body_of(&[b"1"], LoopLimit::new(usize::MAX));
    assert_eq!(one.size_hint(), Some(most));
    let big = vec![vec![0u8; 1 << 16], vec![0u8; 1 << 16]];
    let limit = usize::MAX >> 16;
    let body = CyclingBody::from(
        CyclingBodySource::from_vecs(big, Duration::ZERO, LoopLimit::new(limit)).unwrap(),
    );
    match (1u64 << 17).checked_mul(u64::try_from(limit).unwrap()) {
        Some(total) => assert_eq!(body.size_hint(), Some(total)),
        None => assert_eq!(body.size_hint(), None),
    }
    if usize::BITS == 64 {
        let two = body_of(&[b"12"], LoopLimit::new(usize::MAX));
        assert_eq!(two.size_hint(), None);
        let edge = body_of(&[b"123"], LoopLimit::new(usize::MAX / 3));
        assert_eq!(edge.size_hint(), Some(u64::MAX));
        let over = body_of(&[b"123"], LoopLimit::new(usize::MAX / 3 + 1));
        assert_eq!(over.size_hint(), None);
    }
}

#[test]
fn the_end_is_never_announced_ahead_of_time() {
    let mut body = body_of(&[b"only"], LoopLimit::new(1));
    assert!(!body.is_end_stream());
    assert_eq!(tick(&mut body).as_deref(), Some(&b"only"[..]));
    assert!(!body.is_end_stream());
    assert_eq!(tick(&mut body), None);
    assert!(!body.is_end_stream());
}
