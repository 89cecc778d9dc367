use bytes::Bytes;
use cyclingbody::CyclingBody;
use cyclingbody::CyclingBodySource;
use cyclingbody::Emission;
use cyclingbody::LoopLimit;
use cyclingbody::Tick;
use std::time::Duration;

#[test]
fn frames_leave_one_wait_apart() {
    let wait = Duration::from_millis(100);
    let source =
        CyclingBodySource::from_vecs(vec![b"A".to_vec(), b"BB".to_vec()], wait, LoopLimit::new(2))
            .unwrap();
    let runtime = tokio::runtime::Builder::new_current_thread()
        .enable_time()
        .build()
        .unwrap();
    let (seen, ended) = runtime.block_on(async {
        let began = tokio::time::Instant::now();
        let mut timer = tokio::time::interval_at(began, source.wait());
        let mut body = CyclingBody::from(source);
        let mut seen: Vec<(Duration, Bytes)> = Vec::new();
        loop {
            timer.tick().await;
            match body.poll_next(Tick::Fired) {
                Emission::Frame(frame) => seen.push((began.elapsed(), frame)),
                Emission::End => break,
                Emission::Pending => unreachable!(),
            }
        }
        (seen, began.elapsed())
    });
    let frames: Vec<&[u8]> = seen.iter().map(|(_, frame)| &frame[..]).collect();
    assert_eq!(frames, [&b"A"[..], b"BB", b"A", b"BB"]);
    for (k, (at, _)) in seen.iter().enumerate() {
        let due = wait * u32::try_from(k).unwrap();
        assert!(*at >= due, "frame {k} left at {at:?}, before {due:?}");
        assert!(*at < due + Duration::from_secs(5), "frame {k} left at {at:?}");
    }
    assert!(ended >= wait * 4);
}

#[test]
fn a_dropped_timer_fires_no_more() {
    let wait = Duration::from_millis(20);
    let source =
        CyclingBodySource::from_vecs(vec![b"A".to_vec(), b"BB".to_vec()], wait, None).unwrap();
    let runtime = tokio::runtime::Builder::new_current_thread()
        .enable_time()
        .build()
        .unwrap();
    let emitted = runtime.block_on(async {
        let mut timer = tokio::time::interval_at(tokio::time::Instant::now(), source.wait());
        let mut body = CyclingBody::from(source.clone());
        let mut emitted = 0;
        while emitted < 2 {
            timer.tick().await;
            if let Emission::Frame(_) = body.poll_next(Tick::Fired) {
                emitted += 1;
            }
        }
        drop(timer);
        drop(body);
        tokio::time::sleep(wait * 5).await;
        emitted
    });
    assert_eq!(emitted, 2);
    let mut fresh = CyclingBody::from(source);
    assert_eq!(fresh.cursor(), 0);
    assert!(matches!(fresh.poll_next(Tick::Fired), Emission::Frame(f) if &f[..] == b"A"));
}
