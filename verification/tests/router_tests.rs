use tts_pipeline::pipeline::{JobEvent, ProgressNote};
use tts_pipeline::router::{RoutedEvent, Router};

fn progress(job: &[u8], permille: u32) -> RoutedEvent {
    RoutedEvent {
        job_id: job.to_vec(),
        event: JobEvent::Progress { permille, note: ProgressNote::Combining },
    }
}

fn take_permille(ev: Option<RoutedEvent>) -> (Vec<u8>, u32) {
    let ev = ev.expect("expected an event");
    match ev.event {
        JobEvent::Progress { permille, .. } => (ev.job_id, permille),
        _ => panic!("expected a progress event"),
    }
}

#[test]
fn events_come_out_in_send_order() {
    let mut r = Router::new();
    assert_eq!(r.pending(), 0);
    r.send(progress(b"a", 1));
    r.send(progress(b"a", 2));
    r.send(progress(b"a", 3));
    assert_eq!(r.pending(), 3);
    assert_eq!(take_permille(r.next()), (b"a".to_vec(), 1));
    assert_eq!(take_permille(r.next()), (b"a".to_vec(), 2));
    assert_eq!(take_permille(r.next()), (b"a".to_vec(), 3));
    assert!(r.next().is_none());
    assert_eq!(r.pending(), 0);
}

#[test]
fn interleaved_jobs_keep_their_own_order() {
    let mut r = Router::new();
    r.send(progress(b"a", 10));
    r.send(progress(b"b", 100));
    r.send(progress(b"a", 20));
    r.send(progress(b"b", 200));
    r.send(progress(b"a", 30));
    let mut for_a = Vec::new();
    let mut for_b = Vec::new();
    while let Some(ev) = r.next() {
        let (job, p) = take_permille(Some(ev));
        if job == b"a".to_vec() {
            for_a.push(p);
        } else {
            for_b.push(p);
        }
    }
    assert_eq!(for_a, vec![10, 20, 30]);
    assert_eq!(for_b, vec![100, 200]);
}

#[test]
fn sends_after_taking_keep_order() {
    let mut r = Router::new();
    r.send(progress(b"a", 1));
    assert_eq!(take_permille(r.next()), (b"a".to_vec(), 1));
    r.send(progress(b"a", 2));
    r.send(progress(b"a", 3));
    assert_eq!(take_permille(r.next()), (b"a".to_vec(), 2));
    assert_eq!(take_permille(r.next()), (b"a".to_vec(), 3));
    assert!(r.next().is_none());
}
