use obelisk::track::{Track, TrackQueue, TrackSource, SAMPLES_PER_BUF};

#[test]
fn a_track_is_queued_once() {
    let mut q: TrackQueue<u32> = TrackQueue::new();
    q.enqueue_track(Track::WelcomePasscode, vec![1, 2, 3], Some(1));
    q.enqueue_track(Track::InputInvalid, vec![4], None);
    q.enqueue_track(Track::WelcomePasscode, vec![9, 9], Some(2));
    assert_eq!(q.queue.len(), 2);
    assert_eq!(q.queue[0].track, Track::WelcomePasscode);
    assert_eq!(q.queue[0].data, vec![1, 2, 3]);
    assert_eq!(q.queue[0].responder, Some(1));
    assert_eq!(q.queue[1].track, Track::InputInvalid);
}

#[test]
fn stopping_gives_back_the_responder() {
    let mut q: TrackQueue<u32> = TrackQueue::new();
    assert_eq!(q.stop_current_track(), None);
    q.enqueue_track(Track::WelcomeUsage, vec![1, 2], Some(7));
    q.enqueue_track(Track::On, vec![3], None);
    assert_eq!(q.stop_current_track(), Some(7));
    assert_eq!(q.queue.len(), 1);
    assert_eq!(q.queue[0].track, Track::On);
    assert_eq!(q.stop_current_track(), None);
    assert!(q.queue.is_empty());
}

#[test]
fn samples_are_written_front_to_back() {
    let mut q: TrackQueue<&'static str> = TrackQueue::new();
    q.enqueue_track(Track::ConsentInfo, vec![1, 2, 3], Some("first"));
    q.enqueue_track(Track::ConsentAccept, vec![4, 5, 6, 7], Some("second"));
    let mut dst = vec![0i16; 5];
    let done = q.write_samples(&mut dst);
    assert_eq!(dst, vec![1, 2, 3, 4, 5]);
    assert_eq!(done, vec!["first"]);
    assert_eq!(q.queue.len(), 1);
    assert_eq!(q.queue[0].cursor, 2);

    let mut dst = vec![-1i16; 4];
    let done = q.write_samples(&mut dst);
    assert_eq!(dst, vec![6, 7, -1, -1]);
    assert_eq!(done, vec!["second"]);
    assert!(q.queue.is_empty());
}

#[test]
fn an_empty_track_blocks_the_queue() {
    let mut q: TrackQueue<u8> = TrackQueue::new();
    q.enqueue_track(Track::Off, vec![], Some(1));
    q.enqueue_track(Track::On, vec![5, 5], None);
    let mut dst = vec![0i16; 3];
    let done = q.write_samples(&mut dst);
    assert_eq!(dst, vec![0, 0, 0]);
    assert!(done.is_empty());
    assert_eq!(q.queue.len(), 2);
}

#[test]
fn frames_are_padded_with_silence() {
    let mut s: TrackSource<u8> = TrackSource::new();
    s.data.enqueue_track(Track::WelcomeConferenceId, vec![3; 1000], Some(9));
    let (frame, ts, done) = s.next_frame();
    assert_eq!(frame.len(), SAMPLES_PER_BUF as usize);
    assert!(frame[..1000].iter().all(|x| *x == 3));
    assert!(frame[1000..].iter().all(|x| *x == 0));
    assert_eq!(ts, 0);
    assert_eq!(done, vec![9]);
    let (frame, ts, done) = s.next_frame();
    assert!(frame.iter().all(|x| *x == 0));
    assert_eq!(ts, 1920);
    assert!(done.is_empty());
    assert_eq!(s.timestamp, 3840);
}

#[test]
fn timestamp_wraps_around() {
    let mut s: TrackSource<u8> = TrackSource::new();
    s.timestamp = u64::MAX - 100;
    let (_, ts, _) = s.next_frame();
    assert_eq!(ts, u64::MAX - 100);
    assert_eq!(s.timestamp, 1819);
}
