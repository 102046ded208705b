use mandelbrot_animation::schedule::{frame_progress, FrameSchedule, Progress};

#[test]
fn single_frame_sits_at_the_start() {
    assert_eq!(frame_progress(0, 1), Progress { num: 0, den: 1 });
}

#[test]
fn no_frame_counts_as_the_start() {
    assert_eq!(frame_progress(0, 0), Progress { num: 0, den: 1 });
}

#[test]
fn last_of_three_hundred_sits_at_the_end() {
    let p = frame_progress(299, 300);
    assert_eq!(p, Progress { num: 299, den: 299 });
    assert_eq!(p.num as f64 / p.den as f64, 1.0);
}

#[test]
fn first_of_three_hundred_sits_at_the_start() {
    let p = frame_progress(0, 300);
    assert_eq!(p, Progress { num: 0, den: 299 });
    assert_eq!(p.num as f64 / p.den as f64, 0.0);
}

#[test]
fn progress_grows_with_the_index() {
    let total: u32 = 12;
    let mut before = frame_progress(0, total);
    for k in 1..total {
        let p = frame_progress(k, total);
        assert_eq!(p.den, before.den);
        assert!(p.num > before.num);
        assert!(p.num <= p.den);
        before = p;
    }
}

#[test]
fn schedule_of_no_frames_has_one() {
    let mut s = FrameSchedule::new(0);
    assert_eq!(s.total(), 1);
    assert_eq!(s.emitted(), 0);
    assert!(!s.is_done());
    assert_eq!(s.next_frame(), Some(0));
    assert!(s.is_done());
    assert_eq!(s.next_frame(), None);
}

#[test]
fn schedule_hands_out_each_index_once_in_order() {
    let mut s = FrameSchedule::new(5);
    let mut seen: Vec<u32> = Vec::new();
    while let Some(k) = s.next_frame() {
        seen.push(k);
        assert_eq!(s.emitted(), k + 1);
    }
    assert_eq!(seen, vec![0, 1, 2, 3, 4]);
    assert!(s.is_done());
    assert_eq!(s.total(), 5);
}

#[test]
fn finished_schedule_stays_finished() {
    let mut s = FrameSchedule::new(2);
    assert_eq!(s.next_frame(), Some(0));
    assert_eq!(s.next_frame(), Some(1));
    assert_eq!(s.next_frame(), None);
    assert_eq!(s.next_frame(), None);
    assert_eq!(s.emitted(), 2);
    assert_eq!(s.total(), 2);
}

#[test]
fn longest_schedule_ends() {
    let s = FrameSchedule::new(u32::MAX);
    assert_eq!(s.total(), u32::MAX);
    assert!(!s.is_done());
}
