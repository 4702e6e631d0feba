use fjor::canvas::{Color, IntPoint};
use fjor::sketch::{pace, FrameAction, FrameStep, Hooks, Phase, Sketch, SketchMetrics};

fn make_state() -> Vec<u32> {
    vec![1, 2, 3]
}

fn running() -> Sketch<Vec<u32>> {
    let mut s = Sketch::new(make_state);
    s.begin();
    s
}

#[test]
fn new_sketch_has_defaults() {
    let s = Sketch::new(make_state);
    assert_eq!(s.state(), &vec![1, 2, 3]);
    assert_eq!(s.canvas().width(), 800);
    assert_eq!(s.canvas().height(), 800);
    assert_eq!(s.frame_time(), 33);
    assert_eq!(s.frame_count(), 0);
    assert_eq!(s.delta_time(), 0);
    assert_eq!(s.metrics(), &SketchMetrics::default());
    assert_eq!(s.phase(), Phase::Unconfigured);
    assert!(s.canvas().as_raw_buffer().iter().all(|&v| v == 255));
}

#[test]
fn state_factory_may_be_a_closure() {
    let seed = 41;
    let s = Sketch::new(move || seed + 1);
    assert_eq!(*s.state(), 42);
}

#[test]
fn size_replaces_the_canvas() {
    let s = Sketch::new(make_state).size(30, 20);
    assert_eq!(s.canvas().width(), 30);
    assert_eq!(s.canvas().height(), 20);
    assert_eq!(s.canvas().as_raw_buffer().len(), 30 * 20 * 3);
    assert_eq!(s.phase(), Phase::Configured);
    assert_eq!(s.frame_time(), 33);
}

#[test]
fn fps_sets_the_frame_time_in_whole_milliseconds() {
    assert_eq!(Sketch::new(make_state).fps(10).frame_time(), 100);
    assert_eq!(Sketch::new(make_state).fps(30).frame_time(), 33);
    assert_eq!(Sketch::new(make_state).fps(60).frame_time(), 16);
    assert_eq!(Sketch::new(make_state).fps(1).frame_time(), 1000);
    assert_eq!(Sketch::new(make_state).fps(1000).frame_time(), 1);
    assert_eq!(Sketch::new(make_state).fps(1001).frame_time(), 0);
    assert_eq!(Sketch::new(make_state).fps(usize::MAX).frame_time(), 0);
    assert_eq!(Sketch::new(make_state).fps(25).phase(), Phase::Configured);
}

#[test]
fn new_sketch_has_nothing_registered() {
    let s = Sketch::new(make_state);
    assert_eq!(s.hooks(), Hooks { setup: false, update: false, draw: false, renderer: false });
}

#[test]
fn registering_marks_the_hook_and_the_phase() {
    let s = Sketch::new(make_state).update();
    assert_eq!(s.hooks(), Hooks { setup: false, update: true, draw: false, renderer: false });
    assert_eq!(s.phase(), Phase::Configured);
    let s = s.renderer();
    assert_eq!(s.hooks(), Hooks { setup: false, update: true, draw: false, renderer: true });
    let s = s.setup().draw();
    assert_eq!(s.hooks(), Hooks { setup: true, update: true, draw: true, renderer: true });
    assert_eq!(s.frame_time(), 33);
    assert_eq!(s.canvas().width(), 800);
    assert_eq!(s.state(), &vec![1, 2, 3]);
}

#[test]
fn setup_runs_once_before_the_first_frame() {
    let mut s = Sketch::new(make_state).setup();
    assert!(s.begin());
    assert!(!s.begin());
    s.end_frame(true, 1);
    assert!(!s.begin());
    s.end_frame(false, 1);
    assert!(!s.begin());
}

#[test]
fn setting_a_running_sketch_does_not_ask_for_setup_again() {
    let mut s = Sketch::new(make_state).setup();
    assert!(s.begin());
    let mut s = s.fps(10);
    assert_eq!(s.phase(), Phase::Running);
    assert_eq!(s.frame_time(), 100);
    assert!(!s.begin());
    let mut s = s.size(20, 10).renderer().setup().update().draw();
    assert_eq!(s.phase(), Phase::Running);
    assert_eq!(s.canvas().width(), 20);
    assert!(!s.begin());
    assert_eq!(s.first_step(), Some(FrameStep::Update));
}

#[test]
fn setting_a_stopped_sketch_leaves_it_stopped() {
    let mut s = Sketch::new(make_state).setup();
    s.begin();
    s.end_frame(false, 1);
    assert_eq!(s.phase(), Phase::Stopped);
    let mut s = s.fps(10).size(20, 10).renderer().setup().update().draw();
    assert_eq!(s.phase(), Phase::Stopped);
    assert!(!s.begin());
    assert_eq!(s.phase(), Phase::Stopped);
    assert_eq!(s.first_step(), None);
    assert_eq!(s.end_frame(true, 1), FrameAction::Stop);
}

#[test]
fn setting_a_configured_sketch_leaves_it_configured() {
    let s = Sketch::new(make_state).fps(10).size(20, 10).draw();
    assert_eq!(s.phase(), Phase::Configured);
}

#[test]
fn setup_that_is_not_registered_does_not_run() {
    let mut s = Sketch::new(make_state).update().draw().renderer();
    assert!(!s.begin());
    assert_eq!(s.phase(), Phase::Running);
}

#[test]
fn frame_steps_come_in_order() {
    let mut s = Sketch::new(make_state).draw().renderer().update();
    s.begin();
    assert_eq!(s.first_step(), Some(FrameStep::Update));
    assert_eq!(s.next_step(FrameStep::Update), Some(FrameStep::Draw));
    assert_eq!(s.next_step(FrameStep::Draw), Some(FrameStep::Present));
    assert_eq!(s.next_step(FrameStep::Present), None);
}

#[test]
fn frame_skips_what_is_not_registered() {
    let mut s = Sketch::new(make_state).renderer().update();
    s.begin();
    assert_eq!(s.first_step(), Some(FrameStep::Update));
    assert_eq!(s.next_step(FrameStep::Update), Some(FrameStep::Present));
    let mut t = Sketch::new(make_state).draw();
    t.begin();
    assert_eq!(t.first_step(), Some(FrameStep::Draw));
    assert_eq!(t.next_step(FrameStep::Draw), None);
    assert_eq!(t.next_step(FrameStep::Update), Some(FrameStep::Draw));
    let mut u = Sketch::new(make_state).setup();
    u.begin();
    assert_eq!(u.first_step(), None);
    let mut v = Sketch::new(make_state).renderer();
    v.begin();
    assert_eq!(v.first_step(), Some(FrameStep::Present));
    assert_eq!(v.next_step(FrameStep::Update), Some(FrameStep::Present));
}

#[test]
fn sketch_that_is_not_running_takes_no_step() {
    let mut s = Sketch::new(make_state).update().draw().renderer();
    assert_eq!(s.first_step(), None);
    assert_eq!(s.next_step(FrameStep::Update), None);
    s.begin();
    assert_eq!(s.first_step(), Some(FrameStep::Update));
    s.end_frame(false, 3);
    assert_eq!(s.first_step(), None);
    assert_eq!(s.next_step(FrameStep::Draw), None);
}

#[test]
fn state_and_canvas_can_be_changed() {
    let mut s = Sketch::new(make_state).size(10, 10);
    s.state_mut().push(4);
    assert_eq!(s.state(), &vec![1, 2, 3, 4]);
    s.canvas_mut().draw_point(&IntPoint::new(1, 1));
    assert_eq!(&s.canvas().as_raw_buffer()[33..36], &[0, 0, 0]);
}

#[test]
fn parts_are_borrowed_together() {
    let mut s = Sketch::new(make_state).size(10, 10);
    s.begin();
    s.end_frame(true, 5);
    {
        let (state, metrics) = s.update_parts();
        state.push(metrics.frame_count as u32 + 10);
    }
    assert_eq!(s.state(), &vec![1, 2, 3, 11]);
    {
        let (canvas, state, metrics) = s.draw_parts();
        canvas.stroke(Color::rgb(state.len() as u8, metrics.delta_time as u8, 7));
        canvas.draw_point(&IntPoint::new(0, 0));
    }
    assert_eq!(&s.canvas().as_raw_buffer()[0..3], &[4, 5, 7]);
}

#[test]
fn begin_starts_the_run() {
    let mut s = Sketch::new(make_state);
    s.begin();
    assert_eq!(s.phase(), Phase::Running);
    s.begin();
    assert_eq!(s.phase(), Phase::Running);
    let mut t = Sketch::new(make_state).fps(20);
    t.begin();
    assert_eq!(t.phase(), Phase::Running);
}

#[test]
fn frame_is_counted_and_measured() {
    let mut s = running();
    s.end_frame(true, 20);
    assert_eq!(s.frame_count(), 1);
    assert_eq!(s.delta_time(), 20);
    assert_eq!(s.metrics().frames_per_second, 50);
    s.end_frame(true, 7);
    assert_eq!(s.frame_count(), 2);
    assert_eq!(s.delta_time(), 7);
    assert_eq!(s.metrics().frames_per_second, 142);
    assert_eq!(s.phase(), Phase::Running);
}

#[test]
fn frame_of_no_duration_keeps_the_rate() {
    let mut s = running();
    s.end_frame(true, 0);
    assert_eq!(s.frame_count(), 1);
    assert_eq!(s.delta_time(), 0);
    assert_eq!(s.metrics().frames_per_second, 0);
    s.end_frame(true, 4);
    assert_eq!(s.metrics().frames_per_second, 250);
    s.end_frame(true, 0);
    assert_eq!(s.frame_count(), 3);
    assert_eq!(s.delta_time(), 0);
    assert_eq!(s.metrics().frames_per_second, 250);
}

#[test]
fn rate_of_slow_frames_rounds_down() {
    let m = SketchMetrics::default();
    assert_eq!(m.after_frame(1).frames_per_second, 1000);
    assert_eq!(m.after_frame(3).frames_per_second, 333);
    assert_eq!(m.after_frame(999).frames_per_second, 1);
    assert_eq!(m.after_frame(1000).frames_per_second, 1);
    assert_eq!(m.after_frame(1001).frames_per_second, 0);
    assert_eq!(m.after_frame(u128::MAX).frames_per_second, 0);
    assert_eq!(m.after_frame(u128::MAX).delta_time, u128::MAX);
}

#[test]
fn frame_count_wraps_around() {
    let m = SketchMetrics { frame_count: usize::MAX, delta_time: 3, frames_per_second: 9 };
    let n = m.after_frame(5);
    assert_eq!(n, SketchMetrics { frame_count: 0, delta_time: 5, frames_per_second: 200 });
    let k = SketchMetrics { frame_count: usize::MAX - 1, delta_time: 3, frames_per_second: 9 }.after_frame(0);
    assert_eq!(k, SketchMetrics { frame_count: usize::MAX, delta_time: 0, frames_per_second: 9 });
}

#[test]
fn fast_frame_is_followed_by_a_sleep_for_the_rest() {
    assert_eq!(pace(33, 10), FrameAction::Sleep(23));
    assert_eq!(pace(33, 0), FrameAction::Sleep(33));
    assert_eq!(pace(33, 22), FrameAction::Sleep(11));
    assert_eq!(pace(100, 1), FrameAction::Sleep(99));
    assert_eq!(pace(u64::MAX, 0), FrameAction::Sleep(u64::MAX));
    let mut s = running();
    assert_eq!(s.end_frame(true, 10), FrameAction::Sleep(23));
}

#[test]
fn frame_with_little_to_spare_is_followed_at_once() {
    assert_eq!(pace(33, 23), FrameAction::Next);
    assert_eq!(pace(33, 24), FrameAction::Next);
    assert_eq!(pace(33, 33), FrameAction::Next);
    assert_eq!(pace(10, 0), FrameAction::Next);
    assert_eq!(pace(11, 0), FrameAction::Sleep(11));
    assert_eq!(pace(0, 0), FrameAction::Next);
    let mut s = running();
    assert_eq!(s.end_frame(true, 23), FrameAction::Next);
}

#[test]
fn slow_frame_is_never_made_up_for() {
    assert_eq!(pace(33, 34), FrameAction::Next);
    assert_eq!(pace(33, 5000), FrameAction::Next);
    assert_eq!(pace(33, u128::MAX), FrameAction::Next);
    assert_eq!(pace(33, u64::MAX as u128 + 5), FrameAction::Next);
    let mut s = running();
    assert_eq!(s.end_frame(true, 500), FrameAction::Next);
    assert_eq!(s.end_frame(true, 10), FrameAction::Sleep(23));
}

#[test]
fn sink_that_asks_to_stop_stops_the_sketch() {
    let mut s = running();
    s.end_frame(true, 20);
    assert_eq!(s.end_frame(false, 5), FrameAction::Stop);
    assert_eq!(s.phase(), Phase::Stopped);
    assert_eq!(s.frame_count(), 1);
    assert_eq!(s.delta_time(), 20);
    assert_eq!(s.metrics().frames_per_second, 50);
}

#[test]
fn stopped_sketch_stays_stopped() {
    let mut s = running();
    s.end_frame(false, 5);
    assert_eq!(s.end_frame(true, 5), FrameAction::Stop);
    assert_eq!(s.frame_count(), 0);
    s.begin();
    assert_eq!(s.phase(), Phase::Stopped);
}

#[test]
fn sketch_that_was_not_begun_runs_no_frame() {
    let mut s = Sketch::new(make_state);
    assert_eq!(s.end_frame(true, 5), FrameAction::Stop);
    assert_eq!(s.phase(), Phase::Unconfigured);
    assert_eq!(s.frame_count(), 0);
    assert_eq!(s.metrics(), &SketchMetrics::default());
}
