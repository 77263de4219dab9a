use sherlock::view::{page_switch, PageTransition};
use sherlock::view::{backdrop_edge, Edge};
use sherlock::view::{transition_plan, TransitionStep};
use sherlock::timer::{clock_label, frame_picture, Countdown, Tick, Timer};

#[test]
fn running_timer_counts_to_its_end() {
    let t = Timer { end: Some(1_000), remaining: None, active: true };
    assert_eq!(t.remaining(900, 0), 100);
    assert_eq!(t.remaining(900, 1), 99);
    assert_eq!(t.remaining(1_000, 0), 0);
    assert_eq!(t.remaining(1_000, 5), 0);
    assert_eq!(t.remaining(2_000, 0), 0);
    let none = Timer { end: None, remaining: Some(5), active: true };
    assert_eq!(none.remaining(0, 0), 0);
}

#[test]
fn paused_timer_keeps_its_time() {
    let t = Timer { end: Some(1_000), remaining: Some(300), active: false };
    assert_eq!(t.remaining(900, 0), 300);
    let empty = Timer { end: None, remaining: None, active: false };
    assert_eq!(empty.remaining(0, 0), 0);
}

#[test]
fn countdown_frames_follow_time() {
    let c = Countdown::start(1500, 30);
    assert_eq!(c.frame, 0);
    let c = Countdown::start(0, 30);
    assert_eq!(c.frame, 30);
    let c = Countdown::start(750, 30);
    assert_eq!(c.frame, 15);
}

#[test]
fn countdown_ticks_down_and_finishes() {
    let mut c = Countdown::start(51, 30);
    assert_eq!(c.frame, 29);
    assert_eq!(c.tick(), Tick::Continue { redraw: false });
    assert_eq!(c.remaining, 50);
    assert_eq!(c.frame, 29);
    assert_eq!(c.tick(), Tick::Continue { redraw: true });
    assert_eq!(c.remaining, 49);
    assert_eq!(c.frame, 30);
    let mut d = Countdown::start(0, 30);
    assert_eq!(d.tick(), Tick::Finished);
    assert_eq!(d.remaining, 0);
}

#[test]
fn picture_index_steps_back_one() {
    assert_eq!(frame_picture(0), 0);
    assert_eq!(frame_picture(1), 0);
    assert_eq!(frame_picture(30), 29);
}

#[test]
fn clock_label_pads_to_two_digits() {
    assert_eq!(clock_label(1500), "25:00");
    assert_eq!(clock_label(65), "01:05");
    assert_eq!(clock_label(0), "00:00");
    assert_eq!(clock_label(6000), "100:00");
}

#[test]
fn transition_fades_out_switches_and_fades_in() {
    let plan = transition_plan(480);
    assert_eq!(plan.len(), 55);
    assert_eq!(plan[0], TransitionStep::Opacity(12));
    assert_eq!(plan[1], TransitionStep::Wait(20));
    assert_eq!(plan[24], TransitionStep::Opacity(0));
    assert_eq!(plan[26], TransitionStep::Switch);
    assert_eq!(plan[27], TransitionStep::Wait(40));
    assert_eq!(plan[28], TransitionStep::Opacity(0));
    assert_eq!(plan[52], TransitionStep::Opacity(12));
    assert_eq!(plan[54], TransitionStep::Focus);
    assert!(transition_plan(10).iter().all(|s| !matches!(s, TransitionStep::Wait(w) if *w != 0)));
}

#[test]
fn backdrop_edges_read_in_any_case() {
    assert_eq!(backdrop_edge("BOTTOM"), Edge::Bottom);
    assert_eq!(backdrop_edge("Left"), Edge::Left);
    assert_eq!(backdrop_edge("right"), Edge::Right);
    assert_eq!(backdrop_edge("top"), Edge::Top);
    assert_eq!(backdrop_edge("middle"), Edge::Top);
}

#[test]
fn page_switches_slide_by_direction() {
    assert_eq!(page_switch("search-page->error-page"), Some((PageTransition::SlideRight, "error-page".to_string())));
    assert_eq!(page_switch("error-page->search-page"), Some((PageTransition::SlideLeft, "search-page".to_string())));
    assert_eq!(page_switch("search-page->emoji-page"), Some((PageTransition::SlideLeft, "emoji-page".to_string())));
    assert_eq!(page_switch("emoji-page->search-page"), Some((PageTransition::SlideRight, "search-page".to_string())));
    assert_eq!(page_switch("search-page->display-raw"), Some((PageTransition::SlideRight, "display-raw".to_string())));
    assert_eq!(page_switch("a->b->c"), Some((PageTransition::Cut, "b->c".to_string())));
    assert_eq!(page_switch("search-page"), None);
}
