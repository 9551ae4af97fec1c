use render_core::Area;
use render_core::ViewArea;
use render_core::cx::Cx;
use render_core::entity::CxPassDepOf;
use render_core::entity::CxWindowState;
use render_core::events::AnimArea;
use render_core::events::AnimStart;
use render_core::dispatch::EventHandler;
use render_core::events::Event;
use render_core::events::KeyEvent;

fn view_area(view_id: usize) -> Area {
    Area::View(ViewArea { view_id, redraw_id: 0 })
}

/// Counts events by kind and optionally grabs the key focus when a key
/// goes down.
struct CountingHandler {
    draws: usize,
    frames: usize,
    animates: usize,
    animate_ends: usize,
    key_ups: Vec<u32>,
    focus_changes: Vec<(Area, Area)>,
    grab_focus_on_key_down: Option<Area>,
}

impl CountingHandler {
    fn new() -> CountingHandler {
        CountingHandler {
            draws: 0,
            frames: 0,
            animates: 0,
            animate_ends: 0,
            key_ups: Vec::new(),
            focus_changes: Vec::new(),
            grab_focus_on_key_down: None,
        }
    }
}

impl EventHandler for CountingHandler {
    fn handle(&mut self, cx: &mut Cx, event: &mut Event) {
        match *event {
            Event::Draw => self.draws += 1,
            Event::Frame(_) => self.frames += 1,
            Event::Animate(_) => self.animates += 1,
            Event::AnimateEnded(_) => self.animate_ends += 1,
            Event::KeyUp(ke) => self.key_ups.push(ke.key_code),
            Event::KeyFocus(fe) => self.focus_changes.push((fe.last, fe.focus)),
            Event::KeyDown(_) => {
                if let Some(area) = self.grab_focus_on_key_down.take() {
                    cx.set_key_focus(area);
                }
            },
            _ => {},
        }
    }
}

#[test]
fn dispatch_counts_events_and_synthesizes_focus_change() {
    let mut cx = Cx::default();
    let mut handler = CountingHandler::new();
    handler.grab_focus_on_key_down = Some(view_area(0));
    let before = cx.event_id;
    let mut event = Event::KeyDown(KeyEvent { key_code: 1, is_repeat: false, time: 0 });
    cx.call_event_handler(&mut handler, &mut event);
    assert_eq!(cx.event_id, before + 1);
    assert_eq!(handler.focus_changes.len(), 1);
    assert!(handler.focus_changes[0].0 == Area::Empty);
    assert!(handler.focus_changes[0].1 == view_area(0));
}

#[test]
fn dispatch_without_focus_motion_stays_single() {
    let mut cx = Cx::default();
    let mut handler = CountingHandler::new();
    let mut event = Event::KeyDown(KeyEvent { key_code: 1, is_repeat: false, time: 0 });
    cx.call_event_handler(&mut handler, &mut event);
    assert_eq!(handler.focus_changes.len(), 0);
}

#[test]
fn draw_dispatch_swaps_the_dirty_lists() {
    let mut cx = Cx::default();
    let mut handler = CountingHandler::new();
    cx.redraw_child_area(view_area(0));
    cx.call_draw_event(&mut handler);
    assert_eq!(handler.draws, 1);
    assert!(!cx.is_in_redraw_cycle);
    assert!(cx.redraw_child_areas.is_empty());
    assert!(cx.view_will_redraw(0));
}

#[test]
fn frame_dispatch_swaps_the_callback_list() {
    let mut cx = Cx::default();
    let mut handler = CountingHandler::new();
    cx.next_frame(view_area(0));
    cx.next_frame(view_area(0));
    assert_eq!(cx.frame_callbacks.len(), 1);
    cx.call_frame_event(&mut handler, 16);
    assert_eq!(handler.frames, 1);
    assert_eq!(cx._frame_callbacks.len(), 1);
    assert!(cx.frame_callbacks.is_empty());
}

#[test]
fn animation_dispatch_reports_completions_once() {
    let mut cx = Cx::default();
    let mut handler = CountingHandler::new();
    cx.playing_anim_areas.push(AnimArea {
        area: view_area(0),
        start_time: AnimStart::At(0),
        total_time: 100,
    });
    cx.call_animation_event(&mut handler, 50);
    assert_eq!(handler.animates, 1);
    assert_eq!(handler.animate_ends, 0);
    cx.call_animation_event(&mut handler, 150);
    assert_eq!(handler.animates, 2);
    assert_eq!(handler.animate_ends, 1);
}

#[test]
fn all_keys_up_releases_everything_held() {
    let mut cx = Cx::default();
    let mut handler = CountingHandler::new();
    cx.process_key_down(KeyEvent { key_code: 3, is_repeat: false, time: 0 });
    cx.process_key_down(KeyEvent { key_code: 5, is_repeat: false, time: 0 });
    cx.call_all_keys_up(&mut handler);
    assert_eq!(handler.key_ups, vec![3, 5]);
    assert!(cx.keys_down.is_empty());
}

#[test]
fn fresh_engine_starts_with_expected_state() {
    let cx = Cx::default();
    assert_eq!(cx.views.len(), 1);
    assert_eq!(cx.views[0].nesting_view_id, 0);
    assert_eq!(cx.redraw_id, 1);
    assert_eq!(cx.event_id, 1);
    assert_eq!(cx.signal_id, 1);
    assert_eq!(cx.captured_fingers.len(), 10);
    assert!(!cx.is_in_redraw_cycle);
    assert!(cx.redraw_child_areas.is_empty());
    assert!(cx.playing_anim_areas.is_empty());
}

#[test]
fn view_slots_are_reused_most_recently_freed_first() {
    let mut cx = Cx::default();
    let a = cx.alloc_view(0, 0);
    let b = cx.alloc_view(0, 0);
    assert_eq!((a, b), (1, 2));
    cx.free_view(a);
    cx.free_view(b);
    let c = cx.alloc_view(0, 0);
    assert_eq!(c, b);
    let d = cx.alloc_view(0, 0);
    assert_eq!(d, a);
    let e = cx.alloc_view(0, 0);
    assert_eq!(e, 3);
}

#[test]
fn pass_and_window_slots_are_reused_too() {
    let mut cx = Cx::default();
    let p = cx.alloc_pass(None, CxPassDepOf::Detached);
    cx.free_pass(p);
    let p2 = cx.alloc_pass(None, CxPassDepOf::Detached);
    assert_eq!(p, p2);
    let w = cx.alloc_window(CxWindowState::Create, None);
    cx.free_window(w);
    let w2 = cx.alloc_window(CxWindowState::Created, None);
    assert_eq!(w, w2);
}
