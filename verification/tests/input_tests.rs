use render_core::Area;
use render_core::ViewArea;
use render_core::cx::Cx;
use render_core::events::KeyEvent;
use render_core::events::Vec2;

fn view_area(view_id: usize) -> Area {
    Area::View(ViewArea { view_id, redraw_id: 0 })
}

fn key(key_code: u32) -> KeyEvent {
    KeyEvent { key_code, is_repeat: false, time: 0 }
}

#[test]
fn tap_counting_chains_and_resets() {
    let mut cx = Cx::default();
    assert_eq!(cx.process_tap_count(0, Vec2 { x: 5, y: 5 }, 0), 1);
    // 300 ms later and about 1.4 units away: the chain continues
    assert_eq!(cx.process_tap_count(0, Vec2 { x: 6, y: 6 }, 300), 2);
    // 700 ms later: too slow, the chain restarts
    assert_eq!(cx.process_tap_count(0, Vec2 { x: 6, y: 6 }, 1000), 1);
}

#[test]
fn tap_counting_resets_on_distance() {
    let mut cx = Cx::default();
    assert_eq!(cx.process_tap_count(1, Vec2 { x: 0, y: 0 }, 0), 1);
    // fast enough, but 15 units away
    assert_eq!(cx.process_tap_count(1, Vec2 { x: 15, y: 0 }, 100), 1);
    // exactly at the distance threshold: 10 units is not "closer than 10"
    assert_eq!(cx.process_tap_count(1, Vec2 { x: 15, y: 10 }, 200), 1);
}

#[test]
fn tap_counting_ignores_out_of_range_slots() {
    let mut cx = Cx::default();
    assert_eq!(cx.process_tap_count(10, Vec2 { x: 0, y: 0 }, 0), 0);
    assert_eq!(cx.finger_tap_count.len(), 10);
    for slot in cx.finger_tap_count.iter() {
        assert_eq!(slot.2, 0);
    }
}

#[test]
fn tap_slots_are_independent() {
    let mut cx = Cx::default();
    assert_eq!(cx.process_tap_count(0, Vec2 { x: 0, y: 0 }, 0), 1);
    assert_eq!(cx.process_tap_count(1, Vec2 { x: 0, y: 0 }, 10), 1);
    assert_eq!(cx.process_tap_count(0, Vec2 { x: 0, y: 0 }, 20), 2);
    assert_eq!(cx.process_tap_count(1, Vec2 { x: 0, y: 0 }, 30), 2);
}

#[test]
fn key_focus_is_set_and_queried() {
    let mut cx = Cx::default();
    let a = view_area(0);
    assert!(!cx.has_key_focus(a));
    cx.set_key_focus(a);
    assert!(cx.has_key_focus(a));
    assert!(!cx.has_key_focus(Area::Empty));
}

#[test]
fn keys_down_deduplicates_by_key_code() {
    let mut cx = Cx::default();
    cx.process_key_down(key(7));
    cx.process_key_down(key(7));
    cx.process_key_down(key(8));
    assert_eq!(cx.keys_down.len(), 2);
    assert_eq!(cx.keys_down[0].key_code, 7);
    assert_eq!(cx.keys_down[1].key_code, 8);
}

#[test]
fn key_up_removes_only_the_matching_entry() {
    let mut cx = Cx::default();
    cx.process_key_down(key(7));
    cx.process_key_down(key(8));
    cx.process_key_up(&key(7));
    assert_eq!(cx.keys_down.len(), 1);
    assert_eq!(cx.keys_down[0].key_code, 8);
    // releasing a key that is not down changes nothing
    cx.process_key_up(&key(9));
    assert_eq!(cx.keys_down.len(), 1);
}
