use render_core::Area;
use render_core::ViewArea;
use render_core::cx::Cx;
use render_core::events::AnimArea;
use render_core::events::AnimStart;

fn anim(view_id: usize, start_time: AnimStart, total_time: i64) -> AnimArea {
    AnimArea { area: Area::View(ViewArea { view_id, redraw_id: 0 }), start_time, total_time }
}

#[test]
fn elapsed_sentinel_retires_on_next_advance() {
    let mut cx = Cx::default();
    cx.playing_anim_areas.push(anim(0, AnimStart::Elapsed, 1_000_000));
    cx.check_ended_anim_areas(5);
    assert_eq!(cx.playing_anim_areas.len(), 0);
    assert_eq!(cx.ended_anim_areas.len(), 1);
    assert!(matches!(cx.ended_anim_areas[0].start_time, AnimStart::Elapsed));
}

#[test]
fn running_animation_is_kept_until_its_time_is_up() {
    let mut cx = Cx::default();
    cx.playing_anim_areas.push(anim(0, AnimStart::At(0), 100));
    cx.check_ended_anim_areas(50);
    assert_eq!(cx.playing_anim_areas.len(), 1);
    assert_eq!(cx.ended_anim_areas.len(), 0);
    cx.check_ended_anim_areas(100);
    assert_eq!(cx.playing_anim_areas.len(), 0);
    assert_eq!(cx.ended_anim_areas.len(), 1);
}

#[test]
fn scan_keeps_survivor_order_and_replaces_ended_list() {
    let mut cx = Cx::default();
    cx.playing_anim_areas.push(anim(1, AnimStart::At(0), 10));
    cx.playing_anim_areas.push(anim(2, AnimStart::At(0), 500));
    cx.playing_anim_areas.push(anim(3, AnimStart::Elapsed, 500));
    cx.playing_anim_areas.push(anim(4, AnimStart::At(0), 600));
    cx.check_ended_anim_areas(100);
    assert_eq!(cx.playing_anim_areas.len(), 2);
    assert!(cx.playing_anim_areas[0] == anim(2, AnimStart::At(0), 500));
    assert!(cx.playing_anim_areas[1] == anim(4, AnimStart::At(0), 600));
    assert_eq!(cx.ended_anim_areas.len(), 2);
    assert!(cx.ended_anim_areas[0] == anim(1, AnimStart::At(0), 10));
    assert!(cx.ended_anim_areas[1] == anim(3, AnimStart::Elapsed, 500));
    // the ended list reports this tick only: a second scan replaces it
    cx.check_ended_anim_areas(2_000);
    assert_eq!(cx.ended_anim_areas.len(), 2);
    assert!(cx.ended_anim_areas[0] == anim(2, AnimStart::At(0), 500));
    assert!(cx.ended_anim_areas[1] == anim(4, AnimStart::At(0), 600));
    assert_eq!(cx.playing_anim_areas.len(), 0);
}

#[test]
fn rebinding_repoints_every_cross_cutting_reference() {
    let mut cx = Cx::default();
    let old_area = Area::View(ViewArea { view_id: 3, redraw_id: 0 });
    let new_area = Area::View(ViewArea { view_id: 7, redraw_id: 0 });
    cx.playing_anim_areas.push(AnimArea {
        area: old_area,
        start_time: AnimStart::At(0),
        total_time: 10,
    });
    cx.captured_fingers[2] = old_area;
    cx.set_key_focus(old_area);
    cx.next_frame(old_area);
    cx.update_area_refs(old_area, new_area);
    assert!(cx.playing_anim_areas[0].area == new_area);
    assert!(cx.captured_fingers[2] == new_area);
    assert!(cx.has_key_focus(new_area));
    assert!(cx.frame_callbacks[0] == new_area);
}

#[test]
fn rebinding_empty_or_all_is_a_no_op() {
    let mut cx = Cx::default();
    let somewhere = Area::View(ViewArea { view_id: 5, redraw_id: 0 });
    cx.captured_fingers[0] = Area::Empty;
    cx.update_area_refs(Area::Empty, somewhere);
    assert!(cx.captured_fingers[0] == Area::Empty);
    cx.update_area_refs(Area::All, somewhere);
    assert!(cx.captured_fingers[0] == Area::Empty);
}

#[test]
fn rebinding_repoints_every_match_in_a_list() {
    let mut cx = Cx::default();
    let old_area = Area::View(ViewArea { view_id: 3, redraw_id: 0 });
    let other = Area::View(ViewArea { view_id: 5, redraw_id: 0 });
    let new_area = Area::View(ViewArea { view_id: 7, redraw_id: 0 });
    // two fingers captured the same widget
    cx.captured_fingers[1] = old_area;
    cx.captured_fingers[4] = old_area;
    cx.captured_fingers[6] = other;
    // two animations in flight on the same area
    cx.playing_anim_areas.push(AnimArea {
        area: old_area,
        start_time: AnimStart::At(0),
        total_time: 10,
    });
    cx.playing_anim_areas.push(AnimArea {
        area: old_area,
        start_time: AnimStart::At(5),
        total_time: 20,
    });
    cx.update_area_refs(old_area, new_area);
    assert!(cx.captured_fingers[1] == new_area);
    assert!(cx.captured_fingers[4] == new_area);
    assert!(cx.captured_fingers[6] == other);
    assert!(cx.playing_anim_areas[0].area == new_area);
    assert!(cx.playing_anim_areas[1].area == new_area);
    // only the key was rewritten; the timing fields are untouched
    assert!(matches!(cx.playing_anim_areas[1].start_time, AnimStart::At(5)));
    assert_eq!(cx.playing_anim_areas[1].total_time, 20);
}
