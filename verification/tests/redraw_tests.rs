use render_core::Area;
use render_core::InstanceArea;
use render_core::ViewArea;
use render_core::cx::Cx;

fn view_area(view_id: usize) -> Area {
    Area::View(ViewArea { view_id, redraw_id: 0 })
}

#[test]
fn mark_child_dirty_is_idempotent() {
    let mut cx = Cx::default();
    let a = view_area(0);
    cx.redraw_child_area(a);
    cx.redraw_child_area(a);
    assert_eq!(cx.redraw_child_areas.len(), 1);
    assert!(cx.redraw_child_areas[0] == a);
}

#[test]
fn mark_all_collapses_list() {
    let mut cx = Cx::default();
    let a = view_area(0);
    cx.redraw_child_area(a);
    cx.redraw_child_area(Area::All);
    assert_eq!(cx.redraw_child_areas.len(), 1);
    assert!(cx.redraw_child_areas[0] == Area::All);
    // anything marked after `All` is absorbed
    cx.redraw_child_area(a);
    assert_eq!(cx.redraw_child_areas.len(), 1);
    assert!(cx.redraw_child_areas[0] == Area::All);
}

#[test]
fn mark_parent_dirty_mirrors_child_policy() {
    let mut cx = Cx::default();
    let a = view_area(0);
    cx.redraw_parent_area(a);
    cx.redraw_parent_area(a);
    assert_eq!(cx.redraw_parent_areas.len(), 1);
    cx.redraw_parent_area(Area::All);
    assert_eq!(cx.redraw_parent_areas.len(), 1);
    assert!(cx.redraw_parent_areas[0] == Area::All);
}

#[test]
fn child_dirt_bubbles_to_ancestors() {
    let mut cx = Cx::default();
    let a = cx.alloc_view(0, 0);
    let b = cx.alloc_view(a, 0);
    let c = cx.alloc_view(0, 0);
    assert_eq!((a, b, c), (1, 2, 3));
    cx.redraw_child_area(view_area(2));
    cx.begin_cycle();
    assert!(cx.view_will_redraw(2));
    assert!(cx.view_will_redraw(1));
    assert!(cx.view_will_redraw(0));
    assert!(!cx.view_will_redraw(3));
}

#[test]
fn parent_dirt_pushes_down_to_descendants() {
    let mut cx = Cx::default();
    let a = cx.alloc_view(0, 0);
    let _b = cx.alloc_view(a, 0);
    cx.redraw_parent_area(view_area(1));
    cx.begin_cycle();
    assert!(cx.view_will_redraw(1));
    assert!(cx.view_will_redraw(2));
    assert!(!cx.view_will_redraw(0));
}

#[test]
fn all_in_snapshot_redraws_everything() {
    let mut cx = Cx::default();
    let _a = cx.alloc_view(0, 0);
    cx.redraw_child_area(Area::All);
    cx.begin_cycle();
    assert!(cx.view_will_redraw(0));
    assert!(cx.view_will_redraw(1));
}

#[test]
fn empty_area_matches_nothing() {
    let mut cx = Cx::default();
    cx.redraw_child_area(Area::Empty);
    cx.redraw_parent_area(Area::Empty);
    cx.begin_cycle();
    assert!(!cx.view_will_redraw(0));
}

#[test]
fn instance_areas_bubble_like_their_view() {
    let mut cx = Cx::default();
    let a = cx.alloc_view(0, 0);
    let b = cx.alloc_view(a, 0);
    let instance = Area::Instance(InstanceArea {
        view_id: b,
        draw_call_id: 0,
        instance_offset: 4,
        instance_count: 1,
        redraw_id: 0,
    });
    cx.redraw_child_area(instance);
    cx.begin_cycle();
    assert!(cx.view_will_redraw(b));
    assert!(cx.view_will_redraw(a));
    assert!(cx.view_will_redraw(0));
}

#[test]
fn all_in_parent_snapshot_redraws_everything() {
    let mut cx = Cx::default();
    let a = cx.alloc_view(0, 0);
    cx.redraw_parent_area(Area::All);
    cx.begin_cycle();
    assert!(cx.view_will_redraw(0));
    assert!(cx.view_will_redraw(a));
}

#[test]
fn begin_cycle_swaps_and_clears() {
    let mut cx = Cx::default();
    let a = view_area(0);
    cx.redraw_child_area(a);
    cx.redraw_parent_area(a);
    let before = cx.redraw_id;
    cx.begin_cycle();
    assert_eq!(cx.redraw_id, before + 1);
    assert_eq!(cx._redraw_child_areas.len(), 1);
    assert_eq!(cx._redraw_parent_areas.len(), 1);
    assert!(cx.redraw_child_areas.is_empty());
    assert!(cx.redraw_parent_areas.is_empty());
    // requests accumulating for the next cycle do not disturb the
    // frozen snapshot
    cx.redraw_child_area(a);
    assert_eq!(cx._redraw_child_areas.len(), 1);
    assert_eq!(cx.redraw_child_areas.len(), 1);
}

#[test]
fn redraw_previous_areas_requeues_the_snapshot() {
    let mut cx = Cx::default();
    let a = cx.alloc_view(0, 0);
    cx.redraw_child_area(view_area(a));
    cx.redraw_parent_area(view_area(0));
    cx.begin_cycle();
    assert!(cx.redraw_child_areas.is_empty());
    cx.redraw_previous_areas();
    assert_eq!(cx.redraw_child_areas.len(), 1);
    assert!(cx.redraw_child_areas[0] == view_area(a));
    assert_eq!(cx.redraw_parent_areas.len(), 1);
    assert!(cx.redraw_parent_areas[0] == view_area(0));
}
