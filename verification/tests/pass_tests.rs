use render_core::Area;
use render_core::ViewArea;
use render_core::cx::Cx;
use render_core::entity::CxPassDepOf;
use render_core::entity::CxWindowState;

fn view_area(view_id: usize) -> Area {
    Area::View(ViewArea { view_id, redraw_id: 0 })
}

fn contains_area(list: &Vec<Area>, area: Area) -> bool {
    let mut found = false;
    for a in list.iter() {
        if *a == area {
            found = true;
        }
    }
    found
}

/// Two passes over two views: the second pass composites into the first,
/// the first into a window.
fn chain_of_two() -> (Cx, usize, usize) {
    let mut cx = Cx::default();
    let v1 = cx.alloc_view(0, 0);
    let v2 = cx.alloc_view(0, 0);
    let w = cx.alloc_window(CxWindowState::Created, None);
    let p1 = cx.alloc_pass(Some(v1), CxPassDepOf::Window(w));
    let p2 = cx.alloc_pass(Some(v2), CxPassDepOf::Pass(p1));
    (cx, p1, p2)
}

#[test]
fn upward_walk_marks_the_whole_chain_and_stops_at_the_window() {
    let (mut cx, p1, p2) = chain_of_two();
    assert_eq!((p1, p2), (0, 1));
    cx.redraw_pass_and_dep_of_passes(p2);
    assert!(contains_area(&cx.redraw_parent_areas, view_area(2)));
    assert!(contains_area(&cx.redraw_parent_areas, view_area(1)));
    assert_eq!(cx.redraw_parent_areas.len(), 2);
}

#[test]
fn upward_walk_from_the_root_pass_marks_only_it() {
    let (mut cx, p1, _p2) = chain_of_two();
    cx.redraw_pass_and_dep_of_passes(p1);
    assert!(contains_area(&cx.redraw_parent_areas, view_area(1)));
    assert_eq!(cx.redraw_parent_areas.len(), 1);
}

#[test]
fn downward_walk_marks_the_pass_and_everything_feeding_it() {
    let (mut cx, p1, _p2) = chain_of_two();
    cx.redraw_pass_and_sub_passes(p1);
    assert!(contains_area(&cx.redraw_parent_areas, view_area(1)));
    assert!(contains_area(&cx.redraw_parent_areas, view_area(2)));
    assert_eq!(cx.redraw_parent_areas.len(), 2);
}

#[test]
fn downward_walk_from_a_leaf_marks_only_it() {
    let (mut cx, _p1, p2) = chain_of_two();
    cx.redraw_pass_and_sub_passes(p2);
    assert!(contains_area(&cx.redraw_parent_areas, view_area(2)));
    assert_eq!(cx.redraw_parent_areas.len(), 1);
}

#[test]
fn redraw_pass_of_view_area_walks_the_owning_pass() {
    let mut cx = Cx::default();
    let v1 = cx.alloc_view(0, 0);
    let p1 = cx.alloc_pass(Some(v1), CxPassDepOf::Window(0));
    // the view belongs to its pass
    let v_child = cx.alloc_view(v1, p1);
    cx.redraw_pass_of(view_area(v_child));
    assert!(contains_area(&cx.redraw_parent_areas, view_area(v1)));
    assert_eq!(cx.redraw_parent_areas.len(), 1);
}

#[test]
fn redraw_pass_of_all_walks_every_live_window() {
    let mut cx = Cx::default();
    let v1 = cx.alloc_view(0, 0);
    let v2 = cx.alloc_view(0, 0);
    let p1 = cx.alloc_pass(Some(v1), CxPassDepOf::Window(0));
    let p2 = cx.alloc_pass(Some(v2), CxPassDepOf::Window(1));
    let _w1 = cx.alloc_window(CxWindowState::Created, Some(p1));
    let _w2 = cx.alloc_window(CxWindowState::Closed, Some(p2));
    cx.redraw_pass_of(Area::All);
    // only the live window's pass is marked
    assert!(contains_area(&cx.redraw_parent_areas, view_area(v1)));
    assert!(!contains_area(&cx.redraw_parent_areas, view_area(v2)));
}

#[test]
fn redraw_pass_of_empty_is_a_no_op() {
    let mut cx = Cx::default();
    cx.redraw_pass_of(Area::Empty);
    assert!(cx.redraw_parent_areas.is_empty());
}
