use c0pl4nd::resize::{
    handle_frameless_resize, plan_drag, AxisChange, ResizeDirection as D, ResizeFrame, Sides,
};

/// Which sides of a 1000 by 700 window a point is within a band of.
fn sides(x: f32, y: f32, band: f32) -> Sides {
    Sides {
        west: x <= band,
        east: x >= 1000.0 - band,
        north: y <= band,
        south: y >= 700.0 - band,
    }
}

fn resize_dir_at(x: f32, y: f32) -> Option<D> {
    let outside = !(0.0..=1000.0).contains(&x) || !(0.0..=700.0).contains(&y);
    c0pl4nd::resize::resize_dir_at(outside, sides(x, y, 6.0), sides(x, y, 12.0))
}

#[test]
fn interior_is_never_a_resize_zone() {
    assert_eq!(resize_dir_at(500.0, 350.0), None);
    assert_eq!(resize_dir_at(574.0, 48.0), None);
}

#[test]
fn edges_map_to_their_direction() {
    assert_eq!(resize_dir_at(500.0, 1.0), Some(D::North));
    assert_eq!(resize_dir_at(500.0, 699.0), Some(D::South));
    assert_eq!(resize_dir_at(1.0, 350.0), Some(D::West));
    assert_eq!(resize_dir_at(999.0, 350.0), Some(D::East));
}

#[test]
fn corners_take_priority_over_edges() {
    assert_eq!(resize_dir_at(2.0, 2.0), Some(D::NorthWest));
    assert_eq!(resize_dir_at(998.0, 2.0), Some(D::NorthEast));
    assert_eq!(resize_dir_at(2.0, 698.0), Some(D::SouthWest));
    assert_eq!(resize_dir_at(998.0, 698.0), Some(D::SouthEast));
    assert_eq!(resize_dir_at(8.0, 1.0), Some(D::NorthWest));
}

#[test]
fn outside_the_window_is_none() {
    assert_eq!(resize_dir_at(-5.0, 350.0), None);
    assert_eq!(resize_dir_at(500.0, 800.0), None);
}

#[test]
fn a_drag_keeps_the_far_edge_still() {
    assert_eq!(plan_drag(D::East, true), Some((AxisChange::Grow, AxisChange::Keep)));
    assert_eq!(plan_drag(D::North, true), Some((AxisChange::Keep, AxisChange::GrowFromOrigin)));
    assert_eq!(
        plan_drag(D::SouthWest, true),
        Some((AxisChange::GrowFromOrigin, AxisChange::Grow))
    );
}

#[test]
fn a_drag_begins_at_a_border_and_ends_with_the_button() {
    let mut held: Option<D> = None;
    assert_eq!(handle_frameless_resize(&mut held, false, false, None), ResizeFrame::Idle);
    assert_eq!(
        handle_frameless_resize(&mut held, false, false, Some(D::East)),
        ResizeFrame::Hint(D::East)
    );
    assert_eq!(
        handle_frameless_resize(&mut held, true, true, Some(D::East)),
        ResizeFrame::Begin(D::East)
    );
    assert_eq!(held, Some(D::East));
    handle_frameless_resize(&mut held, true, false, None);
    assert_eq!(held, Some(D::East), "the drag goes on away from the border");
    handle_frameless_resize(&mut held, false, false, None);
    assert_eq!(held, None, "the button was let go");
}
