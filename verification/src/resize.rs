//! Resizing a frameless window by its edges.

use vstd::prelude::*;

verus! {

/// An edge or corner of the window.
#[derive(Clone, Copy, Debug, PartialEq, Eq, Structural)]
pub enum ResizeDirection {
    North,
    South,
    East,
    West,
    NorthEast,
    NorthWest,
    SouthEast,
    SouthWest,
}

/// A flag for each side of the window.
#[derive(Clone, Copy, Debug, PartialEq, Eq, Structural)]
pub struct Sides {
    pub west: bool,
    pub east: bool,
    pub north: bool,
    pub south: bool,
}

/// The corner the pointer is in: within the edge band of one of its sides and
/// the wider corner band of the other.
pub open spec fn in_corner(a_edge: bool, a_corner: bool, b_edge: bool, b_corner: bool) -> bool {
    (a_edge && b_corner) || (b_edge && a_corner)
}

/// The part of the border under the pointer: a corner before a straight edge,
/// nothing in the interior or outside the window.
pub open spec fn border_at(outside: bool, edge: Sides, corner: Sides) -> Option<ResizeDirection> {
    if outside {
        None
    } else if in_corner(edge.north, corner.north, edge.west, corner.west) {
        Some(ResizeDirection::NorthWest)
    } else if in_corner(edge.north, corner.north, edge.east, corner.east) {
        Some(ResizeDirection::NorthEast)
    } else if in_corner(edge.south, corner.south, edge.west, corner.west) {
        Some(ResizeDirection::SouthWest)
    } else if in_corner(edge.south, corner.south, edge.east, corner.east) {
        Some(ResizeDirection::SouthEast)
    } else if edge.north {
        Some(ResizeDirection::North)
    } else if edge.south {
        Some(ResizeDirection::South)
    } else if edge.west {
        Some(ResizeDirection::West)
    } else if edge.east {
        Some(ResizeDirection::East)
    } else {
        None
    }
}

/// The part of the border under the pointer. `edge` and `corner` tell for each
/// side whether the pointer is within the edge band and the corner band of it,
/// `outside` whether it has left the window.
pub fn resize_dir_at(outside: bool, edge: Sides, corner: Sides) -> (r: Option<ResizeDirection>)
    ensures
        r == border_at(outside, edge, corner),
{
    if outside {
        return None;
    }
    if (edge.north && corner.west) || (edge.west && corner.north) {
        Some(ResizeDirection::NorthWest)
    } else if (edge.north && corner.east) || (edge.east && corner.north) {
        Some(ResizeDirection::NorthEast)
    } else if (edge.south && corner.west) || (edge.west && corner.south) {
        Some(ResizeDirection::SouthWest)
    } else if (edge.south && corner.east) || (edge.east && corner.south) {
        Some(ResizeDirection::SouthEast)
    } else if edge.north {
        Some(ResizeDirection::North)
    } else if edge.south {
        Some(ResizeDirection::South)
    } else if edge.west {
        Some(ResizeDirection::West)
    } else if edge.east {
        Some(ResizeDirection::East)
    } else {
        None
    }
}

/// The interior is never a resize zone: away from every edge band nothing is
/// grabbed.
pub proof fn interior_is_never_grabbed(outside: bool, edge: Sides, corner: Sides)
    requires
        !edge.west && !edge.east && !edge.north && !edge.south,
    ensures
        border_at(outside, edge, corner) is None,
{
}

/// The window sides a direction moves.
pub open spec fn moved_sides(dir: ResizeDirection) -> Sides {
    Sides {
        west: dir == ResizeDirection::West || dir == ResizeDirection::NorthWest || dir
            == ResizeDirection::SouthWest,
        east: dir == ResizeDirection::East || dir == ResizeDirection::NorthEast || dir
            == ResizeDirection::SouthEast,
        north: dir == ResizeDirection::North || dir == ResizeDirection::NorthWest || dir
            == ResizeDirection::NorthEast,
        south: dir == ResizeDirection::South || dir == ResizeDirection::SouthWest || dir
            == ResizeDirection::SouthEast,
    }
}

/// A grabbed border is one whose sides the pointer is near, and of opposite
/// sides it moves at most one.
pub proof fn grabbed_sides_are_near(outside: bool, edge: Sides, corner: Sides)
    ensures
        border_at(outside, edge, corner) matches Some(d) ==> {
            let m = moved_sides(d);
            &&& !outside
            &&& m.west ==> edge.west || corner.west
            &&& m.east ==> edge.east || corner.east
            &&& m.north ==> edge.north || corner.north
            &&& m.south ==> edge.south || corner.south
            &&& !(m.west && m.east)
            &&& !(m.north && m.south)
            &&& m.west || m.east || m.north || m.south
        },
{
}

/// How a direction changes the window on one axis.
#[derive(Clone, Copy, Debug, PartialEq, Eq, Structural)]
pub enum AxisChange {
    /// The axis is left alone.
    Keep,
    /// The size grows with the pointer's motion; the origin stays.
    Grow,
    /// The size shrinks with the pointer's motion, and the origin moves so
    /// that the opposite edge stays.
    GrowFromOrigin,
}

/// How a drag changes the window, or `None` where it needs the window's origin
/// and the platform does not report it.
pub open spec fn drag_plan(dir: ResizeDirection, has_origin: bool) -> Option<
    (AxisChange, AxisChange),
> {
    let m = moved_sides(dir);
    if (m.west || m.north) && !has_origin {
        None
    } else {
        Some(
            (
                if m.east {
                    AxisChange::Grow
                } else if m.west {
                    AxisChange::GrowFromOrigin
                } else {
                    AxisChange::Keep
                },
                if m.south {
                    AxisChange::Grow
                } else if m.north {
                    AxisChange::GrowFromOrigin
                } else {
                    AxisChange::Keep
                },
            ),
        )
    }
}

/// How a drag in progress changes the window's width and height.
pub fn plan_drag(dir: ResizeDirection, has_origin: bool) -> (r: Option<(AxisChange, AxisChange)>)
    ensures
        r == drag_plan(dir, has_origin),
{
    let (x, y) = match dir {
        ResizeDirection::North => (AxisChange::Keep, AxisChange::GrowFromOrigin),
        ResizeDirection::South => (AxisChange::Keep, AxisChange::Grow),
        ResizeDirection::East => (AxisChange::Grow, AxisChange::Keep),
        ResizeDirection::West => (AxisChange::GrowFromOrigin, AxisChange::Keep),
        ResizeDirection::NorthEast => (AxisChange::Grow, AxisChange::GrowFromOrigin),
        ResizeDirection::NorthWest => (AxisChange::GrowFromOrigin, AxisChange::GrowFromOrigin),
        ResizeDirection::SouthEast => (AxisChange::Grow, AxisChange::Grow),
        ResizeDirection::SouthWest => (AxisChange::GrowFromOrigin, AxisChange::Grow),
    };
    if (x == AxisChange::GrowFromOrigin || y == AxisChange::GrowFromOrigin) && !has_origin {
        None
    } else {
        Some((x, y))
    }
}

/// What a frame does about resizing.
#[derive(Clone, Copy, Debug, PartialEq, Eq, Structural)]
pub enum ResizeFrame {
    /// Nothing.
    Idle,
    /// The pointer shows that this border can be grabbed.
    Hint(ResizeDirection),
    /// A drag of this border begins; the panes must not take it.
    Begin(ResizeDirection),
    /// A drag of this border goes on; the panes must not take it.
    Drive(ResizeDirection),
    /// The drag ended.
    End,
}

/// The border held after a frame.
pub open spec fn held_after(
    held: Option<ResizeDirection>,
    down: bool,
    pressed: bool,
    hover: Option<ResizeDirection>,
) -> Option<ResizeDirection> {
    match held {
        Some(d) => if down {
            Some(d)
        } else {
            None
        },
        None => if pressed {
            hover
        } else {
            None
        },
    }
}

/// Run one frame of the manual resize: a held border is driven until the
/// button goes up, whatever the pointer is over; else a press on a border
/// takes hold of it.
pub fn handle_frameless_resize(
    held: &mut Option<ResizeDirection>,
    down: bool,
    pressed: bool,
    hover: Option<ResizeDirection>,
) -> (r: ResizeFrame)
    ensures
        *final(held) == held_after(*old(held), down, pressed, hover),
        r == resize_step(*old(held), down, pressed, hover),
{
    match *held {
        Some(d) => if down {
            ResizeFrame::Drive(d)
        } else {
            *held = None;
            ResizeFrame::End
        },
        None => match hover {
            Some(d) => if pressed {
                *held = Some(d);
                ResizeFrame::Begin(d)
            } else {
                ResizeFrame::Hint(d)
            },
            None => ResizeFrame::Idle,
        },
    }
}

/// A pointer near one side alone grabs that side; in a corner it grabs the
/// corner, be it at either edge; outside the window it grabs nothing.
pub proof fn the_border_under_the_pointer_is_grabbed(outside: bool, edge: Sides, corner: Sides)
    ensures
        outside ==> border_at(outside, edge, corner) is None,
        !outside && !corner.west && !corner.east && !edge.west && !edge.east ==> {
            &&& edge.north ==> border_at(outside, edge, corner) == Some(ResizeDirection::North)
            &&& edge.south && !edge.north ==> border_at(outside, edge, corner) == Some(
                ResizeDirection::South,
            )
        },
        !outside && !corner.north && !corner.south && !edge.north && !edge.south ==> {
            &&& edge.west ==> border_at(outside, edge, corner) == Some(ResizeDirection::West)
            &&& edge.east && !edge.west ==> border_at(outside, edge, corner) == Some(
                ResizeDirection::East,
            )
        },
        !outside && (edge.north && corner.west || edge.west && corner.north) ==> border_at(
            outside,
            edge,
            corner,
        ) == Some(ResizeDirection::NorthWest),
        !outside && !edge.west && !corner.west && (edge.north && corner.east || edge.east
            && corner.north) ==> border_at(outside, edge, corner) == Some(
            ResizeDirection::NorthEast,
        ),
        !outside && !edge.north && !corner.north && (edge.south && corner.west || edge.west
            && corner.south) ==> border_at(outside, edge, corner) == Some(
            ResizeDirection::SouthWest,
        ),
        !outside && !edge.north && !corner.north && !edge.west && !corner.west && (edge.south
            && corner.east || edge.east && corner.south) ==> border_at(outside, edge, corner)
            == Some(ResizeDirection::SouthEast),
{
}

/// A side that is grabbed moves with the pointer, and the opposite one stays: the
/// right and the lower side change the size alone, the left and the upper one the
/// origin too, for which it must be known. An axis that is not grabbed is kept.
pub proof fn a_drag_moves_the_grabbed_sides(has_origin: bool)
    ensures
        drag_plan(ResizeDirection::East, has_origin) == Some((AxisChange::Grow, AxisChange::Keep)),
        drag_plan(ResizeDirection::South, has_origin) == Some((AxisChange::Keep, AxisChange::Grow)),
        drag_plan(ResizeDirection::SouthEast, has_origin) == Some(
            (AxisChange::Grow, AxisChange::Grow),
        ),
        drag_plan(ResizeDirection::West, true) == Some(
            (AxisChange::GrowFromOrigin, AxisChange::Keep),
        ),
        drag_plan(ResizeDirection::North, true) == Some(
            (AxisChange::Keep, AxisChange::GrowFromOrigin),
        ),
        drag_plan(ResizeDirection::NorthWest, true) == Some(
            (AxisChange::GrowFromOrigin, AxisChange::GrowFromOrigin),
        ),
        drag_plan(ResizeDirection::NorthEast, true) == Some(
            (AxisChange::Grow, AxisChange::GrowFromOrigin),
        ),
        drag_plan(ResizeDirection::SouthWest, true) == Some(
            (AxisChange::GrowFromOrigin, AxisChange::Grow),
        ),
        drag_plan(ResizeDirection::West, false) is None,
        drag_plan(ResizeDirection::North, false) is None,
        drag_plan(ResizeDirection::NorthWest, false) is None,
        drag_plan(ResizeDirection::NorthEast, false) is None,
        drag_plan(ResizeDirection::SouthWest, false) is None,
{
}

/// A border stays held while the button is down, whatever the pointer is over; a
/// press takes hold of the border under the pointer, and nothing else does.
pub proof fn a_border_is_held_until_the_button_goes_up(
    d: ResizeDirection,
    down: bool,
    pressed: bool,
    hover: Option<ResizeDirection>,
)
    ensures
        held_after(Some(d), true, pressed, hover) == Some(d),
        held_after(Some(d), false, pressed, hover) is None,
        held_after(None, down, true, hover) == hover,
        held_after(None, down, false, hover) is None,
{
}

/// What a frame does about resizing.
pub open spec fn resize_step(
    held: Option<ResizeDirection>,
    down: bool,
    pressed: bool,
    hover: Option<ResizeDirection>,
) -> ResizeFrame {
    match held {
        Some(d) => if down {
            ResizeFrame::Drive(d)
        } else {
            ResizeFrame::End
        },
        None => match hover {
            Some(d) => if pressed {
                ResizeFrame::Begin(d)
            } else {
                ResizeFrame::Hint(d)
            },
            None => ResizeFrame::Idle,
        },
    }
}

/// A held border is driven while the button is down and let go of when it goes
/// up; else the border under the pointer is shown, and taken hold of by a press.
pub proof fn a_frame_drives_the_held_border(
    d: ResizeDirection,
    down: bool,
    pressed: bool,
    hover: Option<ResizeDirection>,
)
    ensures
        resize_step(Some(d), true, pressed, hover) == ResizeFrame::Drive(d),
        resize_step(Some(d), false, pressed, hover) == ResizeFrame::End,
        resize_step(None, down, true, Some(d)) == ResizeFrame::Begin(d),
        resize_step(None, down, false, Some(d)) == ResizeFrame::Hint(d),
        resize_step(None, down, pressed, None) == ResizeFrame::Idle,
{
}

} // verus!
