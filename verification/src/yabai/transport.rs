use vstd::prelude::*;

verus! {

/// An axis-aligned rectangle on the screen.
///
/// Coordinates are whole units; `y` grows southwards.  The extent is unsigned, so no
/// frame has a negative width or height.
#[derive(Debug, Clone, Copy, PartialEq, Eq, Structural)]
pub struct Frame {
    pub x: i32,
    pub y: i32,
    pub width: u32,
    pub height: u32,
}

impl Frame {
    /// The `x` coordinate of the eastern edge.
    pub open spec fn east_edge(&self) -> int {
        self.x + self.width
    }

    /// The `y` coordinate of the southern edge.
    pub open spec fn south_edge(&self) -> int {
        self.y + self.height
    }

    /// `self` ends where `other` begins, or further north.
    pub open spec fn north_of(&self, other: &Frame) -> bool {
        self.south_edge() <= other.y
    }

    /// `self` begins where `other` ends, or further south.
    pub open spec fn south_of(&self, other: &Frame) -> bool {
        other.south_edge() <= self.y
    }

    /// `self` begins where `other` ends, or further east.
    pub open spec fn east_of(&self, other: &Frame) -> bool {
        other.east_edge() <= self.x
    }

    /// `self` ends where `other` begins, or further west.
    pub open spec fn west_of(&self, other: &Frame) -> bool {
        self.east_edge() <= other.x
    }

    /// The vertical extents `[y, y + height]` of the two frames share a point.
    pub open spec fn vertical_overlap(&self, other: &Frame) -> bool {
        self.y <= other.south_edge() && other.y <= self.south_edge()
    }

    /// The horizontal extents `[x, x + width]` of the two frames share a point.
    pub open spec fn horizontal_overlap(&self, other: &Frame) -> bool {
        self.x <= other.east_edge() && other.x <= self.east_edge()
    }

    pub fn is_north_of(&self, other: &Frame) -> (north: bool)
        ensures
            north == self.north_of(other),
    {
        self.y as i64 + self.height as i64 <= other.y as i64
    }

    pub fn is_south_of(&self, other: &Frame) -> (south: bool)
        ensures
            south == self.south_of(other),
    {
        other.is_north_of(self)
    }

    pub fn is_east_of(&self, other: &Frame) -> (east: bool)
        ensures
            east == self.east_of(other),
    {
        self.x as i64 >= other.x as i64 + other.width as i64
    }

    pub fn is_west_of(&self, other: &Frame) -> (west: bool)
        ensures
            west == self.west_of(other),
    {
        other.is_east_of(self)
    }

    pub fn overlaps_vertically(&self, other: &Frame) -> (overlaps: bool)
        ensures
            overlaps == self.vertical_overlap(other),
    {
        let other_starts_north = other.y <= self.y;
        if other_starts_north {
            let other_y_end = other.y as i64 + other.height as i64;
            other_y_end >= self.y as i64
        } else {
            let y_end = self.y as i64 + self.height as i64;
            other.y as i64 <= y_end
        }
    }

    pub fn overlaps_horizontally(&self, other: &Frame) -> (overlaps: bool)
        ensures
            overlaps == self.horizontal_overlap(other),
    {
        let other_starts_west = other.x <= self.x;
        if other_starts_west {
            let other_x_end = other.x as i64 + other.width as i64;
            other_x_end >= self.x as i64
        } else {
            let x_end = self.x as i64 + self.width as i64;
            other.x as i64 <= x_end
        }
    }
}

/// Anything that occupies a frame on the screen.
pub trait Framed {
    /// The frame that the value occupies.
    spec fn occupied_frame(&self) -> Frame;

    fn frame(&self) -> (frame: &Frame)
        ensures
            *frame == self.occupied_frame(),
    ;
}

impl Framed for Frame {
    open spec fn occupied_frame(&self) -> Frame {
        *self
    }

    fn frame(&self) -> (frame: &Frame) {
        self
    }
}

#[derive(Debug, Clone, Copy, PartialEq, Eq, Structural)]
pub struct SpaceId(pub u32);

/// The position of a space among all spaces, as the window manager counts them.
/// It changes when the space is moved between displays.
#[derive(Debug, Clone, Copy, PartialEq, Eq, Structural)]
pub struct SpaceIndex(pub u32);

#[derive(Debug, Clone, Copy, PartialEq, Eq, Structural)]
pub struct DisplayId(pub u32);

#[derive(Debug, Clone, Copy, PartialEq, Eq, Structural)]
pub struct DisplayIndex(pub u32);

#[derive(Debug, Clone, Copy, PartialEq, Eq, Structural)]
pub struct WindowId(pub u32);

/// The window id that the window manager reports, where it reports zero for "no
/// window".
pub fn window_id_maybe_zero(reported: u32) -> (window_id: Option<WindowId>)
    ensures
        window_id == (if reported == 0 {
            None
        } else {
            Some(WindowId(reported))
        }),
{
    if reported == 0 {
        None
    } else {
        Some(WindowId(reported))
    }
}

/// The label that the window manager reports, where it reports an empty text for "no
/// label".
pub fn space_label(reported: String) -> (label: Option<String>)
    ensures
        label == (if reported@.len() == 0 {
            None
        } else {
            Some(reported)
        }),
{
    if reported.as_str().is_empty() {
        None
    } else {
        Some(reported)
    }
}

#[derive(Debug, Clone, PartialEq, Eq)]
pub struct Display {
    pub id: DisplayId,
    pub uuid: String,
    pub index: DisplayIndex,
    pub frame: Frame,
    pub spaces: Vec<SpaceIndex>,
}

impl Framed for Display {
    open spec fn occupied_frame(&self) -> Frame {
        self.frame
    }

    fn frame(&self) -> (frame: &Frame) {
        &self.frame
    }
}

#[derive(Debug, Clone, Copy, PartialEq, Eq, Structural)]
pub enum SpaceType {
    BSP,
    Stack,
}

#[derive(Debug, Clone, PartialEq, Eq)]
pub struct Space {
    pub id: SpaceId,
    pub uuid: String,
    pub index: SpaceIndex,
    /// The label of the space; a space without a label has `None`, never an empty text.
    pub label: Option<String>,
    pub space_type: SpaceType,
    pub display_index: DisplayIndex,
    pub windows: Vec<WindowId>,
    pub first_window: Option<WindowId>,
    pub last_window: Option<WindowId>,
    pub has_focus: bool,
    pub is_visible: bool,
    pub is_native_fullscreen: bool,
}

/// A window, with the properties that matter here.
#[derive(Debug, Clone, PartialEq, Eq)]
pub struct Window {
    pub id: WindowId,
    pub pid: u32,
    pub app: String,
    pub title: String,
    pub frame: Frame,
    pub display_index: DisplayIndex,
    pub space_index: SpaceIndex,
    pub has_focus: bool,
    pub is_visible: bool,
    pub is_hidden: bool,
    pub is_floating: bool,
    pub is_sticky: bool,
}

impl Framed for Window {
    open spec fn occupied_frame(&self) -> Frame {
        self.frame
    }

    fn frame(&self) -> (frame: &Frame) {
        &self.frame
    }
}

/// One frame lies north of another exactly when the other lies south of it, and
/// likewise for west and east.
pub proof fn opposite_sides_mirror(a: Frame, b: Frame)
    ensures
        a.north_of(&b) <==> b.south_of(&a),
        a.west_of(&b) <==> b.east_of(&a),
{
}

/// Every frame overlaps itself, vertically and horizontally.
pub proof fn overlap_is_reflexive(a: Frame)
    ensures
        a.vertical_overlap(&a),
        a.horizontal_overlap(&a),
{
}

/// Overlap does not depend on which of the two frames is asked.
pub proof fn overlap_is_symmetric(a: Frame, b: Frame)
    ensures
        a.vertical_overlap(&b) <==> b.vertical_overlap(&a),
        a.horizontal_overlap(&b) <==> b.horizontal_overlap(&a),
{
}

} // verus!
