//! The driver as a drawing surface: styled rectangles and single pixels in
//! absolute coordinates.
use crate::color::{carries, PixelFormat, RGBPixel};
use crate::interface::{BusModel, DisplayError, ReadWriteInterface};
use crate::io::{LineOp, Wire};
use crate::{pixel_script, rect_script, ILI9486, PANEL_HEIGHT, PANEL_WIDTH};
use vstd::prelude::*;

verus! {

/// A place on the surface.
#[derive(Clone, Copy, Debug, PartialEq, Eq, Structural)]
pub struct Point {
    pub x: i32,
    pub y: i32,
}

/// A rectangle and how to draw it. The rectangle covers the columns from
/// `top_left.x` up to, not including, `bottom_right.x`, and the rows
/// likewise.
#[derive(Clone, Copy, Debug, PartialEq, Eq)]
pub struct StyledRectangle {
    pub top_left: Point,
    pub bottom_right: Point,
    /// The colour inside; black where there is none.
    pub fill_color: Option<RGBPixel>,
    /// The colour of the four edges; no edges where there is none.
    pub stroke_color: Option<RGBPixel>,
    /// The thickness of an edge.
    pub stroke_width: u32,
}

impl StyledRectangle {
    pub open spec fn width(self) -> int {
        self.bottom_right.x - self.top_left.x
    }

    pub open spec fn height(self) -> int {
        self.bottom_right.y - self.top_left.y
    }

    /// Whether the rectangle can be drawn: it is not empty, it lies within
    /// the coordinates that the controller can be told, and its edges, if it
    /// has any, leave room between them.
    pub open spec fn drawable(self) -> bool {
        &&& 0 <= self.top_left.x < self.bottom_right.x <= 0x1_0000
        &&& 0 <= self.top_left.y < self.bottom_right.y <= 0x1_0000
        &&& self.stroke_color is Some ==> {
            &&& 1 <= self.stroke_width < self.height()
            &&& 2 * self.stroke_width < self.width()
        }
    }

    pub fn is_drawable(&self) -> (ok: bool)
        ensures
            ok == self.drawable(),
    {
        if !(0 <= self.top_left.x && self.top_left.x < self.bottom_right.x && self.bottom_right.x
            <= 0x1_0000) {
            return false;
        }
        if !(0 <= self.top_left.y && self.top_left.y < self.bottom_right.y && self.bottom_right.y
            <= 0x1_0000) {
            return false;
        }
        match self.stroke_color {
            Some(_) => {
                let width: u32 = (self.bottom_right.x - self.top_left.x) as u32;
                let height: u32 = (self.bottom_right.y - self.top_left.y) as u32;
                1 <= self.stroke_width && self.stroke_width < height && self.stroke_width < width
                    && self.stroke_width < width - self.stroke_width
            },
            None => true,
        }
    }

    /// The colour inside.
    pub open spec fn fill(self) -> RGBPixel {
        match self.fill_color {
            Some(color) => color,
            None => (0, 0, 0),
        }
    }

    /// What drawing the rectangle puts on the wire: the inside first, then,
    /// each as a filled rectangle of its own, the upper edge, the left edge
    /// and the right edge below it, and the lower edge between them.
    pub open spec fn script(self, bus: BusModel, format: PixelFormat) -> Seq<LineOp> {
        let x = self.top_left.x as u16;
        let y = self.top_left.y as u16;
        let w = self.width() as u32;
        let h = self.height() as u32;
        let s = self.stroke_width;
        let inside = rect_script(bus, format, x, y, w, h, self.fill());
        match self.stroke_color {
            Some(edge) => if carries(bus.data.len(), format) {
                inside + rect_script(bus, format, x, y, w, s, edge) + rect_script(
                    bus,
                    format,
                    x,
                    (y + s) as u16,
                    s,
                    (h - s) as u32,
                    edge,
                ) + rect_script(
                    bus,
                    format,
                    (self.bottom_right.x - s) as u16,
                    (y + s) as u16,
                    s,
                    (h - s) as u32,
                    edge,
                ) + rect_script(
                    bus,
                    format,
                    (x + s) as u16,
                    (self.bottom_right.y - s) as u16,
                    (w - 2 * s) as u32,
                    s,
                    edge,
                )
            } else {
                inside
            },
            None => inside,
        }
    }
}

impl<RW: ReadWriteInterface> ILI9486<RW> {
    /// Draws a rectangle: its inside, and its four edges where it has a
    /// stroke colour. Where the bus cannot carry the pixel format, drawing
    /// ends with the first pixel that would have to be written.
    pub fn draw_rectangle(&mut self, wire: &mut Wire, item: &StyledRectangle) -> (r: Result<
        (),
        DisplayError,
    >)
        requires
            item.drawable(),
        ensures
            final(self).bus() == old(self).bus(),
            final(self).color_mode() == old(self).color_mode(),
            r is Ok <==> carries(old(self).bus().data.len(), old(self).color_mode()),
            r is Err ==> r == Err::<(), DisplayError>(DisplayError::DataFormatNotImplemented),
            final(wire)@ == old(wire)@ + item.script(old(self).bus(), old(self).color_mode()),
    {
        let ghost bus = self.bus();
        let ghost format = self.color_mode();
        let color: RGBPixel = match item.fill_color {
            Some(color) => color,
            None => (0, 0, 0),
        };
        let x: u16 = item.top_left.x as u16;
        let y: u16 = item.top_left.y as u16;
        let width: u32 = (item.bottom_right.x - item.top_left.x) as u32;
        let height: u32 = (item.bottom_right.y - item.top_left.y) as u32;
        self._draw_rect(wire, x, y, width, height, color.0, color.1, color.2)?;

        match item.stroke_color {
            Some(stroke_color) => {
                let stroke: u32 = item.stroke_width;
                self._draw_rect(
                    wire,
                    x,
                    y,
                    width,
                    stroke,
                    stroke_color.0,
                    stroke_color.1,
                    stroke_color.2,
                )?;

                self._draw_rect(
                    wire,
                    x,
                    (item.top_left.y as u32 + stroke) as u16,
                    stroke,
                    height - stroke,
                    stroke_color.0,
                    stroke_color.1,
                    stroke_color.2,
                )?;

                self._draw_rect(
                    wire,
                    (item.bottom_right.x as u32 - stroke) as u16,
                    (item.top_left.y as u32 + stroke) as u16,
                    stroke,
                    height - stroke,
                    stroke_color.0,
                    stroke_color.1,
                    stroke_color.2,
                )?;

                self._draw_rect(
                    wire,
                    (item.top_left.x as u32 + stroke) as u16,
                    (item.bottom_right.y as u32 - stroke) as u16,
                    width - stroke * 2,
                    stroke,
                    stroke_color.0,
                    stroke_color.1,
                    stroke_color.2,
                )?;
                assert(wire@ =~= old(wire)@ + item.script(bus, format));
            },
            None => {},
        };
        Ok(())
    }

    /// Draws one pixel. Of each coordinate the controller is told the low 16
    /// bits.
    pub fn draw_pixel(&mut self, wire: &mut Wire, point: Point, color: RGBPixel) -> (r: Result<
        (),
        DisplayError,
    >)
        ensures
            final(self).bus() == old(self).bus(),
            final(self).color_mode() == old(self).color_mode(),
            r is Ok <==> carries(old(self).bus().data.len(), old(self).color_mode()),
            r is Err ==> r == Err::<(), DisplayError>(DisplayError::DataFormatNotImplemented),
            final(wire)@ == old(wire)@ + pixel_script(
                old(self).bus(),
                old(self).color_mode(),
                point.x as u16,
                point.y as u16,
                color,
            ),
    {
        self._draw_pixel(
            wire,
            #[verifier::truncate]
            (point.x as u16),
            #[verifier::truncate]
            (point.y as u16),
            color.0,
            color.1,
            color.2,
        )
    }

    /// Columns and rows of the panel.
    pub fn size(&self) -> (size: (u32, u32))
        ensures
            size == (PANEL_WIDTH, PANEL_HEIGHT),
    {
        (320, 480)
    }
}

} // verus!
