use vstd::prelude::*;

use embedded_graphics::pixelcolor::{Gray8, GrayColor};
use embedded_graphics::prelude::Point;
use embedded_graphics::primitives::{Circle, Primitive, PrimitiveStyle};

use crate::error::CommError;

verus! {

/// Width and height of a surface, in pixels.
pub const SIDE: i32 = 64;

/// Number of pixels on a surface.
pub const AREA: usize = 4096;

/// A pixel write: coordinates and a gray level.
#[derive(Debug, Clone, Copy, PartialEq, Eq, Structural)]
pub struct Pixel {
    pub x: i32,
    pub y: i32,
    pub luma: u8,
}

/// Whether `(x, y)` lies on the surface.
pub open spec fn on_surface(x: i32, y: i32) -> bool {
    0 <= x < SIDE && 0 <= y < SIDE
}

/// Where `(x, y)` is kept in a row-major framebuffer.
pub open spec fn index_of(x: i32, y: i32) -> int {
    x + y * SIDE
}

/// The framebuffer after one pixel write: a write off the surface is dropped.
pub open spec fn paint(frame: Seq<u8>, p: Pixel) -> Seq<u8> {
    if on_surface(p.x, p.y) {
        frame.update(index_of(p.x, p.y), p.luma)
    } else {
        frame
    }
}

/// The framebuffer after the writes of `pixels`, in order.
pub open spec fn paint_all(frame: Seq<u8>, pixels: Seq<Pixel>) -> Seq<u8>
    decreases pixels.len(),
{
    if pixels.len() == 0 {
        frame
    } else {
        paint(paint_all(frame, pixels.drop_last()), pixels.last())
    }
}

/// The gray level kept at `(x, y)`, where it lies on the surface.
pub open spec fn pixel_at(frame: Seq<u8>, x: i32, y: i32) -> Option<u8> {
    if on_surface(x, y) {
        Some(frame[index_of(x, y)])
    } else {
        None
    }
}

/// A link that carries bytes to a display controller.
pub trait SpiWrite {
    /// How the link answers a transmission of these bytes.
    spec fn answer(&self) -> spec_fn(Seq<u8>) -> Result<(), CommError>;

    /// Sends `buffer` over the link.
    fn send_bytes(&self, buffer: &[u8]) -> (r: Result<(), CommError>)
        ensures
            r == (self.answer())(buffer@),
    ;
}

/// A link that accepts everything and carries it nowhere.
pub struct DummySpi {}

impl DummySpi {
    pub fn new() -> (r: Self) {
        DummySpi {}
    }
}

impl SpiWrite for DummySpi {
    open spec fn answer(&self) -> spec_fn(Seq<u8>) -> Result<(), CommError> {
        |bytes: Seq<u8>| Ok::<(), CommError>(())
    }

    fn send_bytes(&self, buffer: &[u8]) -> (r: Result<(), CommError>) {
        Ok(())
    }
}

/// A link with no controller on its far end: every transmission fails.
pub struct DisconnectedSpi {}

impl DisconnectedSpi {
    pub fn new() -> (r: Self) {
        DisconnectedSpi {}
    }
}

impl SpiWrite for DisconnectedSpi {
    open spec fn answer(&self) -> spec_fn(Seq<u8>) -> Result<(), CommError> {
        |bytes: Seq<u8>| Err::<(), CommError>(CommError)
    }

    fn send_bytes(&self, buffer: &[u8]) -> (r: Result<(), CommError>) {
        Err(CommError)
    }
}

/// A 64 × 64 gray surface that takes pixel writes and can transmit its contents.
pub trait PixelSurface: Sized {
    /// Whether the surface is well formed: its contents cover it.
    spec fn well_formed(&self) -> bool;

    /// The contents, row by row: a well-formed surface holds `AREA` of them.
    spec fn frame(&self) -> Seq<u8>;

    /// How a transmission of given contents is answered.
    spec fn link(&self) -> spec_fn(Seq<u8>) -> Result<(), CommError>;

    /// Writes `pixels` in order. Writes off the surface are dropped; none fails.
    fn draw_iter(&mut self, pixels: &Vec<Pixel>)
        requires
            old(self).well_formed(),
        ensures
            final(self).well_formed(),
            final(self).frame() == paint_all(old(self).frame(), pixels@),
            final(self).link() == old(self).link(),
    ;

    /// Transmits the current contents.
    fn flush(&self) -> (r: Result<(), CommError>)
        ensures
            r == (self.link())(self.frame()),
    ;
}

/// A surface kept in memory, one byte per pixel, sent over `SPI` on `flush`.
pub struct ExampleDisplay<SPI> {
    framebuffer: Vec<u8>,
    iface: SPI,
}

impl<SPI> ExampleDisplay<SPI> {
    /// The link the display sends over.
    pub closed spec fn interface(&self) -> SPI {
        self.iface
    }

    /// A blank display (every pixel 0) on `iface`.
    pub fn new(iface: SPI) -> (r: Self)
        ensures
            r.wf(),
            r.interface() == iface,
            r.contents() == Seq::new(AREA as nat, |i: int| 0u8),
    {
        let mut framebuffer: Vec<u8> = Vec::new();
        let mut i: usize = 0;
        while i < AREA
            invariant
                i <= AREA,
                framebuffer@ == Seq::new(i as nat, |k: int| 0u8),
            decreases AREA - i,
        {
            framebuffer.push(0);
            i = i + 1;
        }
        ExampleDisplay { framebuffer, iface }
    }

    /// The contents, row by row.
    pub closed spec fn contents(&self) -> Seq<u8> {
        self.framebuffer@
    }

    /// The contents cover the whole surface.
    pub open spec fn wf(&self) -> bool {
        self.contents().len() == AREA
    }

    /// The width and height of the surface.
    pub fn size(&self) -> (r: (u32, u32))
        ensures
            r == (64u32, 64u32),
    {
        (64, 64)
    }

    /// Writes one pixel; a write off the surface is dropped.
    pub fn draw_pixel(&mut self, p: Pixel)
        requires
            old(self).wf(),
        ensures
            final(self).wf(),
            final(self).contents() == paint(old(self).contents(), p),
            final(self).interface() == old(self).interface(),
    {
        if 0 <= p.x && p.x < SIDE && 0 <= p.y && p.y < SIDE {
            let index: usize = (p.x + p.y * SIDE) as usize;
            self.framebuffer.set(index, p.luma);
        }
    }

    /// The gray level at `(x, y)`, or `None` off the surface.
    pub fn pixel(&self, x: i32, y: i32) -> (r: Option<u8>)
        requires
            self.wf(),
        ensures
            r == pixel_at(self.contents(), x, y),
    {
        if 0 <= x && x < SIDE && 0 <= y && y < SIDE {
            let index: usize = (x + y * SIDE) as usize;
            Some(self.framebuffer[index])
        } else {
            None
        }
    }
}

impl<SPI: SpiWrite> ExampleDisplay<SPI> {
    /// Sends the framebuffer over the display's link.
    pub fn flush(&self) -> (r: Result<(), CommError>)
        ensures
            r == (self.interface().answer())(self.contents()),
    {
        self.iface.send_bytes(self.framebuffer.as_slice())
    }
}

impl<SPI: SpiWrite> PixelSurface for ExampleDisplay<SPI> {
    open spec fn well_formed(&self) -> bool {
        self.wf()
    }

    open spec fn frame(&self) -> Seq<u8> {
        self.contents()
    }

    open spec fn link(&self) -> spec_fn(Seq<u8>) -> Result<(), CommError> {
        self.interface().answer()
    }

    fn draw_iter(&mut self, pixels: &Vec<Pixel>)
        ensures
            final(self).interface() == old(self).interface(),
    {
        let mut i: usize = 0;
        while i < pixels.len()
            invariant
                i <= pixels@.len(),
                self.wf(),
                self.contents() == paint_all(old(self).contents(), pixels@.subrange(0, i as int)),
                self.interface() == old(self).interface(),
            decreases pixels@.len() - i,
        {
            self.draw_pixel(pixels[i]);
            assert(pixels@.subrange(0, i + 1).drop_last() =~= pixels@.subrange(0, i as int));
            i = i + 1;
        }
        assert(pixels@.subrange(0, i as int) =~= pixels@);
    }

    fn flush(&self) -> (r: Result<(), CommError>) {
        ExampleDisplay::flush(self)
    }
}

/// One call on a surface.
pub enum SurfaceCall {
    /// Write these pixels, in order.
    Draw(Seq<Pixel>),
    /// Transmit the contents.
    Flush,
}

/// The results of the transmissions among `calls`, run in order on a surface
/// that holds `frame` and whose link answers as `link`.
pub open spec fn surface_replies(
    link: spec_fn(Seq<u8>) -> Result<(), CommError>,
    frame: Seq<u8>,
    calls: Seq<SurfaceCall>,
) -> Seq<Result<(), CommError>>
    decreases calls.len(),
{
    if calls.len() == 0 {
        Seq::empty()
    } else {
        match calls[0] {
            SurfaceCall::Draw(pixels) => surface_replies(link, paint_all(frame, pixels), calls.drop_first()),
            SurfaceCall::Flush => seq![link(frame)] + surface_replies(link, frame, calls.drop_first()),
        }
    }
}

/// The contents after `calls`, run in order on a surface that holds `frame`.
pub open spec fn frame_after(frame: Seq<u8>, calls: Seq<SurfaceCall>) -> Seq<u8>
    decreases calls.len(),
{
    if calls.len() == 0 {
        frame
    } else {
        match calls[0] {
            SurfaceCall::Draw(pixels) => frame_after(paint_all(frame, pixels), calls.drop_first()),
            SurfaceCall::Flush => frame_after(frame, calls.drop_first()),
        }
    }
}

/// Whether `b` answers every sequence of calls as `a` does, and ends with the
/// same contents.
pub open spec fn surfaces_alike<A: PixelSurface, B: PixelSurface>(a: A, b: B) -> bool {
    &&& b.well_formed() == a.well_formed()
    &&& forall|calls: Seq<SurfaceCall>|
        #[trigger] surface_replies(b.link(), b.frame(), calls) == surface_replies(a.link(), a.frame(), calls)
    &&& forall|calls: Seq<SurfaceCall>| #[trigger] frame_after(b.frame(), calls) == frame_after(a.frame(), calls)
}

/// Surfaces with the same contents and the same link answer alike: every
/// sequence of draws and transmissions gives the same results and leaves the
/// same contents on both.
pub proof fn lemma_same_surfaces_answer_alike<A: PixelSurface, B: PixelSurface>(a: A, b: B)
    requires
        b.well_formed() == a.well_formed(),
        b.frame() == a.frame(),
        b.link() == a.link(),
    ensures
        surfaces_alike(a, b),
{
}

/// Surfaces that answer alike still answer alike after the same draw, and give
/// the same result to a transmission.
pub proof fn lemma_alike_surfaces_stay_alike<A: PixelSurface, B: PixelSurface>(
    a: A,
    b: B,
    pixels: Seq<Pixel>,
    a_next: A,
    b_next: B,
)
    requires
        surfaces_alike(a, b),
        b.link() == a.link(),
        a_next.well_formed() == a.well_formed(),
        a_next.frame() == paint_all(a.frame(), pixels),
        a_next.link() == a.link(),
        b_next.well_formed() == b.well_formed(),
        b_next.frame() == paint_all(b.frame(), pixels),
        b_next.link() == b.link(),
    ensures
        (b.link())(b.frame()) == (a.link())(a.frame()),
        surfaces_alike(a_next, b_next),
{
    let just_flush = seq![SurfaceCall::Flush];
    assert(surface_replies(b.link(), b.frame(), just_flush) == surface_replies(a.link(), a.frame(), just_flush));
    assert(surface_replies(a.link(), a.frame(), just_flush)[0] == (a.link())(a.frame()));
    assert(surface_replies(b.link(), b.frame(), just_flush)[0] == (b.link())(b.frame()));
    let no_calls = Seq::<SurfaceCall>::empty();
    assert(frame_after(b.frame(), no_calls) == frame_after(a.frame(), no_calls));
    lemma_same_surfaces_answer_alike(a_next, b_next);
}

/// Hides the concrete type of a surface behind the pixel-surface capability.
///
/// The handle that comes back holds the same contents and transmits as
/// `display` would have.
pub fn get_display<D: PixelSurface + 'static>(display: D) -> (r: impl PixelSurface + 'static)
    ensures
        r.well_formed() == display.well_formed(),
        r.frame() == display.frame(),
        r.link() == display.link(),
        surfaces_alike(display, r),
{
    proof {
        lemma_same_surfaces_answer_alike(display, display);
    }
    display
}

/// The largest circle diameter that can be drawn.
pub const MAX_DIAMETER: u32 = 16000;

/// The largest distance from the origin, on either axis, of a circle's corner.
pub const MAX_CORNER: i32 = 536870912;

/// Whether a circle with this corner and diameter can be drawn: outside
/// these bounds the rasterizer's integer arithmetic would overflow.
pub open spec fn circle_in_range(x: i32, y: i32, diameter: u32) -> bool {
    &&& diameter <= MAX_DIAMETER
    &&& -MAX_CORNER <= x <= MAX_CORNER
    &&& -MAX_CORNER <= y <= MAX_CORNER
}

/// The points of the outline of the circle whose bounding square has its
/// top-left corner at `(x, y)` and the side `diameter`, stroked one pixel wide
/// in the gray level `luma`.
pub uninterp spec fn circle_outline_of(x: i32, y: i32, diameter: u32, luma: u8) -> Seq<Pixel>;

/// Relies on embedded_graphics' `Circle` styled with `PrimitiveStyle::with_stroke`:
/// its pixel iterator yields the points of the outline, each in the stroke color
/// (the style has no fill color). Its arithmetic on coordinates and on the
/// squared diameter is done in `i32` and `u32`, so the inputs are bounded.
#[verifier::external_body]
fn circle_outline(x: i32, y: i32, diameter: u32, luma: u8) -> (r: Vec<Pixel>)
    requires
        circle_in_range(x, y, diameter),
    ensures
        r@ == circle_outline_of(x, y, diameter, luma),
        forall|i: int| 0 <= i < r@.len() ==> (#[trigger] r@[i]).luma == luma,
{
    Circle::new(Point::new(x, y), diameter)
        .into_styled(PrimitiveStyle::with_stroke(Gray8::new(luma), 1))
        .pixels()
        .map(|p| Pixel { x: p.0.x, y: p.0.y, luma: p.1.luma() })
        .collect()
}

/// Draws the outline of the circle whose bounding square has its top-left
/// corner at `(x, y)` and the side `diameter`, in the gray level `luma`.
pub fn draw_circle<D: PixelSurface>(target: &mut D, x: i32, y: i32, diameter: u32, luma: u8)
    requires
        old(target).well_formed(),
        circle_in_range(x, y, diameter),
    ensures
        final(target).well_formed(),
        final(target).frame() == paint_all(old(target).frame(), circle_outline_of(x, y, diameter, luma)),
        final(target).link() == old(target).link(),
{
    let outline = circle_outline(x, y, diameter, luma);
    target.draw_iter(&outline);
}

/// Pixel writes that fall off the surface are dropped: drawing only such
/// pixels leaves the contents exactly as they were.
pub proof fn lemma_off_surface_writes_dropped(frame: Seq<u8>, pixels: Seq<Pixel>)
    requires
        forall|i: int| 0 <= i < pixels.len() ==> !on_surface(#[trigger] pixels[i].x, pixels[i].y),
    ensures
        paint_all(frame, pixels) == frame,
    decreases pixels.len(),
{
    if pixels.len() > 0 {
        let rest = pixels.drop_last();
        assert forall|i: int| 0 <= i < rest.len() implies !on_surface(#[trigger] rest[i].x, rest[i].y) by {
            assert(rest[i] == pixels[i]);
        }
        lemma_off_surface_writes_dropped(frame, rest);
        assert(!on_surface(pixels[pixels.len() - 1].x, pixels[pixels.len() - 1].y));
    }
}

/// Writing a gray level at a point on the surface and reading that point back
/// gives the gray level written.
pub proof fn lemma_write_then_read(frame: Seq<u8>, p: Pixel)
    requires
        frame.len() == AREA,
        on_surface(p.x, p.y),
    ensures
        pixel_at(paint(frame, p), p.x, p.y) == Some(p.luma),
{
    assert(0 <= index_of(p.x, p.y) < AREA);
}

} // verus!
