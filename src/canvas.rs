//! The canvas: an RGB image that the rasterizer paints on, and the
//! application state that owns it.
use vstd::prelude::*;
use crate::line::{line_pixels, line_pixels_spec, lemma_line_shape, offset, step};

verus! {

/// A colour as red, green and blue channels.
pub type Rgb = (u8, u8, u8);

pub const BLACK: Rgb = (0, 0, 0);

pub const WHITE: Rgb = (255, 255, 255);

/// An RGB image held in an `image::RgbImage`.
#[verifier::external_body]
pub struct Canvas {
    img: image::RgbImage,
}

/// The colour of each pixel of the image, keyed by `(x, y)`.
pub uninterp spec fn canvas_pixels(c: Canvas) -> Map<(u32, u32), Rgb>;

/// The width and height that the image was made with.
pub uninterp spec fn canvas_size(c: Canvas) -> (u32, u32);

/// The pixel positions of a `w` by `h` image.
pub open spec fn grid(w: u32, h: u32) -> Set<(u32, u32)> {
    Set::new(|p: (u32, u32)| p.0 < w && p.1 < h)
}

impl Canvas {
    /// Relies on `image::ImageBuffer::from_pixel`: a `w` by `h` image with
    /// every pixel set to `color`. It panics when the buffer length
    /// `3 * w * h` overflows `usize`.
    #[verifier::external_body]
    pub(crate) fn new(w: u32, h: u32, color: Rgb) -> (r: Canvas)
        requires
            3 * w * h <= usize::MAX,
        ensures
            canvas_size(r) == (w, h),
            canvas_pixels(r) == Map::new(|p: (u32, u32)| grid(w, h).contains(p), |p: (u32, u32)| color),
    {
        Canvas { img: image::ImageBuffer::from_pixel(w, h, image::Rgb([color.0, color.1, color.2])) }
    }

    /// Relies on `image::ImageBuffer::put_pixel`: sets one pixel; it panics
    /// outside the image.
    #[verifier::external_body]
    pub(crate) fn put_pixel(&mut self, x: u32, y: u32, color: Rgb)
        requires
            x < canvas_size(*old(self)).0,
            y < canvas_size(*old(self)).1,
        ensures
            canvas_size(*final(self)) == canvas_size(*old(self)),
            canvas_pixels(*final(self)) == canvas_pixels(*old(self)).insert((x, y), color),
    {
        self.img.put_pixel(x, y, image::Rgb([color.0, color.1, color.2]));
    }

    /// Relies on `image::ImageBuffer::get_pixel`: the colour of one pixel; it
    /// panics outside the image.
    #[verifier::external_body]
    pub(crate) fn get_pixel(&self, x: u32, y: u32) -> (r: Rgb)
        requires
            x < canvas_size(*self).0,
            y < canvas_size(*self).1,
        ensures
            r == canvas_pixels(*self)[(x, y)],
    {
        let p = self.img.get_pixel(x, y);
        (p.0[0], p.0[1], p.0[2])
    }

    /// Relies on `image::ImageBuffer::as_raw`: the channels of each pixel,
    /// row by row, three bytes per pixel.
    #[verifier::external_body]
    pub(crate) fn raw_bytes(&self) -> (r: Vec<u8>)
        ensures
            r@.len() == 3 * canvas_size(*self).0 * canvas_size(*self).1,
            forall|x: u32, y: u32|
                #![trigger canvas_pixels(*self)[(x, y)]]
                x < canvas_size(*self).0 && y < canvas_size(*self).1 ==> {
                    let i = 3 * (y * canvas_size(*self).0 + x);
                    let c = canvas_pixels(*self)[(x, y)];
                    r@[i] == c.0 && r@[i + 1] == c.1 && r@[i + 2] == c.2
                },
    {
        self.img.as_raw().clone()
    }

    /// The pixels of the image are exactly its grid.
    pub open spec fn wf(self) -> bool {
        canvas_pixels(self).dom() == grid(canvas_size(self).0, canvas_size(self).1)
    }
}

/// `pts` painted in order onto `m` in `color`.
pub open spec fn paint(m: Map<(u32, u32), Rgb>, pts: Seq<(u32, u32)>, color: Rgb) -> Map<(u32, u32), Rgb>
    decreases pts.len(),
{
    if pts.len() == 0 {
        m
    } else {
        paint(m, pts.drop_last(), color).insert(pts.last(), color)
    }
}

/// Painting points that lie on the image keeps its pixel positions, gives
/// each painted point the colour, and leaves every other pixel alone.
pub proof fn lemma_paint(m: Map<(u32, u32), Rgb>, pts: Seq<(u32, u32)>, color: Rgb)
    requires
        forall|i: int| 0 <= i < pts.len() ==> m.dom().contains(#[trigger] pts[i]),
    ensures
        paint(m, pts, color).dom() == m.dom(),
        forall|p: (u32, u32)|
            m.dom().contains(p) ==> #[trigger] paint(m, pts, color)[p] == if pts.contains(p) {
                color
            } else {
                m[p]
            },
    decreases pts.len(),
{
    if pts.len() > 0 {
        let rest = pts.drop_last();
        assert forall|i: int| 0 <= i < rest.len() implies m.dom().contains(#[trigger] rest[i]) by {
            assert(rest[i] == pts[i]);
        }
        lemma_paint(m, rest, color);
        assert(m.dom().contains(pts[pts.len() - 1]));
        assert(paint(m, pts, color).dom() =~= m.dom());
        assert forall|p: (u32, u32)| m.dom().contains(p) implies #[trigger] paint(m, pts, color)[p] == if pts.contains(p) {
            color
        } else {
            m[p]
        } by {
            if p != pts.last() {
                if pts.contains(p) {
                    let i = choose|i: int| 0 <= i < pts.len() && pts[i] == p;
                    assert(rest[i] == p);
                }
                if rest.contains(p) {
                    let i = choose|i: int| 0 <= i < rest.len() && rest[i] == p;
                    assert(pts[i] == p);
                }
            } else {
                assert(pts[pts.len() - 1] == p);
            }
        }
    }
}

/// Painting the same points twice in the same colour leaves what painting
/// them once leaves.
pub proof fn lemma_paint_twice(m: Map<(u32, u32), Rgb>, pts: Seq<(u32, u32)>, color: Rgb)
    requires
        forall|i: int| 0 <= i < pts.len() ==> m.dom().contains(#[trigger] pts[i]),
    ensures
        paint(paint(m, pts, color), pts, color) == paint(m, pts, color),
{
    lemma_paint(m, pts, color);
    let once = paint(m, pts, color);
    assert forall|i: int| 0 <= i < pts.len() implies once.dom().contains(#[trigger] pts[i]) by {}
    lemma_paint(once, pts, color);
    assert(paint(once, pts, color) =~= once);
}

/// The pixels of a line between two points of a `w` by `h` grid lie on it.
pub proof fn lemma_line_on_grid(start: (u32, u32), end: (u32, u32), w: u32, h: u32)
    requires
        grid(w, h).contains(start),
        grid(w, h).contains(end),
    ensures
        forall|i: int|
            0 <= i < line_pixels_spec(start, end).len() ==> grid(w, h).contains(
                #[trigger] line_pixels_spec(start, end)[i],
            ),
{
    let (sx, sy, ex, ey) = (start.0 as int, start.1 as int, end.0 as int, end.1 as int);
    lemma_line_shape(sx, sy, ex, ey);
    let pts = crate::line::line_points(sx, sy, ex, ey);
    assert forall|i: int| 0 <= i < line_pixels_spec(start, end).len() implies grid(w, h).contains(
        #[trigger] line_pixels_spec(start, end)[i],
    ) by {
        let p = pts[i];
        assert(p.0 == step(sx, ex, offset(sx, ex, p.0)));
        assert(0 <= p.0 < w && 0 <= p.1 < h);
    }
}

/// What the drawing loop works on: the canvas, its size and the colour that
/// lines are drawn in.
pub struct AppState {
    pub w: u32,
    pub h: u32,
    pub draw_color: Rgb,
    pub canvas: Canvas,
}

impl AppState {
    /// The canvas has the state's size.
    pub open spec fn wf(&self) -> bool {
        &&& self.canvas.wf()
        &&& canvas_size(self.canvas) == (self.w, self.h)
    }

    pub open spec fn in_bounds(&self, p: (u32, u32)) -> bool {
        p.0 < self.w && p.1 < self.h
    }

    pub open spec fn pixels(&self) -> Map<(u32, u32), Rgb> {
        canvas_pixels(self.canvas)
    }

    /// A white `w` by `h` canvas that draws in black.
    pub fn new(w: u32, h: u32) -> (r: AppState)
        requires
            3 * w * h <= usize::MAX,
        ensures
            r.wf(),
            r.w == w,
            r.h == h,
            r.draw_color == BLACK,
            r.pixels() == Map::new(|p: (u32, u32)| grid(w, h).contains(p), |p: (u32, u32)| WHITE),
    {
        let canvas = Canvas::new(w, h, WHITE);
        assert(canvas_pixels(canvas).dom() =~= grid(w, h));
        AppState { w, h, draw_color: BLACK, canvas }
    }

    /// The colour of the pixel at `(x, y)`.
    pub fn pixel(&self, x: u32, y: u32) -> (r: Rgb)
        requires
            self.wf(),
            x < self.w,
            y < self.h,
        ensures
            r == self.pixels()[(x, y)],
    {
        self.canvas.get_pixel(x, y)
    }

    /// The canvas as bytes: the red, green and blue channels of each pixel,
    /// row by row.
    pub fn rgb_bytes(&self) -> (r: Vec<u8>)
        requires
            self.wf(),
        ensures
            r@.len() == 3 * self.w * self.h,
            forall|x: u32, y: u32|
                #![trigger self.pixels()[(x, y)]]
                x < self.w && y < self.h ==> {
                    let i = 3 * (y * self.w + x);
                    let c = self.pixels()[(x, y)];
                    r@[i] == c.0 && r@[i + 1] == c.1 && r@[i + 2] == c.2
                },
    {
        self.canvas.raw_bytes()
    }
}

/// Paints the line from `start` to `end` in the current colour: exactly the
/// pixels that `line_pixels` lists, `start` first.
pub fn draw_line(state: &mut AppState, start: (u32, u32), end: (u32, u32))
    requires
        old(state).wf(),
        old(state).in_bounds(start),
        old(state).in_bounds(end),
    ensures
        final(state).wf(),
        final(state).w == old(state).w,
        final(state).h == old(state).h,
        final(state).draw_color == old(state).draw_color,
        final(state).pixels() == paint(old(state).pixels(), line_pixels_spec(start, end), old(state).draw_color),
{
    let pixel = state.draw_color;
    let pts = line_pixels(start, end);
    proof {
        lemma_line_on_grid(start, end, state.w, state.h);
    }
    let ghost m0 = state.pixels();
    let mut i: usize = 0;
    while i < pts.len()
        invariant
            pts@ == line_pixels_spec(start, end),
            forall|j: int| 0 <= j < pts@.len() ==> grid(state.w, state.h).contains(#[trigger] pts@[j]),
            0 <= i <= pts@.len(),
            state.wf(),
            state.w == old(state).w,
            state.h == old(state).h,
            state.draw_color == pixel,
            m0 == old(state).pixels(),
            state.pixels() == paint(m0, pts@.take(i as int), pixel),
        decreases pts@.len() - i,
    {
        let p = pts[i];
        assert(grid(state.w, state.h).contains(pts@[i as int]));
        state.canvas.put_pixel(p.0, p.1, pixel);
        proof {
            assert(pts@.take(i + 1).drop_last() =~= pts@.take(i as int));
            assert(state.canvas.wf()) by {
                assert(state.pixels().dom() =~= grid(state.w, state.h));
            }
        }
        i = i + 1;
    }
    assert(pts@.take(pts@.len() as int) =~= pts@);
}

/// Drawing the same line twice in the same colour leaves the canvas as
/// drawing it once does: the painted pixels depend on the end points alone.
pub proof fn lemma_draw_line_twice(
    m: Map<(u32, u32), Rgb>,
    w: u32,
    h: u32,
    start: (u32, u32),
    end: (u32, u32),
    color: Rgb,
)
    requires
        m.dom() == grid(w, h),
        grid(w, h).contains(start),
        grid(w, h).contains(end),
    ensures
        paint(paint(m, line_pixels_spec(start, end), color), line_pixels_spec(start, end), color)
            == paint(m, line_pixels_spec(start, end), color),
{
    lemma_line_on_grid(start, end, w, h);
    lemma_paint_twice(m, line_pixels_spec(start, end), color);
}

} // verus!
