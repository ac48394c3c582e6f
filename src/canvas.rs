use vstd::prelude::*;

verus! {

/// A colour whose channels are already saturated to `0..=255`, ready to be
/// written to the surface.
#[derive(Clone, Copy, Debug, PartialEq, Eq, Structural)]
pub struct Rgb8 {
    pub red: u8,
    pub green: u8,
    pub blue: u8,
}

/// The `0x00RRGGBB` word that the surface stores for a colour.
pub open spec fn packed(c: Rgb8) -> nat {
    c.red as nat * 65536 + c.green as nat * 256 + c.blue as nat
}

impl Rgb8 {
    pub fn new(red: u8, green: u8, blue: u8) -> (r: Rgb8)
        ensures
            r == (Rgb8 { red, green, blue }),
    {
        Rgb8 { red, green, blue }
    }

    /// Packs the three channels into one `0x00RRGGBB` word.
    pub fn to_u32(&self) -> (r: u32)
        ensures
            r == packed(*self),
            r < 16777216,
    {
        (self.red as u32) * 65536 + (self.green as u32) * 256 + (self.blue as u32)
    }
}


/// The abstract state of a canvas: its size and its pixels, row by row from
/// the top-left corner.
pub struct CanvasModel {
    pub width: nat,
    pub height: nat,
    pub pixels: Seq<u32>,
}

/// Column on the surface of the canvas-centred abscissa `x`.
pub open spec fn screen_x(width: int, x: int) -> int {
    width / 2 + x
}

/// Row on the surface of the canvas-centred ordinate `y` (`y` grows upward,
/// rows grow downward).
pub open spec fn screen_y(height: int, y: int) -> int {
    height / 2 - y - 1
}

/// Whether the canvas-centred point `(x, y)` falls on a `width` by `height`
/// surface.
pub open spec fn on_surface(width: int, height: int, x: int, y: int) -> bool {
    0 <= screen_x(width, x) < width && 0 <= screen_y(height, y) < height
}

/// Position in the row-major buffer of the canvas-centred point `(x, y)`.
pub open spec fn buffer_index(width: int, height: int, x: int, y: int) -> int {
    screen_x(width, x) + width * screen_y(height, y)
}

/// Canvas-centred abscissa of column `col`.
pub open spec fn centred_x(width: int, col: int) -> int {
    col - width / 2
}

/// Canvas-centred ordinate of row `row`.
pub open spec fn centred_y(height: int, row: int) -> int {
    height / 2 - 1 - row
}

/// The pixel at column `col` and row `row` of a canvas model.
pub open spec fn pixel_at(m: CanvasModel, col: int, row: int) -> u32 {
    m.pixels[row * m.width + col]
}

/// The centred coordinates of a pixel lead back to that pixel: `render`
/// hands `shade` the point that `put_pixel` would paint at the same place.
pub proof fn lemma_centred_round_trip(width: int, height: int, col: int, row: int)
    requires
        0 <= col < width,
        0 <= row < height,
    ensures
        screen_x(width, centred_x(width, col)) == col,
        screen_y(height, centred_y(height, row)) == row,
        on_surface(width, height, centred_x(width, col), centred_y(height, row)),
        buffer_index(width, height, centred_x(width, col), centred_y(height, row)) == row * width + col,
{
}

/// Pixel `(col, row)` of `m` holds a colour that `shade` may return for
/// that pixel's canvas-centred coordinates.
pub open spec fn shaded<F: Fn(i32, i32) -> Rgb8>(shade: &F, m: CanvasModel, col: int, row: int) -> bool {
    exists|c: Rgb8|
        #![trigger packed(c)]
        shade.ensures((centred_x(m.width as int, col) as i32, centred_y(m.height as int, row) as i32), c)
            && pixel_at(m, col, row) == packed(c)
}

/// Distinct positions of a `width`-wide grid sit at distinct buffer indices,
/// all below `width * height`.
proof fn lemma_grid_index(width: int, height: int, c1: int, r1: int, c2: int, r2: int)
    requires
        0 <= c1 < width,
        0 <= r1 < height,
        0 <= c2 < width,
        0 <= r2 < height,
    ensures
        0 <= r1 * width + c1 < width * height,
        (c1 != c2 || r1 != r2) ==> r1 * width + c1 != r2 * width + c2,
{
    assert(0 <= r1 * width + c1 < width * height) by (nonlinear_arith)
        requires
            0 <= c1 < width,
            0 <= r1 < height,
    ;
    if r1 < r2 {
        assert(r1 * width + c1 < r2 * width + c2) by (nonlinear_arith)
            requires
                0 <= c1 < width,
                0 <= c2,
                r1 < r2,
        ;
    } else if r2 < r1 {
        assert(r2 * width + c2 < r1 * width + c1) by (nonlinear_arith)
            requires
                0 <= c2 < width,
                0 <= c1,
                r2 < r1,
        ;
    }
}

/// A drawing surface of `width` by `height` pixels. Coordinates handed to it
/// are centred: `(0, 0)` is the middle of the image and `y` grows upward.
pub struct Canvas {
    buffer: Vec<u32>,
    width: usize,
    height: usize,
}

impl View for Canvas {
    type V = CanvasModel;

    closed spec fn view(&self) -> CanvasModel {
        CanvasModel { width: self.width as nat, height: self.height as nat, pixels: self.buffer@ }
    }
}

impl Canvas {
    /// The buffer holds one pixel per position, and both sides can be
    /// reached by `i32` coordinates.
    pub open spec fn wf(&self) -> bool {
        &&& self@.pixels.len() == self@.width * self@.height
        &&& self@.width <= i32::MAX
        &&& self@.height <= i32::MAX
    }

    /// A `width` by `height` canvas, every pixel black.
    pub fn new(width: usize, height: usize) -> (r: Canvas)
        requires
            width <= i32::MAX,
            height <= i32::MAX,
            width * height <= usize::MAX,
        ensures
            r.wf(),
            r@.width == width,
            r@.height == height,
            r@.pixels == Seq::new((width * height) as nat, |i: int| 0u32),
    {
        let buffer: Vec<u32> = vec![0u32; width * height];
        let r = Canvas { buffer, width, height };
        assert(r@.pixels =~= Seq::new((width * height) as nat, |i: int| 0u32));
        r
    }

    /// Paints every pixel with `color`.
    pub fn clear_canvas(&mut self, color: &Rgb8)
        requires
            old(self).wf(),
        ensures
            final(self).wf(),
            final(self)@.width == old(self)@.width,
            final(self)@.height == old(self)@.height,
            final(self)@.pixels == Seq::new(old(self)@.pixels.len(), |i: int| packed(*color) as u32),
    {
        let col = color.to_u32();
        let n = self.buffer.len();
        let mut i: usize = 0;
        while i < n
            invariant
                n == self.buffer.len(),
                n == old(self).buffer.len(),
                self.width == old(self).width,
                self.height == old(self).height,
                col == packed(*color),
                0 <= i <= n,
                forall|k: int| 0 <= k < i ==> self.buffer@[k] == col,
            decreases n - i,
        {
            self.buffer.set(i, col);
            i = i + 1;
        }
        assert(self.buffer@ =~= Seq::new(old(self)@.pixels.len(), |k: int| packed(*color) as u32));
    }

    /// Paints the canvas-centred point `(x, y)` with `color`; a point off the
    /// surface is ignored.
    pub fn put_pixel(&mut self, x: i32, y: i32, color: &Rgb8)
        requires
            old(self).wf(),
        ensures
            final(self).wf(),
            final(self)@.width == old(self)@.width,
            final(self)@.height == old(self)@.height,
            on_surface(old(self)@.width as int, old(self)@.height as int, x as int, y as int)
                ==> final(self)@.pixels == old(self)@.pixels.update(
                    buffer_index(old(self)@.width as int, old(self)@.height as int, x as int, y as int),
                    packed(*color) as u32,
                ),
            !on_surface(old(self)@.width as int, old(self)@.height as int, x as int, y as int)
                ==> final(self)@.pixels == old(self)@.pixels,
    {
        let n = self.buffer.len();
        let width = self.width as i64;
        let height = self.height as i64;
        let sx: i64 = width / 2 + x as i64;
        let sy: i64 = height / 2 - y as i64 - 1;
        if sx < 0 || sx >= width || sy < 0 || sy >= height {
            return;
        }
        proof {
            assert(0 <= sx + width * sy < width * height && width * sy <= 0x4000_0000_0000_0000)
                by (nonlinear_arith)
                requires
                    0 <= sx < width,
                    0 <= sy < height,
                    width <= 0x7fff_ffff,
                    height <= 0x7fff_ffff,
            ;
            assert(n == width * height);
        }
        let pos_wide: i64 = sx + width * sy;
        assert(pos_wide < n);
        let pos = pos_wide as usize;
        let col = color.to_u32();
        self.buffer.set(pos, col);
    }

    /// Paints every pixel with the colour that `shade` gives for its
    /// canvas-centred coordinates, one call per pixel.
    pub fn render<F: Fn(i32, i32) -> Rgb8>(&mut self, shade: F)
        requires
            old(self).wf(),
            forall|x: i32, y: i32| shade.requires((x, y)),
        ensures
            final(self).wf(),
            final(self)@.width == old(self)@.width,
            final(self)@.height == old(self)@.height,
            forall|col: int, row: int|
                0 <= col < final(self)@.width && 0 <= row < final(self)@.height
                    ==> #[trigger] shaded(&shade, final(self)@, col, row),
    {
        let width = self.width;
        let height = self.height;
        let half_w = (width / 2) as i32;
        let half_h = (height / 2) as i32;
        let n = self.buffer.len();
        let mut row: usize = 0;
        while row < height
            invariant
                self.wf(),
                self.width == width,
                self.height == height,
                half_w == width / 2,
                half_h == height / 2,
                n == self.buffer@.len(),
                forall|x: i32, y: i32| shade.requires((x, y)),
                0 <= row <= height,
                forall|c0: int, r0: int|
                    0 <= c0 < width && 0 <= r0 < row ==> #[trigger] shaded(&shade, self@, c0, r0),
            decreases height - row,
        {
            let mut col: usize = 0;
            while col < width
                invariant
                    self.wf(),
                    self.width == width,
                    self.height == height,
                    half_w == width / 2,
                    half_h == height / 2,
                    n == self.buffer@.len(),
                    forall|x: i32, y: i32| shade.requires((x, y)),
                    0 <= row < height,
                    0 <= col <= width,
                    forall|c0: int, r0: int|
                        0 <= c0 < width && 0 <= r0 < height && (r0 < row || (r0 == row && c0 < col))
                            ==> #[trigger] shaded(&shade, self@, c0, r0),
                decreases width - col,
            {
                let x: i32 = col as i32 - half_w;
                let y: i32 = half_h - 1 - row as i32;
                let c = shade(x, y);
                proof {
                    lemma_grid_index(width as int, height as int, col as int, row as int, 0, 0);
                }
                let pos = row * width + col;
                let ghost before = self@;
                self.buffer.set(pos, c.to_u32());
                proof {
                    assert forall|c0: int, r0: int|
                        0 <= c0 < width && 0 <= r0 < height && (r0 < row || (r0 == row && c0 < col + 1))
                            implies #[trigger] shaded(&shade, self@, c0, r0) by {
                        if c0 != col || r0 != row {
                            lemma_grid_index(width as int, height as int, c0, r0, col as int, row as int);
                            assert(shaded(&shade, before, c0, r0));
                        } else {
                            assert(shade.ensures((x, y), c));
                        }
                    }
                }
                col = col + 1;
            }
            row = row + 1;
        }
    }

    pub fn width(&self) -> (r: usize)
        ensures
            r == self@.width,
    {
        self.width
    }

    pub fn height(&self) -> (r: usize)
        ensures
            r == self@.height,
    {
        self.height
    }

    /// The pixels, row by row from the top-left corner, as the display wants
    /// them.
    pub fn buffer(&self) -> (r: &[u32])
        ensures
            r@ == self@.pixels,
    {
        self.buffer.as_slice()
    }
}

} // verus!
