use crate::color::{Color, ColorMath, ColorSpace, Context, Rgb8, TonemapParams, Triple};
use crate::error::Error;
use crate::scene::{
    lemma_pixel_index, lemma_pixel_position, SceneBuffer, ScenePixel, SceneView, MIDPOINT, OPAQUE,
};
use vstd::prelude::*;

verus! {

/// The three anchors of the gradient: scene-referred colours in the working
/// space.  The first is blended towards the second along a row and towards
/// the third along a column.
#[derive(Clone, Copy, Debug, PartialEq, Eq, Structural)]
pub struct Palette {
    pub anchor1: Triple,
    pub anchor2: Triple,
    pub anchor3: Triple,
}

impl Palette {
    /// The palette of three tagged colours, each of which must be a
    /// scene-referred colour in the working space.
    pub fn from_colors(anchor1: Color, anchor2: Color, anchor3: Color) -> (r: Result<Palette, Error>)
        ensures
            (r is Ok) <==> (is_anchor(anchor1) && is_anchor(anchor2) && is_anchor(anchor3)),
            r matches Err(e) ==> e == Error::InvalidSpace,
            r matches Ok(palette) ==> palette == (Palette {
                anchor1: anchor1.value,
                anchor2: anchor2.value,
                anchor3: anchor3.value,
            }),
    {
        if anchor(&anchor1) && anchor(&anchor2) && anchor(&anchor3) {
            Ok(Palette { anchor1: anchor1.value, anchor2: anchor2.value, anchor3: anchor3.value })
        } else {
            Err(Error::InvalidSpace)
        }
    }
}

/// Whether `color` can anchor a gradient: it is scene-referred and in the
/// working space.
pub open spec fn is_anchor(color: Color) -> bool {
    color.space == ColorSpace::Working && color.context == Context::Scene
}

fn anchor(color: &Color) -> (yes: bool)
    ensures
        yes == is_anchor(*color),
{
    color.space == ColorSpace::Working && color.context == Context::Scene
}

impl<R, B, C, T, Q, A> ColorMath<R, B, C, T, Q, A> where
    R: Fn(usize, usize) -> u32,
    B: Fn(Triple, Triple, u32) -> Triple,
    C: Fn(ColorSpace, ColorSpace, Triple) -> Triple,
    T: Fn(Triple, TonemapParams) -> Triple,
    Q: Fn(Triple) -> Rgb8,
    A: Fn(u32) -> u8,
 {
    /// Whether `out` is the gradient at `(x, y)` of a `width` by `height`
    /// grid: with `u = ratio(x, width)` and `v = ratio(y, height)`, the blend
    /// at the midpoint of `blend(anchor1, anchor2, u)` and
    /// `blend(anchor1, anchor3, v)`.
    pub open spec fn gradient_at(
        &self,
        palette: Palette,
        width: usize,
        height: usize,
        x: usize,
        y: usize,
        out: Triple,
    ) -> bool {
        exists|u: u32, v: u32, across: Triple, up: Triple|
            {
                &&& self.ratio.ensures((x, width), u)
                &&& self.ratio.ensures((y, height), v)
                &&& #[trigger] self.blend.ensures((palette.anchor1, palette.anchor2, u), across)
                &&& #[trigger] self.blend.ensures((palette.anchor1, palette.anchor3, v), up)
                &&& self.blend.ensures((across, up, MIDPOINT), out)
            }
    }

    /// Whether `pixel` is what a gradient holds in row `row` and column
    /// `column`: opaque, with the gradient at `(column, height - 1 - row)`.
    /// Rows are stored from the highest `y` down.
    pub open spec fn gradient_pixel_at(
        &self,
        palette: Palette,
        width: usize,
        height: usize,
        row: int,
        column: int,
        pixel: ScenePixel,
    ) -> bool {
        &&& pixel.coverage == OPAQUE
        &&& self.gradient_at(
            palette,
            width,
            height,
            column as usize,
            (height - 1 - row) as usize,
            pixel.rgb,
        )
    }

    /// Whether `scene` is a gradient of `palette` over a `width` by `height`
    /// grid.
    pub open spec fn is_gradient(
        &self,
        palette: Palette,
        width: usize,
        height: usize,
        scene: SceneView,
    ) -> bool {
        &&& scene.width == width
        &&& scene.height == height
        &&& scene.wf()
        &&& forall|row: int, column: int|
            0 <= row < height && 0 <= column < width ==> self.gradient_pixel_at(
                palette,
                width,
                height,
                row,
                column,
                #[trigger] scene.at(row, column),
            )
    }

    /// The gradient has one colour at each place, where `ratio` and `blend`
    /// are functions.
    proof fn lemma_gradient_at_unique(
        &self,
        palette: Palette,
        width: usize,
        height: usize,
        x: usize,
        y: usize,
        first: Triple,
        second: Triple,
    )
        requires
            self.ratio_is_function(),
            self.blend_is_function(),
            self.gradient_at(palette, width, height, x, y, first),
            self.gradient_at(palette, width, height, x, y, second),
        ensures
            first == second,
    {
        let (u1, v1, across1, up1) = choose|u: u32, v: u32, across: Triple, up: Triple|
            {
                &&& self.ratio.ensures((x, width), u)
                &&& self.ratio.ensures((y, height), v)
                &&& #[trigger] self.blend.ensures((palette.anchor1, palette.anchor2, u), across)
                &&& #[trigger] self.blend.ensures((palette.anchor1, palette.anchor3, v), up)
                &&& self.blend.ensures((across, up, MIDPOINT), first)
            };
        let (u2, v2, across2, up2) = choose|u: u32, v: u32, across: Triple, up: Triple|
            {
                &&& self.ratio.ensures((x, width), u)
                &&& self.ratio.ensures((y, height), v)
                &&& #[trigger] self.blend.ensures((palette.anchor1, palette.anchor2, u), across)
                &&& #[trigger] self.blend.ensures((palette.anchor1, palette.anchor3, v), up)
                &&& self.blend.ensures((across, up, MIDPOINT), second)
            };
        assert(u1 == u2 && v1 == v2);
        assert(across1 == across2 && up1 == up2);
    }

    /// Generation is deterministic: two gradients of the same palette over
    /// the same grid hold the same samples, where `ratio` and `blend` are
    /// functions.
    pub proof fn lemma_gradient_deterministic(
        &self,
        palette: Palette,
        width: usize,
        height: usize,
        first: SceneView,
        second: SceneView,
    )
        requires
            self.ratio_is_function(),
            self.blend_is_function(),
            self.is_gradient(palette, width, height, first),
            self.is_gradient(palette, width, height, second),
        ensures
            first == second,
    {
        assert forall|i: int| 0 <= i < first.samples.len() implies first.samples[i]
            == second.samples[i] by {
            let index = i / 4;
            assert(0 < width) by (nonlinear_arith)
                requires
                    0 <= i < width * height * 4,
            ;
            lemma_pixel_position(width as int, height as int, index);
            let row = index / (width as int);
            let column = index % (width as int);
            assert(first.at(row, column) == first.pixel(index));
            assert(second.at(row, column) == second.pixel(index));
            assert(self.gradient_pixel_at(
                palette,
                width,
                height,
                row,
                column,
                first.at(row, column),
            ));
            assert(self.gradient_pixel_at(
                palette,
                width,
                height,
                row,
                column,
                second.at(row, column),
            ));
            self.lemma_gradient_at_unique(
                palette,
                width,
                height,
                column as usize,
                (height - 1 - row) as usize,
                first.pixel(index).rgb,
                second.pixel(index).rgb,
            );
            assert(first.pixel(index) == second.pixel(index));
            assert(i == 4 * index + i % 4);
        }
        assert(first.samples =~= second.samples);
    }

    /// The colour of the gradient at `(x, y)`.
    pub fn gradient_pixel(
        &self,
        palette: &Palette,
        width: usize,
        height: usize,
        x: usize,
        y: usize,
    ) -> (out: Triple)
        requires
            self.is_total(),
            x < width,
            y < height,
        ensures
            self.gradient_at(*palette, width, height, x, y, out),
    {
        let u = (self.ratio)(x, width);
        let v = (self.ratio)(y, height);
        let across = (self.blend)(palette.anchor1, palette.anchor2, u);
        let up = (self.blend)(palette.anchor1, palette.anchor3, v);
        (self.blend)(across, up, MIDPOINT)
    }
}

/// Generates the gradient of `palette` over a `width` by `height` grid: one
/// opaque scene-referred pixel for each place, rows from the highest `y`
/// down.  A grid without pixels gives an empty buffer.
pub fn render_bg_image<R, B, C, T, Q, A>(
    width: usize,
    height: usize,
    palette: &Palette,
    math: &ColorMath<R, B, C, T, Q, A>,
) -> (scene: SceneBuffer) where
    R: Fn(usize, usize) -> u32,
    B: Fn(Triple, Triple, u32) -> Triple,
    C: Fn(ColorSpace, ColorSpace, Triple) -> Triple,
    T: Fn(Triple, TonemapParams) -> Triple,
    Q: Fn(Triple) -> Rgb8,
    A: Fn(u32) -> u8,

    requires
        math.is_total(),
        width * height * 4 <= usize::MAX,
    ensures
        math.is_gradient(*palette, width, height, scene@),
{
    let mut samples: Vec<u32> = Vec::new();
    let mut row: usize = 0;
    while row < height
        invariant
            math.is_total(),
            width * height * 4 <= usize::MAX,
            row <= height,
            samples@.len() == row * width * 4,
            forall|r: int, c: int|
                0 <= r < row && 0 <= c < width ==> math.gradient_pixel_at(
                    *palette,
                    width,
                    height,
                    r,
                    c,
                    #[trigger] SceneView {
                        width: width as nat,
                        height: height as nat,
                        samples: samples@,
                    }.at(r, c),
                ),
        decreases height - row,
    {
        let y = height - 1 - row;
        let mut column: usize = 0;
        while column < width
            invariant
                math.is_total(),
                width * height * 4 <= usize::MAX,
                row < height,
                y == height - 1 - row,
                column <= width,
                samples@.len() == (row * width + column) * 4,
                forall|r: int, c: int|
                    (0 <= r < row && 0 <= c < width) || (r == row && 0 <= c < column)
                        ==> math.gradient_pixel_at(
                        *palette,
                        width,
                        height,
                        r,
                        c,
                        #[trigger] SceneView {
                            width: width as nat,
                            height: height as nat,
                            samples: samples@,
                        }.at(r, c),
                    ),
            decreases width - column,
        {
            let rgb = math.gradient_pixel(palette, width, height, column, y);
            let ghost before = SceneView {
                width: width as nat,
                height: height as nat,
                samples: samples@,
            };
            proof {
                lemma_pixel_index(width as int, height as int, row as int, column as int);
            }
            samples.push(rgb.x);
            samples.push(rgb.y);
            samples.push(rgb.z);
            samples.push(OPAQUE);
            proof {
                let after = SceneView {
                    width: width as nat,
                    height: height as nat,
                    samples: samples@,
                };
                assert(after.at(row as int, column as int) == ScenePixel { rgb, coverage: OPAQUE });
                assert forall|r: int, c: int|
                    (0 <= r < row && 0 <= c < width) || (r == row && 0 <= c < column)
                    implies #[trigger] after.at(r, c) == before.at(r, c) by {
                    lemma_pixel_index(width as int, height as int, r, c);
                    assert(r * width + c < row * width + column) by (nonlinear_arith)
                        requires
                            (0 <= r < row && 0 <= c < width) || (r == row && 0 <= c < column),
                            0 <= column,
                    {
                        if r < row {
                            assert((r + 1) * width <= row * width);
                        }
                    }
                }
            }
            column += 1;
        }
        proof {
            assert((row * width + width) * 4 == (row + 1) * width * 4) by (nonlinear_arith);
        }
        row += 1;
    }
    proof {
        assert(height * width == width * height) by (nonlinear_arith);
    }
    SceneBuffer::assemble(width, height, samples)
}

} // verus!
