use crate::color::Triple;
use vstd::prelude::*;

verus! {

/// The bit pattern of 1.0: full coverage.
pub const OPAQUE: u32 = 0x3F80_0000;

/// The bit pattern of 0.5: the factor that joins the two axes of the gradient.
pub const MIDPOINT: u32 = 0x3F00_0000;

/// One scene-referred pixel: a working-space colour and its coverage.
#[derive(Clone, Copy, Debug, PartialEq, Eq, Structural)]
pub struct ScenePixel {
    pub rgb: Triple,
    pub coverage: u32,
}

/// What a scene buffer holds: its dimensions and its samples, row after row,
/// four to a pixel in the order red, green, blue, coverage.
pub struct SceneView {
    pub width: nat,
    pub height: nat,
    pub samples: Seq<u32>,
}

impl SceneView {
    /// There are exactly four samples for each pixel.
    pub open spec fn wf(self) -> bool {
        self.samples.len() == self.width * self.height * 4
    }

    /// The pixel whose samples start at `4 * index`.
    pub open spec fn pixel(self, index: int) -> ScenePixel {
        ScenePixel {
            rgb: Triple {
                x: self.samples[4 * index],
                y: self.samples[4 * index + 1],
                z: self.samples[4 * index + 2],
            },
            coverage: self.samples[4 * index + 3],
        }
    }

    /// The pixel in row `row`, counted from the first row stored, and column
    /// `column`.
    pub open spec fn at(self, row: int, column: int) -> ScenePixel {
        self.pixel(row * self.width + column)
    }
}

/// The index of a pixel in a row-major grid lies inside the grid.
pub(crate) proof fn lemma_pixel_index(width: int, height: int, row: int, column: int)
    requires
        0 <= row < height,
        0 <= column < width,
    ensures
        0 <= row * width + column < width * height,
        (row * width + column) / width == row,
        (row * width + column) % width == column,
{
    assert(row * width + column < width * height) by (nonlinear_arith)
        requires
            0 <= row < height,
            0 <= column < width,
    {
        assert((row + 1) * width <= height * width);
    }
    assert(0 <= row * width) by (nonlinear_arith)
        requires
            0 <= row,
            0 < width,
    ;
    vstd::arithmetic::div_mod::lemma_fundamental_div_mod_converse(
        row * width + column,
        width,
        row,
        column,
    );
}

/// Every index of a row-major grid is the index of one row and one column.
pub(crate) proof fn lemma_pixel_position(width: int, height: int, index: int)
    requires
        0 <= index < width * height,
        0 < width,
    ensures
        0 <= index / width < height,
        0 <= index % width < width,
        index == (index / width) * width + index % width,
{
    vstd::arithmetic::div_mod::lemma_fundamental_div_mod(index, width);
    let row = index / width;
    assert(0 <= row < height) by (nonlinear_arith)
        requires
            0 <= index < width * height,
            0 < width,
            index == width * row + index % width,
            0 <= index % width < width,
    ;
    assert(width * row == row * width) by (nonlinear_arith);
}

/// A scene-referred pixel buffer of 32-bit samples.
#[derive(Debug, PartialEq, Eq)]
pub struct SceneBuffer {
    width: usize,
    height: usize,
    samples: Vec<u32>,
}

impl View for SceneBuffer {
    type V = SceneView;

    closed spec fn view(&self) -> SceneView {
        SceneView { width: self.width as nat, height: self.height as nat, samples: self.samples@ }
    }
}

impl SceneBuffer {
    #[verifier::type_invariant]
    spec fn well_formed(self) -> bool {
        self.samples@.len() == self.width * self.height * 4
    }

    /// A buffer over samples already known to fill the grid.
    pub(crate) fn assemble(width: usize, height: usize, samples: Vec<u32>) -> (buffer: SceneBuffer)
        requires
            samples@.len() == width * height * 4,
        ensures
            buffer@ == (SceneView {
                width: width as nat,
                height: height as nat,
                samples: samples@,
            }),
    {
        SceneBuffer { width, height, samples }
    }

    /// A buffer over `samples`, if there are exactly four for each pixel of a
    /// `width` by `height` grid.
    pub fn from_samples(width: usize, height: usize, samples: Vec<u32>) -> (r: Option<SceneBuffer>)
        ensures
            (r is Some) <==> (samples@.len() == width * height * 4),
            r matches Some(buffer) ==> buffer@ == (SceneView {
                width: width as nat,
                height: height as nat,
                samples: samples@,
            }),
    {
        assert(0 <= width * height) by (nonlinear_arith);
        let len = samples.len();
        match width.checked_mul(height) {
            Some(pixels) => match pixels.checked_mul(4) {
                Some(count) => {
                    if len == count {
                        Some(SceneBuffer { width, height, samples })
                    } else {
                        None
                    }
                },
                None => None,
            },
            None => None,
        }
    }

    pub fn width(&self) -> (width: usize)
        ensures
            width == self@.width,
    {
        self.width
    }

    pub fn height(&self) -> (height: usize)
        ensures
            height == self@.height,
    {
        self.height
    }

    /// The samples, which always fill the grid.
    pub fn samples(&self) -> (samples: &Vec<u32>)
        ensures
            samples@ == self@.samples,
            self@.wf(),
    {
        proof {
            use_type_invariant(self);
        }
        &self.samples
    }

    /// The pixel in row `row` and column `column`, if the grid has one there.
    pub fn pixel(&self, row: usize, column: usize) -> (r: Option<ScenePixel>)
        ensures
            r is Some <==> row < self@.height && column < self@.width,
            r matches Some(pixel) ==> pixel == self@.at(row as int, column as int),
    {
        proof {
            use_type_invariant(self);
        }
        if row < self.height && column < self.width {
            proof {
                lemma_pixel_index(self.width as int, self.height as int, row as int, column as int);
                assert(0 <= row * self.width) by (nonlinear_arith);
                assert(self.samples@.len() == self.samples.len());
            }
            let start = (row * self.width + column) * 4;
            Some(
                ScenePixel {
                    rgb: Triple {
                        x: self.samples[start],
                        y: self.samples[start + 1],
                        z: self.samples[start + 2],
                    },
                    coverage: self.samples[start + 3],
                },
            )
        } else {
            None
        }
    }
}

} // verus!
