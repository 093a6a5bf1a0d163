use crate::color::{ColorMath, ColorSpace, Rgb8, TonemapParams, Triple};
use crate::scene::{lemma_pixel_index, SceneBuffer, ScenePixel, SceneView};
use vstd::prelude::*;

verus! {

/// One display-referred pixel: encoded sRGB channels and straight coverage,
/// 8 bits each.
#[derive(Clone, Copy, Debug, PartialEq, Eq, Structural)]
pub struct DisplayPixel {
    pub rgb: Rgb8,
    pub coverage: u8,
}

/// What a display buffer holds: its dimensions and its bytes, row after row,
/// four to a pixel in the order red, green, blue, coverage.
pub struct DisplayView {
    pub width: nat,
    pub height: nat,
    pub bytes: Seq<u8>,
}

/// The pixel whose bytes start at `4 * index` of `bytes`.
pub open spec fn pixel_of(bytes: Seq<u8>, index: int) -> DisplayPixel {
    DisplayPixel {
        rgb: Rgb8 { r: bytes[4 * index], g: bytes[4 * index + 1], b: bytes[4 * index + 2] },
        coverage: bytes[4 * index + 3],
    }
}

impl DisplayView {
    /// There are exactly four bytes for each pixel.
    pub open spec fn wf(self) -> bool {
        self.bytes.len() == self.width * self.height * 4
    }

    /// The pixel whose bytes start at `4 * index`.
    pub open spec fn pixel(self, index: int) -> DisplayPixel {
        pixel_of(self.bytes, index)
    }

    /// The pixel in row `row`, counted from the first row stored, and column
    /// `column`.
    pub open spec fn at(self, row: int, column: int) -> DisplayPixel {
        self.pixel(row * self.width + column)
    }
}

/// A display-referred pixel buffer of 8-bit channels, ready to present.
#[derive(Debug, PartialEq, Eq)]
pub struct DisplayBuffer {
    width: usize,
    height: usize,
    bytes: Vec<u8>,
}

impl View for DisplayBuffer {
    type V = DisplayView;

    closed spec fn view(&self) -> DisplayView {
        DisplayView { width: self.width as nat, height: self.height as nat, bytes: self.bytes@ }
    }
}

impl DisplayBuffer {
    #[verifier::type_invariant]
    spec fn well_formed(self) -> bool {
        self.bytes@.len() == self.width * self.height * 4
    }

    /// A buffer over bytes already known to fill the grid.
    pub(crate) fn assemble(width: usize, height: usize, bytes: Vec<u8>) -> (buffer: DisplayBuffer)
        requires
            bytes@.len() == width * height * 4,
        ensures
            buffer@ == (DisplayView { width: width as nat, height: height as nat, bytes: bytes@ }),
    {
        DisplayBuffer { width, height, bytes }
    }

    pub fn width(&self) -> (width: usize)
        ensures
            width == self@.width,
    {
        self.width
    }

    pub fn height(&self) -> (height: usize)
        ensures
            height == self@.height,
    {
        self.height
    }

    /// The bytes, which always fill the grid.
    pub fn bytes(&self) -> (bytes: &Vec<u8>)
        ensures
            bytes@ == self@.bytes,
            self@.wf(),
    {
        proof {
            use_type_invariant(self);
        }
        &self.bytes
    }

    /// The bytes, handed over.
    pub fn into_bytes(self) -> (bytes: Vec<u8>)
        ensures
            bytes@ == self@.bytes,
            self@.wf(),
    {
        proof {
            use_type_invariant(&self);
        }
        self.bytes
    }

    /// The pixel in row `row` and column `column`, if the grid has one there.
    pub fn pixel(&self, row: usize, column: usize) -> (r: Option<DisplayPixel>)
        ensures
            (r is Some) <==> (row < self@.height && column < self@.width),
            r matches Some(pixel) ==> pixel == self@.at(row as int, column as int),
    {
        proof {
            use_type_invariant(self);
        }
        if row < self.height && column < self.width {
            proof {
                lemma_pixel_index(self.width as int, self.height as int, row as int, column as int);
                assert(0 <= row * self.width) by (nonlinear_arith);
                assert(self.bytes@.len() == self.bytes.len());
            }
            let start = (row * self.width + column) * 4;
            Some(
                DisplayPixel {
                    rgb: Rgb8 {
                        r: self.bytes[start],
                        g: self.bytes[start + 1],
                        b: self.bytes[start + 2],
                    },
                    coverage: self.bytes[start + 3],
                },
            )
        } else {
            None
        }
    }
}

impl<R, B, C, T, Q, A> ColorMath<R, B, C, T, Q, A> where
    R: Fn(usize, usize) -> u32,
    B: Fn(Triple, Triple, u32) -> Triple,
    C: Fn(ColorSpace, ColorSpace, Triple) -> Triple,
    T: Fn(Triple, TonemapParams) -> Triple,
    Q: Fn(Triple) -> Rgb8,
    A: Fn(u32) -> u8,
 {
    /// Whether `out` is what a display shows for `pixel`: its colour put
    /// through the tone curve, expressed in encoded sRGB and quantised; its
    /// coverage quantised, untouched by the tone curve.
    pub open spec fn displays(
        &self,
        params: TonemapParams,
        pixel: ScenePixel,
        out: DisplayPixel,
    ) -> bool {
        exists|mapped: Triple, encoded: Triple|
            {
                &&& #[trigger] self.tonemap.ensures((pixel.rgb, params), mapped)
                &&& #[trigger] self.convert.ensures(
                    (ColorSpace::Working, ColorSpace::EncodedSrgb, mapped),
                    encoded,
                )
                &&& self.quantize.ensures((encoded,), out.rgb)
                &&& self.coverage.ensures((pixel.coverage,), out.coverage)
            }
    }

    /// Whether `out` is `pixel` read as display-referred without the tone
    /// curve: its colour expressed in encoded sRGB and quantised, its
    /// coverage quantised.
    pub open spec fn displays_directly(&self, pixel: ScenePixel, out: DisplayPixel) -> bool {
        exists|encoded: Triple|
            {
                &&& #[trigger] self.convert.ensures(
                    (ColorSpace::Working, ColorSpace::EncodedSrgb, pixel.rgb),
                    encoded,
                )
                &&& self.quantize.ensures((encoded,), out.rgb)
                &&& self.coverage.ensures((pixel.coverage,), out.coverage)
            }
    }

    /// What a display shows for one scene-referred pixel.
    pub fn display_pixel(&self, pixel: ScenePixel, params: TonemapParams) -> (out: DisplayPixel)
        requires
            self.is_total(),
        ensures
            self.displays(params, pixel, out),
    {
        let mapped = (self.tonemap)(pixel.rgb, params);
        let encoded = (self.convert)(ColorSpace::Working, ColorSpace::EncodedSrgb, mapped);
        let rgb = (self.quantize)(encoded);
        let coverage = (self.coverage)(pixel.coverage);
        DisplayPixel { rgb, coverage }
    }

    /// One scene-referred pixel read as display-referred, without the tone
    /// curve.
    pub fn direct_display_pixel(&self, pixel: ScenePixel) -> (out: DisplayPixel)
        requires
            self.is_total(),
        ensures
            self.displays_directly(pixel, out),
    {
        let encoded = (self.convert)(ColorSpace::Working, ColorSpace::EncodedSrgb, pixel.rgb);
        let rgb = (self.quantize)(encoded);
        let coverage = (self.coverage)(pixel.coverage);
        DisplayPixel { rgb, coverage }
    }

    /// Whether `display` shows `scene` pixel for pixel, through the tone
    /// curve where `params` is given and directly where it is not.
    pub open spec fn shows(
        &self,
        params: Option<TonemapParams>,
        scene: SceneView,
        display: DisplayView,
    ) -> bool {
        &&& display.width == scene.width
        &&& display.height == scene.height
        &&& display.wf()
        &&& forall|index: int|
            0 <= index < scene.width * scene.height ==> match params {
                Some(params) => self.displays(
                    params,
                    #[trigger] scene.pixel(index),
                    display.pixel(index),
                ),
                None => self.displays_directly(scene.pixel(index), display.pixel(index)),
            }
    }

    /// What a display shows for a pixel is one value, through the tone curve
    /// or directly, where `tonemap`, `convert`, `quantize` and `coverage` are
    /// functions.
    proof fn lemma_displays_unique(
        &self,
        params: Option<TonemapParams>,
        pixel: ScenePixel,
        first: DisplayPixel,
        second: DisplayPixel,
    )
        requires
            self.tonemap_is_function(),
            self.convert_is_function(),
            self.quantize_is_function(),
            self.coverage_is_function(),
            match params {
                Some(params) => self.displays(params, pixel, first) && self.displays(
                    params,
                    pixel,
                    second,
                ),
                None => self.displays_directly(pixel, first) && self.displays_directly(
                    pixel,
                    second,
                ),
            },
        ensures
            first == second,
    {
        match params {
            Some(params) => {
                let (mapped1, encoded1) = choose|mapped: Triple, encoded: Triple|
                    {
                        &&& #[trigger] self.tonemap.ensures((pixel.rgb, params), mapped)
                        &&& #[trigger] self.convert.ensures(
                            (ColorSpace::Working, ColorSpace::EncodedSrgb, mapped),
                            encoded,
                        )
                        &&& self.quantize.ensures((encoded,), first.rgb)
                        &&& self.coverage.ensures((pixel.coverage,), first.coverage)
                    };
                let (mapped2, encoded2) = choose|mapped: Triple, encoded: Triple|
                    {
                        &&& #[trigger] self.tonemap.ensures((pixel.rgb, params), mapped)
                        &&& #[trigger] self.convert.ensures(
                            (ColorSpace::Working, ColorSpace::EncodedSrgb, mapped),
                            encoded,
                        )
                        &&& self.quantize.ensures((encoded,), second.rgb)
                        &&& self.coverage.ensures((pixel.coverage,), second.coverage)
                    };
                assert(mapped1 == mapped2);
                assert(encoded1 == encoded2);
            },
            None => {
                let encoded1 = choose|encoded: Triple|
                    {
                        &&& #[trigger] self.convert.ensures(
                            (ColorSpace::Working, ColorSpace::EncodedSrgb, pixel.rgb),
                            encoded,
                        )
                        &&& self.quantize.ensures((encoded,), first.rgb)
                        &&& self.coverage.ensures((pixel.coverage,), first.coverage)
                    };
                let encoded2 = choose|encoded: Triple|
                    {
                        &&& #[trigger] self.convert.ensures(
                            (ColorSpace::Working, ColorSpace::EncodedSrgb, pixel.rgb),
                            encoded,
                        )
                        &&& self.quantize.ensures((encoded,), second.rgb)
                        &&& self.coverage.ensures((pixel.coverage,), second.coverage)
                    };
                assert(encoded1 == encoded2);
            },
        }
    }

    /// Presentation is repeatable: two display buffers that show the same
    /// scene hold the same bytes, where `tonemap`, `convert`, `quantize` and
    /// `coverage` are functions.
    pub proof fn lemma_shows_unique(
        &self,
        params: Option<TonemapParams>,
        scene: SceneView,
        first: DisplayView,
        second: DisplayView,
    )
        requires
            self.tonemap_is_function(),
            self.convert_is_function(),
            self.quantize_is_function(),
            self.coverage_is_function(),
            self.shows(params, scene, first),
            self.shows(params, scene, second),
        ensures
            first == second,
    {
        assert forall|i: int| 0 <= i < first.bytes.len() implies first.bytes[i]
            == second.bytes[i] by {
            let index = i / 4;
            let pixel = scene.pixel(index);
            self.lemma_displays_unique(params, pixel, first.pixel(index), second.pixel(index));
            assert(i == 4 * index + i % 4);
        }
        assert(first.bytes =~= second.bytes);
    }

    /// The display buffer of a scene buffer: every pixel put through the
    /// tone curve where `params` is given, and read directly where it is not.
    pub fn display_buffer(&self, scene: &SceneBuffer, params: Option<TonemapParams>) -> (display:
        DisplayBuffer)
        requires
            self.is_total(),
        ensures
            self.shows(params, scene@, display@),
    {
        let samples = scene.samples();
        let pixels = samples.len() / 4;
        let mut bytes: Vec<u8> = Vec::new();
        let mut index: usize = 0;
        while index < pixels
            invariant
                self.is_total(),
                index <= pixels,
                pixels == scene@.width * scene@.height,
                samples@ == scene@.samples,
                samples@.len() == pixels * 4,
                samples@.len() == samples.len(),
                bytes@.len() == index * 4,
                forall|k: int|
                    0 <= k < index ==> match params {
                        Some(params) => self.displays(
                            params,
                            #[trigger] scene@.pixel(k),
                            pixel_of(bytes@, k),
                        ),
                        None => self.displays_directly(scene@.pixel(k), pixel_of(bytes@, k)),
                    },
            decreases pixels - index,
        {
            let pixel = ScenePixel {
                rgb: Triple {
                    x: samples[4 * index],
                    y: samples[4 * index + 1],
                    z: samples[4 * index + 2],
                },
                coverage: samples[4 * index + 3],
            };
            let out = match params {
                Some(params) => self.display_pixel(pixel, params),
                None => self.direct_display_pixel(pixel),
            };
            let ghost before = bytes@;
            bytes.push(out.rgb.r);
            bytes.push(out.rgb.g);
            bytes.push(out.rgb.b);
            bytes.push(out.coverage);
            proof {
                assert(pixel_of(bytes@, index as int) == out);
                assert forall|k: int| 0 <= k < index implies pixel_of(bytes@, k) == pixel_of(
                    before,
                    k,
                ) by {}
            }
            index += 1;
        }
        DisplayBuffer::assemble(scene.width(), scene.height(), bytes)
    }
}

} // verus!
