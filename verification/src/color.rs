use crate::error::Error;
use vstd::prelude::*;

verus! {

/// The spaces a colour value can be expressed in.
#[derive(Clone, Copy, Debug, PartialEq, Eq, Structural)]
pub enum ColorSpace {
    /// Gamma-encoded sRGB, nominally between 0 and 1.  Display-referred only.
    EncodedSrgb,
    /// A perceptual Lab-like space, an intermediate that blends well.
    /// Display-referred only.
    Perceptual,
    /// The linear wide-gamut working space.  Scene- or display-referred.
    Working,
}

/// What the magnitude of a colour value refers to.
#[derive(Clone, Copy, Debug, PartialEq, Eq, Structural)]
pub enum Context {
    /// Unbounded light arriving from the scene.
    Scene,
    /// Bounded output for a display.
    Display,
}

/// Three samples, each the bit pattern of a binary32 value.
#[derive(Clone, Copy, Debug, PartialEq, Eq, Structural)]
pub struct Triple {
    pub x: u32,
    pub y: u32,
    pub z: u32,
}

/// Three 8-bit display channels.
#[derive(Clone, Copy, Debug, PartialEq, Eq, Structural)]
pub struct Rgb8 {
    pub r: u8,
    pub g: u8,
    pub b: u8,
}

/// The options of the tone curve, each the bit pattern of a binary32 value.
#[derive(Clone, Copy, Debug, PartialEq, Eq, Structural)]
pub struct TonemapParams {
    /// Scales the input before it is compressed.
    pub exposure: u32,
    /// Shapes how steeply the curve compresses.
    pub contrast: u32,
}

/// Whether a value in `space` can carry `context`: only the working space
/// holds scene-referred values.
pub open spec fn admits(space: ColorSpace, context: Context) -> bool {
    context == Context::Display || space == ColorSpace::Working
}

/// A colour value together with the space and context that give it meaning.
#[derive(Clone, Copy, Debug, PartialEq, Eq, Structural)]
pub struct Color {
    pub space: ColorSpace,
    pub context: Context,
    pub value: Triple,
}

impl Color {
    /// Whether the tag of this colour is one that exists.
    pub open spec fn is_admissible(self) -> bool {
        admits(self.space, self.context)
    }

    /// Whether `other` is tagged exactly as this colour is.
    pub open spec fn same_tag(self, other: Color) -> bool {
        self.space == other.space && self.context == other.context
    }

    pub fn new(space: ColorSpace, context: Context, value: Triple) -> (color: Color)
        ensures
            color == (Color { space, context, value }),
    {
        Color { space, context, value }
    }

    pub fn admissible(&self) -> (yes: bool)
        ensures
            yes == self.is_admissible(),
    {
        self.context == Context::Display || self.space == ColorSpace::Working
    }

    /// Reads a working-space colour as display-referred without compressing
    /// its range.  Any other space is refused.
    pub fn direct_display(&self) -> (r: Result<Color, Error>)
        ensures
            r is Ok <==> self.space == ColorSpace::Working,
            r matches Err(e) ==> e == Error::InvalidSpace,
            r matches Ok(c) ==> c == (Color {
                space: ColorSpace::Working,
                context: Context::Display,
                value: self.value,
            }),
    {
        if self.space == ColorSpace::Working {
            Ok(Color { space: ColorSpace::Working, context: Context::Display, value: self.value })
        } else {
            Err(Error::InvalidSpace)
        }
    }
}

/// The floating-point arithmetic of the pipeline, one operation per field.
///
/// The crate calls these and stores what they return; what each computes is
/// the caller's to decide.  Contracts name the operation that produced a
/// sample through the operation's own postcondition.
pub struct ColorMath<R, B, C, T, Q, A> {
    /// `ratio(position, extent)` is the sample `position / extent`.
    pub ratio: R,
    /// `blend(a, b, t)` is `a + (b - a) * t`, channel by channel.
    pub blend: B,
    /// `convert(from, to, value)` is `value`, given in `from`, expressed in `to`.
    pub convert: C,
    /// `tonemap(value, params)` compresses a scene-referred working-space
    /// value into the display range.
    pub tonemap: T,
    /// `quantize(value)` rounds an encoded sRGB value to 8 bits a channel.
    pub quantize: Q,
    /// `coverage(sample)` is the 8-bit image of a coverage sample, clamped
    /// to the range from 0 to 1 first.
    pub coverage: A,
}

impl<R, B, C, T, Q, A> ColorMath<R, B, C, T, Q, A> where
    R: Fn(usize, usize) -> u32,
    B: Fn(Triple, Triple, u32) -> Triple,
    C: Fn(ColorSpace, ColorSpace, Triple) -> Triple,
    T: Fn(Triple, TonemapParams) -> Triple,
    Q: Fn(Triple) -> Rgb8,
    A: Fn(u32) -> u8,
 {
    /// Every operation can be called on every argument; `ratio` on every
    /// position inside a non-empty extent.
    pub open spec fn is_total(&self) -> bool {
        &&& forall|position: usize, extent: usize|
            position < extent ==> #[trigger] self.ratio.requires((position, extent))
        &&& forall|a: Triple, b: Triple, t: u32| #[trigger] self.blend.requires((a, b, t))
        &&& forall|from: ColorSpace, to: ColorSpace, value: Triple| #[trigger]
            self.convert.requires((from, to, value))
        &&& forall|value: Triple, params: TonemapParams| #[trigger]
            self.tonemap.requires((value, params))
        &&& forall|value: Triple| #[trigger] self.quantize.requires((value,))
        &&& forall|sample: u32| #[trigger] self.coverage.requires((sample,))
    }

    /// Whether `ratio` gives one result for each pair of arguments.
    pub open spec fn ratio_is_function(&self) -> bool {
        forall|position: usize, extent: usize, first: u32, second: u32|
            #[trigger] self.ratio.ensures((position, extent), first) && #[trigger] self.ratio.ensures(
                (position, extent),
                second,
            ) ==> first == second
    }

    /// Whether `blend` gives one result for each choice of arguments.
    pub open spec fn blend_is_function(&self) -> bool {
        forall|a: Triple, b: Triple, t: u32, first: Triple, second: Triple|
            #[trigger] self.blend.ensures((a, b, t), first) && #[trigger] self.blend.ensures(
                (a, b, t),
                second,
            ) ==> first == second
    }

    /// Whether `convert` gives one result for each choice of arguments.
    pub open spec fn convert_is_function(&self) -> bool {
        forall|from: ColorSpace, to: ColorSpace, value: Triple, first: Triple, second: Triple|
            #[trigger] self.convert.ensures((from, to, value), first)
                && #[trigger] self.convert.ensures((from, to, value), second) ==> first == second
    }

    /// Whether `tonemap` gives one result for each choice of arguments.
    pub open spec fn tonemap_is_function(&self) -> bool {
        forall|value: Triple, params: TonemapParams, first: Triple, second: Triple|
            #[trigger] self.tonemap.ensures((value, params), first)
                && #[trigger] self.tonemap.ensures((value, params), second) ==> first == second
    }

    /// Whether `quantize` gives one result for each argument.
    pub open spec fn quantize_is_function(&self) -> bool {
        forall|value: Triple, first: Rgb8, second: Rgb8|
            #[trigger] self.quantize.ensures((value,), first) && #[trigger] self.quantize.ensures(
                (value,),
                second,
            ) ==> first == second
    }

    /// Whether `coverage` gives one result for each argument.
    pub open spec fn coverage_is_function(&self) -> bool {
        forall|sample: u32, first: u8, second: u8|
            #[trigger] self.coverage.ensures((sample,), first) && #[trigger] self.coverage.ensures(
                (sample,),
                second,
            ) ==> first == second
    }

    /// Interpolates from `a` to `b` by `t`, which may lie outside 0 to 1.
    /// Both colours must carry the same admissible tag.
    pub fn blend(&self, a: Color, b: Color, t: u32) -> (r: Result<Color, Error>)
        requires
            self.is_total(),
        ensures
            r is Ok <==> a.is_admissible() && a.same_tag(b),
            r matches Err(e) ==> e == Error::InvalidSpace,
            r matches Ok(c) ==> c.same_tag(a) && self.blend.ensures((a.value, b.value, t), c.value),
    {
        if a.admissible() && a.space == b.space && a.context == b.context {
            let value = (self.blend)(a.value, b.value, t);
            Ok(Color { space: a.space, context: a.context, value })
        } else {
            Err(Error::InvalidSpace)
        }
    }

    /// Expresses `color` in `target`, keeping its context.  A colour already
    /// in `target` is returned as it is.  Refused where `target` cannot carry
    /// the colour's context.
    pub fn convert(&self, color: Color, target: ColorSpace) -> (r: Result<Color, Error>)
        requires
            self.is_total(),
        ensures
            r is Ok <==> color.is_admissible() && admits(target, color.context),
            r matches Err(e) ==> e == Error::InvalidSpace,
            r matches Ok(c) ==> {
                &&& c.space == target
                &&& c.context == color.context
                &&& target == color.space ==> c.value == color.value
                &&& target != color.space ==> self.convert.ensures(
                    (color.space, target, color.value),
                    c.value,
                )
            },
    {
        let target_admitted = color.context == Context::Display || target == ColorSpace::Working;
        if !color.admissible() || !target_admitted {
            Err(Error::InvalidSpace)
        } else if target == color.space {
            Ok(color)
        } else {
            let value = (self.convert)(color.space, target, color.value);
            Ok(Color { space: target, context: color.context, value })
        }
    }

    /// Compresses a scene-referred working-space colour into a
    /// display-referred one.  Any other colour is refused.
    pub fn tonemap(&self, color: Color, params: TonemapParams) -> (r: Result<Color, Error>)
        requires
            self.is_total(),
        ensures
            r is Ok <==> color.space == ColorSpace::Working && color.context == Context::Scene,
            r matches Err(e) ==> e == Error::InvalidSpace,
            r matches Ok(c) ==> {
                &&& c.space == ColorSpace::Working
                &&& c.context == Context::Display
                &&& self.tonemap.ensures((color.value, params), c.value)
            },
    {
        if color.space == ColorSpace::Working && color.context == Context::Scene {
            let value = (self.tonemap)(color.value, params);
            Ok(Color { space: ColorSpace::Working, context: Context::Display, value })
        } else {
            Err(Error::InvalidSpace)
        }
    }

    /// The 8-bit channels of a display-referred encoded sRGB colour.  Any
    /// other colour is refused.
    pub fn to_display_bytes(&self, color: Color) -> (r: Result<Rgb8, Error>)
        requires
            self.is_total(),
        ensures
            r is Ok <==> color.space == ColorSpace::EncodedSrgb && color.context
                == Context::Display,
            r matches Err(e) ==> e == Error::InvalidSpace,
            r matches Ok(bytes) ==> self.quantize.ensures((color.value,), bytes),
    {
        if color.space == ColorSpace::EncodedSrgb && color.context == Context::Display {
            Ok((self.quantize)(color.value))
        } else {
            Err(Error::InvalidSpace)
        }
    }
}

} // verus!
