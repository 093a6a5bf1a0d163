use crate::codec::{encode, encoded, Attributes, ImageDocument};
use crate::color::{ColorMath, ColorSpace, Rgb8, TonemapParams, Triple};
use crate::display::{DisplayBuffer, DisplayView};
use crate::error::Error;
use crate::gradient::{render_bg_image, Palette};
use crate::scene::{SceneBuffer, SceneView};
use vstd::prelude::*;

verus! {

/// Which kind of pixels a framebuffer owns.  Fixed when it is made.
#[derive(Clone, Copy, Debug, PartialEq, Eq, Structural)]
pub enum BufferMode {
    /// 8-bit display-referred pixels, presented as they are.
    Display,
    /// 32-bit scene-referred pixels, put through the tone curve whenever
    /// they are presented.
    Scene,
}

#[derive(Debug)]
enum Storage {
    Empty,
    Scene(SceneBuffer),
    Display(DisplayBuffer),
}

/// What a framebuffer owns.
pub enum Content {
    /// Nothing yet: no generation pass has run since the framebuffer was
    /// made or resized.
    Empty,
    Scene(SceneView),
    Display(DisplayView),
}

pub struct FramebufferView {
    pub mode: BufferMode,
    pub width: nat,
    pub height: nat,
    pub content: Content,
}

impl FramebufferView {
    /// The pixels fit in memory, and what is owned is of the framebuffer's
    /// mode and fills its grid.
    pub open spec fn wf(self) -> bool {
        &&& self.width * self.height * 4 <= usize::MAX
        &&& match self.content {
            Content::Empty => true,
            Content::Scene(scene) => {
                &&& self.mode == BufferMode::Scene
                &&& scene.width == self.width
                &&& scene.height == self.height
                &&& scene.wf()
            },
            Content::Display(display) => {
                &&& self.mode == BufferMode::Display
                &&& display.width == self.width
                &&& display.height == self.height
                &&& display.wf()
            },
        }
    }
}

/// The owner of the pixels of one image, generated once and presented as
/// often as needed.
#[derive(Debug)]
pub struct Framebuffer {
    mode: BufferMode,
    width: usize,
    height: usize,
    storage: Storage,
}

impl View for Framebuffer {
    type V = FramebufferView;

    closed spec fn view(&self) -> FramebufferView {
        FramebufferView {
            mode: self.mode,
            width: self.width as nat,
            height: self.height as nat,
            content: match self.storage {
                Storage::Empty => Content::Empty,
                Storage::Scene(scene) => Content::Scene(scene@),
                Storage::Display(display) => Content::Display(display@),
            },
        }
    }
}

impl Framebuffer {
    #[verifier::type_invariant]
    spec fn well_formed(self) -> bool {
        self@.wf()
    }

    /// An empty framebuffer of the given mode and dimensions.
    pub fn new(mode: BufferMode, width: usize, height: usize) -> (framebuffer: Framebuffer)
        requires
            width * height * 4 <= usize::MAX,
        ensures
            framebuffer@ == (FramebufferView {
                mode,
                width: width as nat,
                height: height as nat,
                content: Content::Empty,
            }),
    {
        Framebuffer { mode, width, height, storage: Storage::Empty }
    }

    pub fn mode(&self) -> (mode: BufferMode)
        ensures
            mode == self@.mode,
    {
        self.mode
    }

    pub fn width(&self) -> (width: usize)
        ensures
            width == self@.width,
    {
        self.width
    }

    pub fn height(&self) -> (height: usize)
        ensures
            height == self@.height,
    {
        self.height
    }

    /// Whether a generation pass has run since the framebuffer was made or
    /// last resized.
    pub fn is_populated(&self) -> (yes: bool)
        ensures
            yes == !(self@.content is Empty),
    {
        match &self.storage {
            Storage::Empty => false,
            Storage::Scene(_) => true,
            Storage::Display(_) => true,
        }
    }

    /// Changes the dimensions.  The pixels owned before no longer fit and
    /// are dropped: the framebuffer is empty until it is populated again.
    pub fn resize(&mut self, width: usize, height: usize)
        requires
            width * height * 4 <= usize::MAX,
        ensures
            final(self)@ == (FramebufferView {
                mode: old(self)@.mode,
                width: width as nat,
                height: height as nat,
                content: Content::Empty,
            }),
    {
        *self = Framebuffer { mode: self.mode, width, height, storage: Storage::Empty };
    }

    /// Runs one generation pass.  A scene framebuffer keeps the gradient as
    /// generated; a display framebuffer keeps it read directly as
    /// display-referred, without the tone curve.
    pub fn populate<R, B, C, T, Q, A>(
        &mut self,
        palette: &Palette,
        math: &ColorMath<R, B, C, T, Q, A>,
    ) where
        R: Fn(usize, usize) -> u32,
        B: Fn(Triple, Triple, u32) -> Triple,
        C: Fn(ColorSpace, ColorSpace, Triple) -> Triple,
        T: Fn(Triple, TonemapParams) -> Triple,
        Q: Fn(Triple) -> Rgb8,
        A: Fn(u32) -> u8,

        requires
            math.is_total(),
        ensures
            final(self)@.mode == old(self)@.mode,
            final(self)@.width == old(self)@.width,
            final(self)@.height == old(self)@.height,
            final(self)@.wf(),
            old(self)@.mode == BufferMode::Scene ==> {
                &&& final(self)@.content is Scene
                &&& math.is_gradient(
                    *palette,
                    old(self)@.width as usize,
                    old(self)@.height as usize,
                    final(self)@.content->Scene_0,
                )
            },
            old(self)@.mode == BufferMode::Display ==> {
                &&& final(self)@.content is Display
                &&& exists|scene: SceneView|
                    {
                        &&& #[trigger] math.is_gradient(
                            *palette,
                            old(self)@.width as usize,
                            old(self)@.height as usize,
                            scene,
                        )
                        &&& math.shows(None, scene, final(self)@.content->Display_0)
                    }
            },
    {
        proof {
            use_type_invariant(&*self);
        }
        let scene = render_bg_image(self.width, self.height, palette, math);
        match self.mode {
            BufferMode::Scene => {
                self.storage = Storage::Scene(scene);
            },
            BufferMode::Display => {
                let display = math.display_buffer(&scene, None);
                self.storage = Storage::Display(display);
                assert(math.is_gradient(
                    *palette,
                    old(self)@.width as usize,
                    old(self)@.height as usize,
                    scene@,
                ) && math.shows(None, scene@, self@.content->Display_0));
            },
        }
    }

    /// The bytes to present: for each pixel red, green, blue and coverage,
    /// gamma-encoded and 8 bits each.  A scene framebuffer puts every pixel
    /// through the tone curve; a display framebuffer hands out the bytes it
    /// owns.  Nothing owned changes.  Fails on a framebuffer that was never
    /// populated.
    pub fn present<R, B, C, T, Q, A>(
        &self,
        math: &ColorMath<R, B, C, T, Q, A>,
        params: TonemapParams,
    ) -> (r: Result<Vec<u8>, Error>) where
        R: Fn(usize, usize) -> u32,
        B: Fn(Triple, Triple, u32) -> Triple,
        C: Fn(ColorSpace, ColorSpace, Triple) -> Triple,
        T: Fn(Triple, TonemapParams) -> Triple,
        Q: Fn(Triple) -> Rgb8,
        A: Fn(u32) -> u8,

        requires
            math.is_total(),
        ensures
            self@.wf(),
            r matches Ok(bytes) ==> bytes@.len() == self@.width * self@.height * 4,
            match self@.content {
                Content::Empty => r == Err::<Vec<u8>, Error>(Error::UninitializedBuffer),
                Content::Display(display) => r matches Ok(bytes) && bytes@ == display.bytes,
                Content::Scene(scene) => r matches Ok(bytes) && math.shows(
                    Some(params),
                    scene,
                    (DisplayView { width: self@.width, height: self@.height, bytes: bytes@ }),
                ),
            },
    {
        proof {
            use_type_invariant(self);
        }
        match &self.storage {
            Storage::Empty => Err(Error::UninitializedBuffer),
            Storage::Display(display) => Ok(display.bytes().clone()),
            Storage::Scene(scene) => {
                let display = math.display_buffer(scene, Some(params));
                Ok(display.into_bytes())
            },
        }
    }

    /// The image document of the scene owned.  Fails on a framebuffer that
    /// was never populated, and on one that owns display pixels, which are
    /// not scene-referred.
    pub fn encode(&self, attributes: Attributes) -> (r: Result<ImageDocument, Error>)
        ensures
            match self@.content {
                Content::Empty => r matches Err(e) && e == Error::UninitializedBuffer,
                Content::Display(_) => r matches Err(e) && e == Error::InvalidSpace,
                Content::Scene(scene) => r matches Ok(document) && document@ == encoded(
                    scene,
                    attributes@,
                ) && document@.wf(),
            },
    {
        match &self.storage {
            Storage::Empty => Err(Error::UninitializedBuffer),
            Storage::Display(_) => Err(Error::InvalidSpace),
            Storage::Scene(scene) => Ok(encode(scene, attributes)),
        }
    }

    /// The scene buffer owned.  Fails on a framebuffer that was never
    /// populated, and on one that owns display pixels, which are not
    /// scene-referred.
    pub fn scene(&self) -> (r: Result<&SceneBuffer, Error>)
        ensures
            self@.wf(),
            match self@.content {
                Content::Empty => r == Err::<&SceneBuffer, Error>(Error::UninitializedBuffer),
                Content::Display(_) => r == Err::<&SceneBuffer, Error>(Error::InvalidSpace),
                Content::Scene(scene) => r matches Ok(buffer) && buffer@ == scene,
            },
    {
        proof {
            use_type_invariant(self);
        }
        match &self.storage {
            Storage::Empty => Err(Error::UninitializedBuffer),
            Storage::Display(_) => Err(Error::InvalidSpace),
            Storage::Scene(scene) => Ok(scene),
        }
    }
}

} // verus!
