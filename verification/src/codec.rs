use crate::color::Triple;
use crate::scene::{SceneBuffer, SceneView};
use exr::image::{AnyChannel, AnyChannels};
use exr::math::Vec2;
use exr::meta::attribute::Text;
use smallvec::SmallVec;
use vstd::prelude::*;

verus! {

/// What describes an image besides its samples.
#[derive(Debug, PartialEq, Eq)]
pub struct Attributes {
    /// A free-text comment.
    pub comment: String,
    /// Who owns the image.
    pub owner: String,
    /// The tool that generated it.
    pub software: String,
}

pub struct AttributesView {
    pub comment: Seq<char>,
    pub owner: Seq<char>,
    pub software: Seq<char>,
}

impl View for Attributes {
    type V = AttributesView;

    open spec fn view(&self) -> AttributesView {
        AttributesView { comment: self.comment@, owner: self.owner@, software: self.software@ }
    }
}

/// One named plane of samples, a sample for each pixel, row after row.
#[derive(Debug, PartialEq, Eq)]
pub struct Channel {
    pub name: String,
    pub samples: Vec<u32>,
}

pub struct ChannelView {
    pub name: Seq<char>,
    pub samples: Seq<u32>,
}

impl View for Channel {
    type V = ChannelView;

    open spec fn view(&self) -> ChannelView {
        ChannelView { name: self.name@, samples: self.samples@ }
    }
}

/// The views of a list of channels, in the order of the list.
pub open spec fn views(channels: Seq<Channel>) -> Seq<ChannelView> {
    Seq::new(channels.len(), |i: int| channels[i]@)
}

/// Whether `name` can name a channel in an image file: its characters are
/// ASCII, one byte each.
pub open spec fn is_text(name: Seq<char>) -> bool {
    vstd::utf8::is_ascii_chars(name)
}

/// The order of channel names: byte by byte, a proper prefix first.
pub open spec fn text_le(a: Seq<char>, b: Seq<char>) -> bool
    decreases a.len(),
{
    if a.len() == 0 {
        true
    } else if b.len() == 0 {
        false
    } else if (a[0] as u32) != (b[0] as u32) {
        (a[0] as u32) < (b[0] as u32)
    } else {
        text_le(a.skip(1), b.skip(1))
    }
}

/// No channel is named before one that precedes it in the list.
pub open spec fn sorted_by_name(channels: Seq<ChannelView>) -> bool {
    forall|i: int, j: int|
        0 <= i < j < channels.len() ==> text_le(
            (#[trigger] channels[i]).name,
            (#[trigger] channels[j]).name,
        )
}

pub open spec fn red_name() -> Seq<char> {
    seq!['R']
}

pub open spec fn green_name() -> Seq<char> {
    seq!['G']
}

pub open spec fn blue_name() -> Seq<char> {
    seq!['B']
}

/// The samples found at `offset` within each pixel of `scene`.
pub open spec fn plane(scene: SceneView, offset: int) -> Seq<u32> {
    Seq::new(scene.width * scene.height, |i: int| scene.samples[4 * i + offset])
}

/// Whether a document of `width` by `height` pixels can hold `channels`:
/// every channel has a sample for each pixel and a name that an image file
/// can hold, and no two channels share a name.
pub open spec fn can_hold(width: nat, height: nat, channels: Seq<ChannelView>) -> bool {
    &&& forall|i: int|
        0 <= i < channels.len() ==> (#[trigger] channels[i]).samples.len() == width * height
    &&& forall|i: int| 0 <= i < channels.len() ==> is_text((#[trigger] channels[i]).name)
    &&& forall|i: int, j: int|
        0 <= i < j < channels.len() ==> (#[trigger] channels[i]).name != (
        #[trigger] channels[j]).name
}

/// What an image document holds: the dimensions of its one layer, the
/// channels of that layer and the attributes that describe it.
pub struct DocumentView {
    pub width: nat,
    pub height: nat,
    pub channels: Seq<ChannelView>,
    pub attributes: AttributesView,
}

impl DocumentView {
    /// The channels can be held by a document of these dimensions, and
    /// stand in the order of their names.
    pub open spec fn wf(self) -> bool {
        &&& can_hold(self.width, self.height, self.channels)
        &&& sorted_by_name(self.channels)
    }

    /// Whether a channel is named `name`.
    pub open spec fn has_channel(self, name: Seq<char>) -> bool {
        exists|i: int| 0 <= i < self.channels.len() && (#[trigger] self.channels[i]).name == name
    }

    /// The channel named `name`, where there is one.
    pub open spec fn channel(self, name: Seq<char>) -> ChannelView {
        let i = choose|i: int|
            0 <= i < self.channels.len() && (#[trigger] self.channels[i]).name == name;
        self.channels[i]
    }

    /// The colour of each pixel, read from the channels named R, G and B,
    /// where the document has all three.
    pub open spec fn decoded(self) -> Option<Seq<Triple>> {
        if self.has_channel(red_name()) && self.has_channel(green_name()) && self.has_channel(
            blue_name(),
        ) {
            Some(
                Seq::new(
                    self.width * self.height,
                    |i: int|
                        Triple {
                            x: self.channel(red_name()).samples[i],
                            y: self.channel(green_name()).samples[i],
                            z: self.channel(blue_name()).samples[i],
                        },
                ),
            )
        } else {
            None
        }
    }
}

/// The document that holds the colour channels of `scene`, without its
/// coverage, in the order of their names: blue, green, red.
pub open spec fn encoded(scene: SceneView, attributes: AttributesView) -> DocumentView {
    DocumentView {
        width: scene.width,
        height: scene.height,
        channels: seq![
            ChannelView { name: blue_name(), samples: plane(scene, 2) },
            ChannelView { name: green_name(), samples: plane(scene, 1) },
            ChannelView { name: red_name(), samples: plane(scene, 0) },
        ],
        attributes,
    }
}

/// The colour of each pixel of `scene`, row after row.
pub open spec fn colors(scene: SceneView) -> Seq<Triple> {
    Seq::new(scene.width * scene.height, |i: int| scene.pixel(i).rgb)
}

/// The names R, G and B differ, are in the order B, G, R, and each fits in
/// an image file.
proof fn lemma_rgb_names()
    ensures
        red_name() != green_name(),
        green_name() != blue_name(),
        red_name() != blue_name(),
        text_le(blue_name(), green_name()),
        text_le(green_name(), red_name()),
        text_le(blue_name(), red_name()),
        !text_le(green_name(), blue_name()),
        !text_le(red_name(), green_name()),
        !text_le(red_name(), blue_name()),
        is_text(red_name()),
        is_text(green_name()),
        is_text(blue_name()),
{
    assert(red_name()[0] == 'R' && green_name()[0] == 'G' && blue_name()[0] == 'B');
}

/// Encoding and then decoding gives back the colour of every pixel, sample
/// for sample: the document of a scene is well formed, has the channels R, G
/// and B with a sample for each pixel, and decodes to the colours of the
/// scene.
pub proof fn lemma_encode_decode(scene: SceneView, attributes: AttributesView)
    requires
        scene.wf(),
    ensures
        encoded(scene, attributes).wf(),
        encoded(scene, attributes).has_channel(red_name()),
        encoded(scene, attributes).has_channel(green_name()),
        encoded(scene, attributes).has_channel(blue_name()),
        encoded(scene, attributes).channel(red_name()).samples == plane(scene, 0),
        encoded(scene, attributes).channel(green_name()).samples == plane(scene, 1),
        encoded(scene, attributes).channel(blue_name()).samples == plane(scene, 2),
        plane(scene, 0).len() == scene.width * scene.height,
        plane(scene, 1).len() == scene.width * scene.height,
        plane(scene, 2).len() == scene.width * scene.height,
        encoded(scene, attributes).decoded() == Some(colors(scene)),
{
    lemma_rgb_names();
    let document = encoded(scene, attributes);
    assert(document.channels[0].name == blue_name());
    assert(document.channels[1].name == green_name());
    assert(document.channels[2].name == red_name());
    assert(document.channel(red_name()) == document.channels[2]);
    assert(document.channel(green_name()) == document.channels[1]);
    assert(document.channel(blue_name()) == document.channels[0]);
    assert(document.decoded()->Some_0 =~= colors(scene));
}

/// Orders channels by `exr::image::AnyChannels::sort`.
///
/// Trusted, not proved: the result holds the channels that were handed in,
/// each as often as it was handed in, and none is named before one that
/// precedes it.  The names are compared byte by byte, which is how
/// `exr::meta::attribute::Text` orders.  A name with a character beyond one
/// byte cannot become a `Text`; the precondition keeps to ASCII.
#[verifier::external_body]
fn sort_channels(channels: Vec<Channel>) -> (sorted: Vec<Channel>)
    requires
        forall|i: int| 0 <= i < channels@.len() ==> is_text((#[trigger] channels@[i]).name@),
    ensures
        views(sorted@).to_multiset() == views(channels@).to_multiset(),
        sorted_by_name(views(sorted@)),
{
    let list: SmallVec<[AnyChannel<Vec<u32>>; 4]> = channels.into_iter().map(
        |channel|
            AnyChannel {
                name: Text::from(channel.name.as_str()),
                sample_data: channel.samples,
                quantize_linearly: false,
                sampling: Vec2(1, 1),
            },
    ).collect();
    AnyChannels::sort(list).list.into_iter().map(
        |channel| Channel { name: channel.name.to_string(), samples: channel.sample_data },
    ).collect()
}

/// Channels that a document can hold can still be held once they are put in
/// another order.
proof fn lemma_reordered_channels(
    width: nat,
    height: nat,
    given: Seq<ChannelView>,
    sorted: Seq<ChannelView>,
)
    requires
        can_hold(width, height, given),
        sorted.to_multiset() == given.to_multiset(),
    ensures
        can_hold(width, height, sorted),
{
    assert forall|i: int| 0 <= i < sorted.len() implies given.contains(#[trigger] sorted[i]) by {
        assert(sorted.contains(sorted[i]));
        vstd::seq_lib::to_multiset_contains(sorted, sorted[i]);
        vstd::seq_lib::to_multiset_contains(given, sorted[i]);
    }
    assert(given.no_duplicates()) by {
        assert forall|i: int, j: int|
            0 <= i < given.len() && 0 <= j < given.len() && i != j implies given[i]
            != given[j] by {
            if i < j {
                assert(given[i].name != given[j].name);
            } else {
                assert(given[j].name != given[i].name);
            }
        }
    }
    given.lemma_multiset_has_no_duplicates();
    sorted.lemma_multiset_has_no_duplicates_conv();
    assert forall|i: int, j: int| 0 <= i < j < sorted.len() implies (#[trigger] sorted[i]).name != (
    #[trigger] sorted[j]).name by {
        let a = choose|a: int| 0 <= a < given.len() && given[a] == sorted[i];
        let b = choose|b: int| 0 <= b < given.len() && given[b] == sorted[j];
        assert(sorted[i] != sorted[j]);
        if a < b {
            assert(given[a].name != given[b].name);
        }
        if b < a {
            assert(given[b].name != given[a].name);
        }
    }
    assert forall|i: int| 0 <= i < sorted.len() implies (#[trigger] sorted[i]).samples.len()
        == width * height && is_text(sorted[i].name) by {
        let a = choose|a: int| 0 <= a < given.len() && given[a] == sorted[i];
        assert(given[a].samples.len() == width * height);
    }
}

/// Three channels named R, G and B have one order by name: B, G, R.
proof fn lemma_sorted_rgb(given: Seq<ChannelView>, sorted: Seq<ChannelView>)
    requires
        given.len() == 3,
        given[0].name == red_name(),
        given[1].name == green_name(),
        given[2].name == blue_name(),
        sorted.to_multiset() == given.to_multiset(),
        sorted_by_name(sorted),
    ensures
        sorted =~= seq![given[2], given[1], given[0]],
{
    vstd::seq_lib::to_multiset_len(given);
    vstd::seq_lib::to_multiset_len(sorted);
    assert(given.contains(given[0]) && given.contains(given[1]) && given.contains(given[2]));
    assert forall|k: int| 0 <= k < 3 implies sorted.contains(#[trigger] given[k]) by {
        vstd::seq_lib::to_multiset_contains(given, given[k]);
        vstd::seq_lib::to_multiset_contains(sorted, given[k]);
    }
    assert(sorted.contains(given[0]) && sorted.contains(given[1]) && sorted.contains(given[2]));
    let r = choose|i: int| 0 <= i < sorted.len() && sorted[i] == given[0];
    let g = choose|i: int| 0 <= i < sorted.len() && sorted[i] == given[1];
    let b = choose|i: int| 0 <= i < sorted.len() && sorted[i] == given[2];
    lemma_rgb_names();
    assert(r != g && g != b && r != b);
    assert(b < g) by {
        if g < b {
            assert(text_le(sorted[g].name, sorted[b].name));
        }
    }
    assert(g < r) by {
        if r < g {
            assert(text_le(sorted[r].name, sorted[g].name));
        }
    }
}

/// A layer of named channels with the attributes that describe it.
#[derive(Debug, PartialEq, Eq)]
pub struct ImageDocument {
    width: usize,
    height: usize,
    channels: Vec<Channel>,
    attributes: Attributes,
}

impl View for ImageDocument {
    type V = DocumentView;

    closed spec fn view(&self) -> DocumentView {
        DocumentView {
            width: self.width as nat,
            height: self.height as nat,
            channels: views(self.channels@),
            attributes: self.attributes@,
        }
    }
}

impl ImageDocument {
    #[verifier::type_invariant]
    spec fn well_formed(self) -> bool {
        self@.wf()
    }

    /// A document of `width` by `height` pixels over `channels`, put in the
    /// order of their names, if a document of these dimensions can hold
    /// them.
    pub fn new(width: usize, height: usize, channels: Vec<Channel>, attributes: Attributes) -> (r:
        Option<ImageDocument>)
        ensures
            (r is Some) <==> can_hold(width as nat, height as nat, views(channels@)),
            r matches Some(document) ==> {
                &&& document@.width == width
                &&& document@.height == height
                &&& document@.attributes == attributes@
                &&& document@.channels.to_multiset() == views(channels@).to_multiset()
                &&& document@.wf()
            },
    {
        let ghost given = views(channels@);
        let pixels = width.checked_mul(height);
        let mut i: usize = 0;
        while i < channels.len()
            invariant
                i <= channels.len(),
                given == views(channels@),
                pixels == width.checked_mul(height),
                can_hold(width as nat, height as nat, given.take(i as int)),
            decreases channels.len() - i,
        {
            let fits = match pixels {
                Some(pixels) => channels[i].samples.len() == pixels,
                None => false,
            };
            if !fits || !channels[i].name.as_str().is_ascii() {
                proof {
                    assert(given[i as int].samples.len() == channels[i as int].samples.len());
                    assert(!(given[i as int].samples.len() == width * height && is_text(
                        given[i as int].name,
                    )));
                }
                return None;
            }
            let mut j: usize = 0;
            while j < i
                invariant
                    j <= i < channels.len(),
                    given == views(channels@),
                    forall|k: int| 0 <= k < j ==> (#[trigger] given[k]).name != given[i as int].name,
                decreases i - j,
            {
                if channels[j].name == channels[i].name {
                    proof {
                        assert(given[j as int].name == given[i as int].name);
                    }
                    return None;
                }
                j += 1;
            }
            proof {
                let before = given.take(i as int);
                let after = given.take(i + 1);
                assert forall|k: int| 0 <= k < after.len() implies (#[trigger] after[k]).samples.len()
                    == width * height && is_text(after[k].name) by {
                    if k < i {
                        assert(before[k] == after[k]);
                    }
                }
                assert forall|a: int, b: int| 0 <= a < b < after.len() implies (
                #[trigger] after[a]).name != (#[trigger] after[b]).name by {
                    if b < i {
                        assert(before[a] == after[a] && before[b] == after[b]);
                    } else {
                        assert(given[a].name != given[i as int].name);
                    }
                }
            }
            i += 1;
        }
        proof {
            assert(given.take(i as int) =~= given);
            assert forall|k: int| 0 <= k < channels@.len() implies is_text(
                (#[trigger] channels@[k]).name@,
            ) by {
                assert(given[k].name == channels@[k].name@);
            }
        }
        let sorted = sort_channels(channels);
        proof {
            lemma_reordered_channels(width as nat, height as nat, given, views(sorted@));
        }
        Some(ImageDocument { width, height, channels: sorted, attributes })
    }

    pub fn width(&self) -> (width: usize)
        ensures
            width == self@.width,
    {
        self.width
    }

    pub fn height(&self) -> (height: usize)
        ensures
            height == self@.height,
    {
        self.height
    }

    /// The channels, in the order of their names.
    pub fn channels(&self) -> (channels: &Vec<Channel>)
        ensures
            views(channels@) == self@.channels,
            self@.wf(),
    {
        proof {
            use_type_invariant(self);
        }
        &self.channels
    }

    pub fn attributes(&self) -> (attributes: &Attributes)
        ensures
            attributes@ == self@.attributes,
    {
        &self.attributes
    }

    /// The channel named `name`, if there is one.
    pub fn channel(&self, name: &str) -> (r: Option<&Channel>)
        ensures
            (r is Some) <==> self@.has_channel(name@),
            r matches Some(channel) ==> channel@ == self@.channel(name@),
    {
        proof {
            use_type_invariant(self);
        }
        let wanted = name.to_owned();
        let mut i: usize = 0;
        while i < self.channels.len()
            invariant
                self@.wf(),
                i <= self.channels.len(),
                wanted@ == name@,
                forall|k: int| 0 <= k < i ==> (#[trigger] self@.channels[k]).name != name@,
            decreases self.channels.len() - i,
        {
            if self.channels[i].name == wanted {
                proof {
                    let found = i as int;
                    assert(self@.channels[found].name == name@);
                    let chosen = choose|j: int|
                        0 <= j < self@.channels.len() && (#[trigger] self@.channels[j]).name
                            == name@;
                    assert(chosen == found) by {
                        if found < chosen {
                            assert(self@.channels[found].name != self@.channels[chosen].name);
                        }
                    }
                }
                return Some(&self.channels[i]);
            }
            i += 1;
        }
        None
    }

    /// The colour of each pixel, read from the channels named R, G and B.
    /// Nothing, where the document lacks one of the three.
    pub fn decode(&self) -> (r: Option<Vec<Triple>>)
        ensures
            match r {
                Some(colors) => self@.decoded() == Some(colors@),
                None => self@.decoded() is None,
            },
    {
        proof {
            use_type_invariant(self);
            reveal_strlit("R");
            reveal_strlit("G");
            reveal_strlit("B");
            assert("R"@ =~= red_name());
            assert("G"@ =~= green_name());
            assert("B"@ =~= blue_name());
        }
        let red = match self.channel("R") {
            Some(channel) => channel,
            None => { return None; },
        };
        let green = match self.channel("G") {
            Some(channel) => channel,
            None => { return None; },
        };
        let blue = match self.channel("B") {
            Some(channel) => channel,
            None => { return None; },
        };
        let pixels = red.samples.len();
        let mut colors: Vec<Triple> = Vec::new();
        let mut i: usize = 0;
        while i < pixels
            invariant
                i <= pixels,
                pixels == self@.width * self@.height,
                red@.samples.len() == pixels,
                green@.samples.len() == pixels,
                blue@.samples.len() == pixels,
                colors@.len() == i,
                forall|k: int|
                    0 <= k < i ==> #[trigger] colors@[k] == (Triple {
                        x: red@.samples[k],
                        y: green@.samples[k],
                        z: blue@.samples[k],
                    }),
            decreases pixels - i,
        {
            colors.push(Triple { x: red.samples[i], y: green.samples[i], z: blue.samples[i] });
            i += 1;
        }
        proof {
            assert(colors@ =~= self@.decoded()->Some_0);
        }
        Some(colors)
    }
}

/// The image document of a scene buffer: its red, green and blue channels,
/// each a plane of its own, in the order of their names, with `attributes`
/// to describe them.  Coverage is left out.
pub fn encode(scene: &SceneBuffer, attributes: Attributes) -> (document: ImageDocument)
    ensures
        document@ == encoded(scene@, attributes@),
        document@.wf(),
{
    let samples = scene.samples();
    let pixels = samples.len() / 4;
    let mut red: Vec<u32> = Vec::new();
    let mut green: Vec<u32> = Vec::new();
    let mut blue: Vec<u32> = Vec::new();
    let mut i: usize = 0;
    while i < pixels
        invariant
            i <= pixels,
            pixels == scene@.width * scene@.height,
            samples@ == scene@.samples,
            samples@.len() == pixels * 4,
            samples@.len() == samples.len(),
            red@ == plane(scene@, 0).take(i as int),
            green@ == plane(scene@, 1).take(i as int),
            blue@ == plane(scene@, 2).take(i as int),
        decreases pixels - i,
    {
        red.push(samples[4 * i]);
        green.push(samples[4 * i + 1]);
        blue.push(samples[4 * i + 2]);
        i += 1;
    }
    proof {
        assert(red@ =~= plane(scene@, 0));
        assert(green@ =~= plane(scene@, 1));
        assert(blue@ =~= plane(scene@, 2));
        reveal_strlit("R");
        reveal_strlit("G");
        reveal_strlit("B");
    }
    let mut channels: Vec<Channel> = Vec::new();
    channels.push(Channel { name: "R".to_owned(), samples: red });
    channels.push(Channel { name: "G".to_owned(), samples: green });
    channels.push(Channel { name: "B".to_owned(), samples: blue });
    proof {
        assert("R"@ =~= red_name());
        assert("G"@ =~= green_name());
        assert("B"@ =~= blue_name());
        assert(is_text(red_name()) && is_text(green_name()) && is_text(blue_name()));
    }
    let ghost given = views(channels@);
    let sorted = sort_channels(channels);
    proof {
        assert(given[0] == ChannelView { name: red_name(), samples: plane(scene@, 0) });
        assert(given[1] == ChannelView { name: green_name(), samples: plane(scene@, 1) });
        assert(given[2] == ChannelView { name: blue_name(), samples: plane(scene@, 2) });
        lemma_sorted_rgb(given, views(sorted@));
        assert(views(sorted@) =~= encoded(scene@, attributes@).channels);
    }
    ImageDocument { width: scene.width(), height: scene.height(), channels: sorted, attributes }
}

} // verus!
