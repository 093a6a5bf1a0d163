use exr::prelude::{
    read_first_flat_layer_from_file, AnyChannel, AnyChannels, Encoding, FlatSamples, Image, Layer,
    LayerAttributes, Text, WritableImage,
};
use hdr_gradient::{encode, Attributes, Channel, ImageDocument, SceneBuffer, Triple};
use smallvec::SmallVec;

fn bits(values: &[f32]) -> Vec<u32> {
    values.iter().map(|value| value.to_bits()).collect()
}

fn floats(samples: &[u32]) -> Vec<f32> {
    samples.iter().map(|sample| f32::from_bits(*sample)).collect()
}

fn attributes() -> Attributes {
    Attributes {
        comment: "Generated by vvzen from Rust".to_string(),
        owner: "vvzen".to_string(),
        software: "rust-tracer".to_string(),
    }
}

fn channel(name: &str, values: &[f32]) -> Channel {
    Channel { name: name.to_string(), samples: bits(values) }
}

fn names(document: &ImageDocument) -> Vec<String> {
    document.channels().iter().map(|channel| channel.name.clone()).collect()
}

fn to_exr(document: &ImageDocument) -> Image<Layer<AnyChannels<FlatSamples>>> {
    let list: Vec<AnyChannel<FlatSamples>> = document
        .channels()
        .iter()
        .map(|channel| {
            AnyChannel::new(channel.name.as_str(), FlatSamples::F32(floats(&channel.samples)))
        })
        .collect();
    let mut layer_attributes = LayerAttributes::named("rgb");
    layer_attributes.comments = Some(Text::from(document.attributes().comment.as_str()));
    layer_attributes.owner = Some(Text::from(document.attributes().owner.as_str()));
    layer_attributes.software_name = Some(Text::from(document.attributes().software.as_str()));
    let layer = Layer::new(
        (document.width(), document.height()),
        layer_attributes,
        Encoding::SMALL_LOSSLESS,
        AnyChannels { list: SmallVec::from_vec(list) },
    );
    Image::from_layer(layer)
}

fn from_exr(image: &Image<Layer<AnyChannels<FlatSamples>>>) -> Option<ImageDocument> {
    let layer = &image.layer_data;
    let channels: Vec<Channel> = layer
        .channel_data
        .list
        .iter()
        .map(|channel| Channel {
            name: channel.name.to_string(),
            samples: channel.sample_data.values_as_f32().map(|value| value.to_bits()).collect(),
        })
        .collect();
    let text = |value: &Option<Text>| value.as_ref().map(|text| text.to_string()).unwrap_or_default();
    let described = Attributes {
        comment: text(&layer.attributes.comments),
        owner: text(&layer.attributes.owner),
        software: text(&layer.attributes.software_name),
    };
    ImageDocument::new(layer.size.width(), layer.size.height(), channels, described)
}

#[test]
fn encode_one_pixel() {
    let scene = SceneBuffer::from_samples(1, 1, bits(&[1.0, 0.5, 0.0, 1.0])).unwrap();
    let document = encode(&scene, attributes());
    assert_eq!(document.width(), 1);
    assert_eq!(document.height(), 1);
    assert_eq!(document.channels().len(), 3);
    assert_eq!(floats(&document.channel("R").unwrap().samples), vec![1.0]);
    assert_eq!(floats(&document.channel("G").unwrap().samples), vec![0.5]);
    assert_eq!(floats(&document.channel("B").unwrap().samples), vec![0.0]);
    assert_eq!(document.attributes(), &attributes());
}

#[test]
fn encode_orders_the_channels_by_name() {
    let scene = SceneBuffer::from_samples(1, 1, bits(&[1.0, 0.5, 0.0, 1.0])).unwrap();
    let document = encode(&scene, attributes());
    assert_eq!(names(&document), vec!["B", "G", "R"]);
    assert_eq!(
        document.channels(),
        &vec![channel("B", &[0.0]), channel("G", &[0.5]), channel("R", &[1.0])]
    );
}

#[test]
fn encode_drops_coverage() {
    let scene = SceneBuffer::from_samples(1, 1, bits(&[1.0, 0.5, 0.0, 0.25])).unwrap();
    let document = encode(&scene, attributes());
    assert!(document.channel("A").is_none());
    assert!(document.channel("coverage").is_none());
    assert!(document.channel("").is_none());
    for channel in document.channels() {
        assert!(!floats(&channel.samples).contains(&0.25));
    }
}

#[test]
fn encode_planes_are_row_major() {
    let samples: Vec<f32> = vec![
        0.0, 0.1, 0.2, 1.0, 1.0, 1.1, 1.2, 1.0, 2.0, 2.1, 2.2, 1.0, // first row
        3.0, 3.1, 3.2, 1.0, 4.0, 4.1, 4.2, 1.0, 5.0, 5.1, 5.2, 1.0, // second row
    ];
    let scene = SceneBuffer::from_samples(3, 2, bits(&samples)).unwrap();
    let document = encode(&scene, attributes());
    assert_eq!(document.width(), 3);
    assert_eq!(document.height(), 2);
    assert_eq!(
        floats(&document.channel("R").unwrap().samples),
        vec![0.0, 1.0, 2.0, 3.0, 4.0, 5.0]
    );
    assert_eq!(
        floats(&document.channel("G").unwrap().samples),
        vec![0.1, 1.1, 2.1, 3.1, 4.1, 5.1]
    );
    assert_eq!(
        floats(&document.channel("B").unwrap().samples),
        vec![0.2, 1.2, 2.2, 3.2, 4.2, 5.2]
    );
}

#[test]
fn every_channel_has_a_sample_for_each_pixel() {
    for (width, height) in [(1usize, 1usize), (4, 3), (1, 9), (0, 5)] {
        let scene = SceneBuffer::from_samples(width, height, vec![7; width * height * 4]).unwrap();
        let document = encode(&scene, attributes());
        assert_eq!(names(&document), vec!["B", "G", "R"]);
        for channel in document.channels() {
            assert_eq!(channel.samples.len(), width * height);
        }
    }
}

#[test]
fn decode_gives_back_every_color_bit_for_bit() {
    let samples: Vec<u32> = vec![
        0x3F80_0000, 0x3F00_0000, 0x0000_0000, 0x3F80_0000, // 1, 0.5, 0
        0x7FC0_0000, 0xFF80_0000, 0x8000_0000, 0x3F80_0000, // NaN, -inf, -0
        0x0000_0001, 0x7F7F_FFFF, 0x4049_0FDB, 0x0000_0000, // subnormal, max, pi
    ];
    let scene = SceneBuffer::from_samples(3, 1, samples).unwrap();
    let document = encode(&scene, attributes());
    let colors = document.decode().unwrap();
    assert_eq!(
        colors,
        vec![
            Triple { x: 0x3F80_0000, y: 0x3F00_0000, z: 0x0000_0000 },
            Triple { x: 0x7FC0_0000, y: 0xFF80_0000, z: 0x8000_0000 },
            Triple { x: 0x0000_0001, y: 0x7F7F_FFFF, z: 0x4049_0FDB },
        ]
    );
    for (index, color) in colors.iter().enumerate() {
        let row: usize = 0;
        assert_eq!(*color, scene.pixel(row, index).unwrap().rgb);
    }
}

#[test]
fn decode_of_an_empty_scene_is_empty() {
    let scene = SceneBuffer::from_samples(0, 0, Vec::new()).unwrap();
    let document = encode(&scene, attributes());
    assert_eq!(document.decode(), Some(Vec::new()));
}

#[test]
fn new_document_is_put_in_order() {
    let given = vec![channel("R", &[1.0, 2.0]), channel("G", &[3.0, 4.0]), channel("B", &[5.0, 6.0])];
    let document = ImageDocument::new(2, 1, given, attributes()).unwrap();
    assert_eq!(names(&document), vec!["B", "G", "R"]);
    assert_eq!(floats(&document.channel("R").unwrap().samples), vec![1.0, 2.0]);
    assert_eq!(floats(&document.channel("B").unwrap().samples), vec![5.0, 6.0]);
    assert_eq!(document.width(), 2);
    assert_eq!(document.height(), 1);
    assert_eq!(document.attributes(), &attributes());
}

#[test]
fn new_document_orders_names_byte_by_byte() {
    let given = vec![
        channel("b", &[0.0]),
        channel("Z", &[0.0]),
        channel("AB", &[0.0]),
        channel("A", &[0.0]),
        channel("", &[0.0]),
        channel("R.left", &[0.0]),
        channel("R", &[0.0]),
    ];
    let document = ImageDocument::new(1, 1, given, attributes()).unwrap();
    assert_eq!(names(&document), vec!["", "A", "AB", "R", "R.left", "Z", "b"]);
}

#[test]
fn new_document_equals_the_encoded_scene() {
    let scene = SceneBuffer::from_samples(2, 1, bits(&[1.0, 3.0, 5.0, 1.0, 2.0, 4.0, 6.0, 1.0]));
    let encoded = encode(&scene.unwrap(), attributes());
    let given = vec![channel("G", &[3.0, 4.0]), channel("B", &[5.0, 6.0]), channel("R", &[1.0, 2.0])];
    assert_eq!(ImageDocument::new(2, 1, given, attributes()), Some(encoded));
}

#[test]
fn new_document_refuses_channels_of_the_wrong_length() {
    let short = vec![channel("R", &[1.0, 2.0]), channel("G", &[3.0])];
    assert_eq!(ImageDocument::new(2, 1, short, attributes()), None);
    let long = vec![channel("R", &[1.0, 2.0, 3.0])];
    assert_eq!(ImageDocument::new(2, 1, long, attributes()), None);
    let huge = vec![channel("R", &[1.0])];
    assert_eq!(ImageDocument::new(usize::MAX, 2, huge, attributes()), None);
}

#[test]
fn new_document_refuses_a_name_used_twice() {
    let twice = vec![channel("R", &[1.0]), channel("G", &[2.0]), channel("R", &[3.0])];
    assert_eq!(ImageDocument::new(1, 1, twice, attributes()), None);
}

#[test]
fn new_document_refuses_a_name_outside_ascii() {
    let odd = vec![channel("R\u{e9}", &[1.0])];
    assert_eq!(ImageDocument::new(1, 1, odd, attributes()), None);
    let wide = vec![channel("\u{4e2d}", &[1.0])];
    assert_eq!(ImageDocument::new(1, 1, wide, attributes()), None);
}

#[test]
fn new_document_without_channels() {
    let document = ImageDocument::new(640, 480, Vec::new(), attributes()).unwrap();
    assert!(document.channels().is_empty());
    assert_eq!(document.decode(), None);
}

#[test]
fn decode_needs_red_green_and_blue() {
    let two = vec![channel("R", &[1.0]), channel("G", &[2.0])];
    assert_eq!(ImageDocument::new(1, 1, two, attributes()).unwrap().decode(), None);
    let luminance = vec![channel("Y", &[1.0])];
    assert_eq!(ImageDocument::new(1, 1, luminance, attributes()).unwrap().decode(), None);
    let four =
        vec![channel("A", &[0.5]), channel("R", &[1.0]), channel("G", &[2.0]), channel("B", &[3.0])];
    assert_eq!(
        ImageDocument::new(1, 1, four, attributes()).unwrap().decode(),
        Some(vec![Triple { x: 1.0f32.to_bits(), y: 2.0f32.to_bits(), z: 3.0f32.to_bits() }])
    );
}

#[test]
fn written_file_reads_back_as_the_same_document() {
    let scene = SceneBuffer::from_samples(1, 1, bits(&[1.0, 0.5, 0.0, 1.0])).unwrap();
    let document = encode(&scene, attributes());
    let path = "/tmp/hdr_gradient_one_pixel.exr";
    to_exr(&document).write().to_file(path).unwrap();

    let image = read_first_flat_layer_from_file(path).unwrap();
    assert_eq!(image.layer_data.channel_data.list.len(), 3);
    for channel in &image.layer_data.channel_data.list {
        assert_eq!(channel.sample_data.len(), 1);
    }
    let read = from_exr(&image).unwrap();
    assert_eq!(read, document);
    assert_eq!(
        read.decode(),
        Some(vec![Triple { x: 1.0f32.to_bits(), y: 0.5f32.to_bits(), z: 0.0f32.to_bits() }])
    );
}

#[test]
fn written_gradient_reads_back_bit_for_bit() {
    let width: usize = 7;
    let height: usize = 5;
    let samples: Vec<u32> = (0..width * height * 4)
        .map(|index| (index as f32 * 0.37 - 3.0).to_bits())
        .collect();
    let scene = SceneBuffer::from_samples(width, height, samples).unwrap();
    let document = encode(&scene, attributes());
    let path = "/tmp/hdr_gradient_seven_by_five.exr";
    to_exr(&document).write().to_file(path).unwrap();

    let read = from_exr(&read_first_flat_layer_from_file(path).unwrap()).unwrap();
    assert_eq!(read, document);
    let colors = read.decode().unwrap();
    assert_eq!(colors.len(), width * height);
    for row in 0..height {
        for column in 0..width {
            assert_eq!(colors[row * width + column], scene.pixel(row, column).unwrap().rgb);
        }
    }
}

#[test]
fn writing_to_a_directory_that_is_not_there_fails() {
    let scene = SceneBuffer::from_samples(1, 1, bits(&[1.0, 0.5, 0.0, 1.0])).unwrap();
    let document = encode(&scene, attributes());
    let path = "/tmp/hdr_gradient_no_such_directory/one_pixel.exr";
    let written = to_exr(&document).write().to_file(path);
    assert!(matches!(written, Err(exr::error::Error::Io(_))));
    assert!(read_first_flat_layer_from_file(path).is_err());
}
