use libwayshot::composite::{compose, max_scale, plan_all_outputs, plan_capture_regions, region_of_outputs};
use libwayshot::convert::{convert_inplace, ColorType};
use libwayshot::error::Error;
use libwayshot::image_util::{image_from_rgba, image_to_rgba, resize_image, rotate_image, Image, RotOp};
use libwayshot::output::{OutputInfo, Scale, Transform};
use libwayshot::region::{LogicalRegion, Position, Size};
use libwayshot::screencopy::{FrameCopy, FrameFormat, PixelFormat};

fn region(x: i32, y: i32, w: u32, h: u32) -> LogicalRegion {
    LogicalRegion { position: Position { x, y }, size: Size { width: w, height: h } }
}

fn output(id: u64, lr: LogicalRegion, pw: u32, ph: u32, t: Transform) -> OutputInfo {
    OutputInfo {
        id,
        name: String::new(),
        description: String::new(),
        transform: t,
        physical_size: Size { width: pw, height: ph },
        logical_region: lr,
    }
}

/// A frame whose every pixel has the same RGBA bytes.
fn solid_frame(w: u32, h: u32, rgba: [u8; 4], lr: LogicalRegion, t: Transform) -> FrameCopy {
    let mut data = Vec::with_capacity((4 * w * h) as usize);
    for _ in 0..(w * h) {
        data.extend_from_slice(&rgba);
    }
    let physical_size = match t {
        Transform::Rot90 | Transform::Rot270 | Transform::Flipped90 | Transform::Flipped270 => {
            Size { width: h, height: w }
        }
        _ => Size { width: w, height: h },
    };
    FrameCopy {
        frame_format: FrameFormat {
            format: PixelFormat::Abgr8888,
            size: Size { width: w, height: h },
            stride: 4 * w,
        },
        frame_color_type: ColorType::Rgba8,
        frame_data: data,
        transform: t,
        logical_region: lr,
        physical_size,
    }
}

fn packed(rgba: [u8; 4]) -> u32 {
    rgba[0] as u32 | (rgba[1] as u32) << 8 | (rgba[2] as u32) << 16 | (rgba[3] as u32) << 24
}

const RED: [u8; 4] = [255, 0, 0, 255];
const BLUE: [u8; 4] = [0, 0, 255, 255];

#[test]
fn compose_with_no_frames_is_no_outputs() {
    let r = compose(&Vec::new(), region(0, 0, 100, 100));
    assert!(matches!(r, Err(Error::NoOutputs)));
}

#[test]
fn compose_with_no_intersecting_frame_is_no_outputs() {
    let lr = region(0, 0, 4, 4);
    let o = output(1, lr, 4, 4, Transform::Normal);
    let frames = vec![(solid_frame(4, 4, RED, lr, Transform::Normal), o)];
    let r = compose(&frames, region(1000, 1000, 4, 4));
    assert!(matches!(r, Err(Error::NoOutputs)));
}

#[test]
fn compose_is_deterministic_on_unchanged_inputs() {
    let left = region(0, 0, 4, 2);
    let right = region(4, 0, 4, 2);
    let frames = vec![
        (
            solid_frame(4, 2, RED, left, Transform::Normal),
            output(1, left, 4, 2, Transform::Normal),
        ),
        (
            solid_frame(4, 2, BLUE, right, Transform::Normal),
            output(2, right, 4, 2, Transform::Normal),
        ),
    ];
    let target = region(0, 0, 8, 2);
    let a = compose(&frames, target).unwrap();
    let b = compose(&frames, target).unwrap();
    assert_eq!(a.width, b.width);
    assert_eq!(a.height, b.height);
    assert_eq!(a.pixels, b.pixels);
}

#[test]
fn single_full_screen_frame_composes_to_itself() {
    let lr = region(0, 0, 2, 2);
    let o = output(1, lr, 2, 2, Transform::Normal);
    let mut frame = solid_frame(2, 2, RED, lr, Transform::Normal);
    // Four distinct pixels.
    frame.frame_data = vec![
        1, 2, 3, 4, //
        5, 6, 7, 8, //
        9, 10, 11, 12, //
        13, 14, 15, 16,
    ];
    let expected: Vec<u32> = vec![
        packed([1, 2, 3, 4]),
        packed([5, 6, 7, 8]),
        packed([9, 10, 11, 12]),
        packed([13, 14, 15, 16]),
    ];
    let img = compose(&vec![(frame, o)], lr).unwrap();
    assert_eq!(img.width, 2);
    assert_eq!(img.height, 2);
    assert_eq!(img.pixels, expected);
}

#[test]
fn two_outputs_side_by_side_compose_to_a_wide_canvas() {
    let left = region(0, 0, 1920, 1080);
    let right = region(1920, 0, 1920, 1080);
    let outputs = vec![
        output(1, left, 1920, 1080, Transform::Normal),
        output(2, right, 1920, 1080, Transform::Normal),
    ];
    let target = region_of_outputs(&outputs).unwrap();
    assert_eq!(target, region(0, 0, 3840, 1080));
    let frames = vec![
        (solid_frame(1920, 1080, RED, left, Transform::Normal), outputs[0].clone()),
        (solid_frame(1920, 1080, BLUE, right, Transform::Normal), outputs[1].clone()),
    ];
    let img = compose(&frames, target).unwrap();
    assert_eq!(img.width, 3840);
    assert_eq!(img.height, 1080);
    // Left frame placed at (0, 0), right frame at (1920, 0).
    assert_eq!(img.pixels[0], packed(RED));
    assert_eq!(img.pixels[1080 / 2 * 3840 + 1919], packed(RED));
    assert_eq!(img.pixels[1920], packed(BLUE));
    assert_eq!(img.pixels[1079 * 3840 + 3839], packed(BLUE));
}

#[test]
fn scaled_output_composes_to_physical_resolution() {
    let lr = region(0, 0, 960, 540);
    let o = output(1, lr, 1920, 1080, Transform::Normal);
    let frames = vec![(solid_frame(1920, 1080, RED, lr, Transform::Normal), o)];
    let ms = max_scale(&frames);
    assert_eq!(ms, Scale { num: 1920, den: 960 });
    let img = compose(&frames, lr).unwrap();
    assert_eq!(img.width, 1920);
    assert_eq!(img.height, 1080);
    assert_eq!(img.pixels[0], packed(RED));
    assert_eq!(img.pixels[1079 * 1920 + 1919], packed(RED));
}

#[test]
fn differently_scaled_outputs_resize_the_smaller_frame() {
    // Output 1 at scale 2 forces the common scale; output 2 at scale 1 must
    // be resized from 4x4 to 8x8 composite pixels.
    let left = region(0, 0, 4, 4);
    let right = region(4, 0, 4, 4);
    let frames = vec![
        (
            solid_frame(8, 8, RED, left, Transform::Normal),
            output(1, left, 8, 8, Transform::Normal),
        ),
        (
            solid_frame(4, 4, BLUE, right, Transform::Normal),
            output(2, right, 4, 4, Transform::Normal),
        ),
    ];
    let target = region(0, 0, 8, 4);
    let img = compose(&frames, target).unwrap();
    assert_eq!(img.width, 16);
    assert_eq!(img.height, 8);
    assert_eq!(img.pixels[0], packed(RED));
    // The resized right half keeps its solid color.
    assert_eq!(img.pixels[8], packed(BLUE));
    assert_eq!(img.pixels[7 * 16 + 15], packed(BLUE));
}

#[test]
fn resize_produces_the_requested_dimensions() {
    let one = Image { width: 1, height: 1, pixels: vec![packed(RED)] };
    let four = resize_image(&one, 2, 2);
    assert_eq!(four.width, 2);
    assert_eq!(four.height, 2);
    assert_eq!(four.pixels, vec![packed(RED); 4]);
}

#[test]
fn rotate90_turns_a_row_into_a_column() {
    let row = Image { width: 2, height: 1, pixels: vec![1, 2] };
    let col = rotate_image(&row, RotOp::Rot90);
    assert_eq!(col.width, 1);
    assert_eq!(col.height, 2);
    assert_eq!(col.pixels, vec![1, 2]);
    let back = rotate_image(&col, RotOp::Rot270);
    assert_eq!(back.width, 2);
    assert_eq!(back.height, 1);
    assert_eq!(back.pixels, vec![1, 2]);
}

#[test]
fn flips_mirror_the_grid() {
    let img = Image { width: 2, height: 2, pixels: vec![1, 2, 3, 4] };
    assert_eq!(rotate_image(&img, RotOp::FlipH).pixels, vec![2, 1, 4, 3]);
    assert_eq!(rotate_image(&img, RotOp::FlipV).pixels, vec![3, 4, 1, 2]);
    assert_eq!(rotate_image(&img, RotOp::Rot180).pixels, vec![4, 3, 2, 1]);
}

#[test]
fn rgba_bytes_survive_a_decode_encode_round_trip() {
    let bytes: Vec<u8> = vec![1, 2, 3, 4, 5, 6, 7, 8];
    let img = image_from_rgba(2, 1, &bytes);
    assert_eq!(img.pixels, vec![packed([1, 2, 3, 4]), packed([5, 6, 7, 8])]);
    assert_eq!(image_to_rgba(&img), bytes);
}

#[test]
fn rotated_output_is_upright_in_the_composite() {
    // A 1x2 logical output whose buffer is stored rotated: 2 wide, 1 high.
    let lr = region(0, 0, 1, 2);
    let o = output(1, lr, 2, 1, Transform::Rot90);
    let mut frame = solid_frame(2, 1, RED, lr, Transform::Rot90);
    frame.frame_data = vec![1, 2, 3, 4, 5, 6, 7, 8];
    let img = compose(&vec![(frame, o)], lr).unwrap();
    assert_eq!(img.width, 1);
    assert_eq!(img.height, 2);
    assert_eq!(img.pixels, vec![packed([1, 2, 3, 4]), packed([5, 6, 7, 8])]);
}

#[test]
fn convert_normalizes_each_supported_layout() {
    let mut argb = vec![10, 20, 30, 40];
    assert!(matches!(
        convert_inplace(PixelFormat::Argb8888, &mut argb),
        Ok(ColorType::Rgba8)
    ));
    assert_eq!(argb, vec![30, 20, 10, 40]);

    let mut xrgb = vec![10, 20, 30, 40];
    convert_inplace(PixelFormat::Xrgb8888, &mut xrgb).unwrap();
    assert_eq!(xrgb, vec![30, 20, 10, 255]);

    let mut abgr = vec![10, 20, 30, 40];
    convert_inplace(PixelFormat::Abgr8888, &mut abgr).unwrap();
    assert_eq!(abgr, vec![10, 20, 30, 40]);

    let mut xbgr = vec![10, 20, 30, 40];
    convert_inplace(PixelFormat::Xbgr8888, &mut xbgr).unwrap();
    assert_eq!(xbgr, vec![10, 20, 30, 255]);
}

#[test]
fn convert_rejects_unsupported_layouts_unchanged() {
    let mut data = vec![1, 2, 3, 4];
    let r = convert_inplace(PixelFormat::Other(0x3635_3152), &mut data);
    assert!(matches!(r, Err(Error::NoSupportedBufferFormat)));
    assert_eq!(data, vec![1, 2, 3, 4]);
}

#[test]
fn plan_for_all_outputs_has_no_sub_regions() {
    let outputs = vec![
        output(1, region(0, 0, 10, 10), 10, 10, Transform::Normal),
        output(2, region(10, 0, 10, 10), 10, 10, Transform::Normal),
    ];
    let plan = plan_all_outputs(outputs);
    assert_eq!(plan.len(), 2);
    assert!(plan[0].1.is_none());
    assert!(plan[1].1.is_none());
}

#[test]
fn plan_for_region_keeps_only_intersecting_outputs() {
    let outputs = vec![
        output(1, region(0, 0, 10, 10), 10, 10, Transform::Normal),
        output(2, region(10, 0, 10, 10), 10, 10, Transform::Normal),
        output(3, region(0, 10, 10, 10), 10, 10, Transform::Normal),
    ];
    let plan = plan_capture_regions(outputs, region(5, 5, 10, 4));
    assert_eq!(plan.len(), 2);
    assert_eq!(plan[0].0.id, 1);
    assert_eq!(plan[1].0.id, 2);
    let e = plan[0].1.unwrap();
    assert_eq!(e.relative.size, Size { width: 5, height: 4 });
    let abs = e.logical();
    assert_eq!(abs, region(5, 5, 5, 4));
}

#[test]
fn compose_rejects_unrepresentable_canvas() {
    // A frame at an enormous scale: logical 2 wide but physical i32::MAX
    // drives the scaled canvas width beyond the representable range.
    let lr = region(0, 0, 2, 2);
    let o = output(1, lr, 0x7fff_ffff, 0x7fff_ffff, Transform::Normal);
    let frame = solid_frame(2, 2, RED, lr, Transform::Normal);
    let wide = region(0, 0, 0x7fff_ffff, 2);
    let frames = vec![(frame, o)];
    let r = compose(&frames, wide);
    assert!(matches!(r, Err(Error::BufferTooSmall)));
}
