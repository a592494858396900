use libwayshot::error::Error;
use libwayshot::output::{OutputInfo, Scale, Transform};
use libwayshot::region::{EmbeddedRegion, LogicalRegion, Position, Size};

fn region(x: i32, y: i32, w: u32, h: u32) -> LogicalRegion {
    LogicalRegion { position: Position { x, y }, size: Size { width: w, height: h } }
}

fn output(id: u64, lr: LogicalRegion, pw: u32, ph: u32, t: Transform) -> OutputInfo {
    OutputInfo {
        id,
        name: String::new(),
        description: String::new(),
        transform: t,
        physical_size: Size { width: pw, height: ph },
        logical_region: lr,
    }
}

#[test]
fn embedded_region_exists_iff_positive_intersection() {
    let out = region(0, 0, 1920, 1080);
    assert!(EmbeddedRegion::new(region(100, 100, 50, 50), out).is_some());
    // Touching edges only: zero-area intersection.
    assert!(EmbeddedRegion::new(region(1920, 0, 100, 100), out).is_none());
    // Fully disjoint.
    assert!(EmbeddedRegion::new(region(5000, 5000, 10, 10), out).is_none());
    // Zero-sized capture region never intersects.
    assert!(EmbeddedRegion::new(region(10, 10, 0, 10), out).is_none());
}

#[test]
fn embedded_region_size_equals_intersection_size() {
    let out = region(100, 200, 800, 600);
    let e = EmbeddedRegion::new(region(0, 0, 300, 300), out).unwrap();
    // Intersection is [100, 300) x [200, 300): 200 x 100 pixels.
    assert_eq!(e.relative.size.width, 200);
    assert_eq!(e.relative.size.height, 100);
    assert_eq!(e.relative.position.x, 0);
    assert_eq!(e.relative.position.y, 0);
    assert_eq!(e.output_region, out);
}

#[test]
fn embedded_region_logical_is_absolute_intersection() {
    let out = region(100, 200, 800, 600);
    let e = EmbeddedRegion::new(region(150, 250, 100, 100), out).unwrap();
    let abs = e.logical();
    assert_eq!(abs.position.x, 150);
    assert_eq!(abs.position.y, 250);
    assert_eq!(abs.size.width, 100);
    assert_eq!(abs.size.height, 100);
}

#[test]
fn intersects_is_symmetric_on_examples() {
    let a = region(0, 0, 10, 10);
    let b = region(5, 5, 10, 10);
    let c = region(50, 50, 10, 10);
    assert!(a.intersects_exec(&b));
    assert!(b.intersects_exec(&a));
    assert!(!a.intersects_exec(&c));
    assert!(!c.intersects_exec(&a));
}

#[test]
fn scale_is_physical_over_logical() {
    let o = output(1, region(0, 0, 960, 540), 1920, 1080, Transform::Normal);
    let s = o.scale();
    assert_eq!(s, Scale { num: 1920, den: 960 });
}

#[test]
fn scale_uses_rotated_axis_for_axis_swapping_transforms() {
    // A rotated portrait output: buffer 1080x1920, logical 1920x1080.
    let o = output(1, region(0, 0, 1920, 1080), 1080, 1920, Transform::Rot90);
    let s = o.scale();
    assert_eq!(s, Scale { num: 1920, den: 1920 });
}

#[test]
fn scale_comparison_is_rational() {
    let three_halves = Scale { num: 3, den: 2 };
    let two = Scale { num: 4, den: 2 };
    assert!(two.ge_exec(&three_halves));
    assert!(!three_halves.ge_exec(&two));
    assert!(two.ge_exec(&two));
}

#[test]
fn scale_apply_rounds_toward_zero() {
    let s = Scale { num: 3, den: 2 };
    assert_eq!(s.apply(5), 7);
    assert_eq!(s.apply_signed(-5), -7);
    assert_eq!(s.apply_signed(4), 6);
}

#[test]
fn region_of_outputs_is_bounding_box() {
    let a = output(1, region(0, 0, 1920, 1080), 1920, 1080, Transform::Normal);
    let b = output(2, region(1920, -120, 1280, 1024), 1280, 1024, Transform::Normal);
    let r = libwayshot::composite::region_of_outputs(&vec![a, b]).unwrap();
    assert_eq!(r.position.x, 0);
    assert_eq!(r.position.y, -120);
    assert_eq!(r.size.width, 3200);
    assert_eq!(r.size.height, 1200);
}

#[test]
fn region_of_no_outputs_is_no_outputs_error() {
    let r = libwayshot::composite::region_of_outputs(&Vec::new());
    assert!(matches!(r, Err(Error::NoOutputs)));
}

#[test]
fn protocol_not_found_names_the_interface() {
    let e = Error::ProtocolNotFound("wl_compositor".to_string());
    assert!(matches!(e, Error::ProtocolNotFound(ref name) if name == "wl_compositor"));
}
