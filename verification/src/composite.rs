use vstd::prelude::*;

use crate::error::Error;
use crate::image_util::{
    decoded, image_from_rgba, new_canvas, place_image, placed, resize_image, resized, rotate_image,
    rotated, zeros, Image, RotOp,
};
use crate::output::{OutputInfo, Scale, Transform};
use crate::screencopy::FrameCopy;
use crate::region::{min_int, spec_embed, EmbeddedRegion, LogicalRegion, Position, Size};

verus! {

// ---------------------------------------------------------------------------
// Capture planning
// ---------------------------------------------------------------------------

/// The per-output capture plan for an explicit capture region: the outputs
/// whose logical region the capture region overlaps, in order, each with
/// the capture region clipped to and embedded in that output.
pub open spec fn planned(s: Seq<OutputInfo>, region: LogicalRegion) -> Seq<
    (OutputInfo, Option<EmbeddedRegion>),
>
    decreases s.len(),
{
    if s.len() == 0 {
        Seq::empty()
    } else {
        planned(s.drop_last(), region) + (if region.intersects(s.last().logical_region) {
            seq![(s.last(), Some(spec_embed(region, s.last().logical_region)))]
        } else {
            Seq::empty()
        })
    }
}

/// Plan a whole-output capture for every output, in order.
pub fn plan_all_outputs(outputs: Vec<OutputInfo>) -> (r: Vec<(OutputInfo, Option<EmbeddedRegion>)>)
    ensures
        r@.len() == outputs@.len(),
        forall|i: int|
            0 <= i < outputs@.len() ==> #[trigger] r@[i] == (
                outputs@[i],
                None::<EmbeddedRegion>,
            ),
{
    let mut remaining = outputs;
    let ghost orig = remaining@;
    let mut planned_outputs: Vec<(OutputInfo, Option<EmbeddedRegion>)> = Vec::new();
    let ghost mut k: int = 0;
    while remaining.len() > 0
        invariant
            0 <= k <= orig.len(),
            remaining@ =~= orig.skip(k),
            planned_outputs@.len() == k,
            forall|i: int|
                0 <= i < k ==> #[trigger] planned_outputs@[i] == (
                    orig[i],
                    None::<EmbeddedRegion>,
                ),
        decreases remaining@.len(),
    {
        let o = remaining.remove(0);
        proof {
            assert(o == orig[k]);
            assert(remaining@ =~= orig.skip(k + 1));
        }
        planned_outputs.push((o, None));
        proof {
            k = k + 1;
        }
    }
    planned_outputs
}

/// Plan a partial capture of an explicit logical region: keep exactly the
/// outputs the region overlaps, each with the region embedded in it.
pub fn plan_capture_regions(outputs: Vec<OutputInfo>, capture_region: LogicalRegion) -> (r: Vec<
    (OutputInfo, Option<EmbeddedRegion>),
>)
    requires
        capture_region.fits_wire(),
        forall|i: int| 0 <= i < outputs@.len() ==> (#[trigger] outputs@[i]).wf(),
    ensures
        r@ == planned(outputs@, capture_region),
{
    let mut remaining = outputs;
    let ghost orig = remaining@;
    let mut kept: Vec<(OutputInfo, Option<EmbeddedRegion>)> = Vec::new();
    let ghost mut k: int = 0;
    while remaining.len() > 0
        invariant
            0 <= k <= orig.len(),
            remaining@ =~= orig.skip(k),
            kept@ == planned(orig.take(k), capture_region),
            capture_region.fits_wire(),
            forall|i: int| 0 <= i < orig.len() ==> (#[trigger] orig[i]).wf(),
        decreases remaining@.len(),
    {
        let o = remaining.remove(0);
        proof {
            assert(o == orig[k]);
            assert(orig.take(k + 1).drop_last() =~= orig.take(k));
            assert(orig.take(k + 1).last() == orig[k]);
            assert(remaining@ =~= orig.skip(k + 1));
        }
        match EmbeddedRegion::new(capture_region, o.logical_region) {
            Some(embedded) => {
                kept.push((o, Some(embedded)));
            },
            None => {},
        }
        proof {
            k = k + 1;
        }
    }
    proof {
        assert(orig.take(orig.len() as int) =~= orig);
    }
    kept
}

// ---------------------------------------------------------------------------
// Bounding region of a set of outputs
// ---------------------------------------------------------------------------

/// Leftmost logical edge over a non-empty set of outputs.
pub open spec fn span_left(s: Seq<OutputInfo>) -> int
    decreases s.len(),
{
    if s.len() <= 1 {
        s[0].logical_region.left()
    } else {
        min_int(span_left(s.drop_last()), s.last().logical_region.left())
    }
}

/// Topmost logical edge over a non-empty set of outputs.
pub open spec fn span_top(s: Seq<OutputInfo>) -> int
    decreases s.len(),
{
    if s.len() <= 1 {
        s[0].logical_region.top()
    } else {
        min_int(span_top(s.drop_last()), s.last().logical_region.top())
    }
}

/// Rightmost logical edge over a non-empty set of outputs.
pub open spec fn span_right(s: Seq<OutputInfo>) -> int
    decreases s.len(),
{
    if s.len() <= 1 {
        s[0].logical_region.right()
    } else {
        let rest = span_right(s.drop_last());
        let v = s.last().logical_region.right();
        if rest >= v {
            rest
        } else {
            v
        }
    }
}

/// Bottommost logical edge over a non-empty set of outputs.
pub open spec fn span_bottom(s: Seq<OutputInfo>) -> int
    decreases s.len(),
{
    if s.len() <= 1 {
        s[0].logical_region.bottom()
    } else {
        let rest = span_bottom(s.drop_last());
        let v = s.last().logical_region.bottom();
        if rest >= v {
            rest
        } else {
            v
        }
    }
}

/// The smallest logical region that covers every given output, its extent
/// clamped to the wire range; fails with `NoOutputs` exactly on an empty
/// list.
#[verifier::loop_isolation(false)]
pub fn region_of_outputs(outputs: &Vec<OutputInfo>) -> (r: Result<LogicalRegion, Error>)
    requires
        forall|i: int| 0 <= i < outputs@.len() ==> (#[trigger] outputs@[i]).wf(),
    ensures
        r is Ok <==> outputs@.len() > 0,
        r is Err ==> r.unwrap_err() is NoOutputs,
        r is Ok ==> {
            let reg = r.unwrap();
            &&& reg.position.x == span_left(outputs@)
            &&& reg.position.y == span_top(outputs@)
            &&& reg.size.width == min_int(span_right(outputs@) - span_left(outputs@), i32::MAX as int)
            &&& reg.size.height == min_int(
                span_bottom(outputs@) - span_top(outputs@),
                i32::MAX as int,
            )
            &&& reg.fits_wire()
        },
{
    let n = outputs.len();
    if n == 0 {
        return Err(Error::NoOutputs);
    }
    let first = &outputs[0];
    let mut minx: i64 = first.logical_region.position.x as i64;
    let mut miny: i64 = first.logical_region.position.y as i64;
    let mut maxr: i64 = minx + first.logical_region.size.width as i64;
    let mut maxb: i64 = miny + first.logical_region.size.height as i64;
    let mut i: usize = 1;
    proof {
        assert(outputs@.take(1).len() == 1);
        assert(outputs@.take(1)[0] == outputs@[0]);
    }
    while i < n
        invariant
            1 <= i <= n,
            minx == span_left(outputs@.take(i as int)),
            miny == span_top(outputs@.take(i as int)),
            maxr == span_right(outputs@.take(i as int)),
            maxb == span_bottom(outputs@.take(i as int)),
            i32::MIN <= minx <= i32::MAX,
            i32::MIN <= miny <= i32::MAX,
            i32::MIN <= maxr <= 0x1_0000_0000i64,
            i32::MIN <= maxb <= 0x1_0000_0000i64,
        decreases n - i,
    {
        proof {
            let t1 = outputs@.take(i as int + 1);
            assert(t1.drop_last() =~= outputs@.take(i as int));
            assert(t1.last() == outputs@[i as int]);
            assert(t1.len() == i + 1);
        }
        let o = &outputs[i];
        let left: i64 = o.logical_region.position.x as i64;
        let top: i64 = o.logical_region.position.y as i64;
        let right: i64 = left + o.logical_region.size.width as i64;
        let bottom: i64 = top + o.logical_region.size.height as i64;
        if left < minx {
            minx = left;
        }
        if top < miny {
            miny = top;
        }
        if right > maxr {
            maxr = right;
        }
        if bottom > maxb {
            maxb = bottom;
        }
        i = i + 1;
    }
    proof {
        assert(outputs@.take(n as int) =~= outputs@);
    }
    let w64: i64 = maxr - minx;
    let h64: i64 = maxb - miny;
    proof {
        lemma_span_order(outputs@);
    }
    let width: u32 = if w64 > i32::MAX as i64 {
        i32::MAX as u32
    } else {
        w64 as u32
    };
    let height: u32 = if h64 > i32::MAX as i64 {
        i32::MAX as u32
    } else {
        h64 as u32
    };
    Ok(
        LogicalRegion {
            position: Position { x: minx as i32, y: miny as i32 },
            size: Size { width, height },
        },
    )
}

/// The bounding edges are ordered: the right edge is no further left than
/// the left edge, and likewise for bottom and top.
proof fn lemma_span_order(s: Seq<OutputInfo>)
    requires
        s.len() > 0,
    ensures
        span_left(s) <= span_right(s),
        span_top(s) <= span_bottom(s),
    decreases s.len(),
{
    if s.len() == 1 {
    } else {
        lemma_span_order(s.drop_last());
    }
}

// ---------------------------------------------------------------------------
// Common scale factor
// ---------------------------------------------------------------------------

/// The common scale of a composition: the largest contributing output's
/// scale, and at least one.
pub open spec fn max_scale_spec(s: Seq<(FrameCopy, OutputInfo)>) -> Scale
    decreases s.len(),
{
    if s.len() == 0 {
        Scale::spec_one()
    } else {
        let rest = max_scale_spec(s.drop_last());
        let sc = s.last().1.spec_scale();
        if sc.ge(rest) {
            sc
        } else {
            rest
        }
    }
}

/// The common scale is well formed whenever every contributing output is.
pub proof fn lemma_max_scale_wf(s: Seq<(FrameCopy, OutputInfo)>)
    requires
        forall|i: int| 0 <= i < s.len() ==> (#[trigger] s[i]).1.discovered(),
    ensures
        max_scale_spec(s).wf(),
    decreases s.len(),
{
    if s.len() > 0 {
        assert(forall|i: int|
            0 <= i < s.drop_last().len() ==> #[trigger] s.drop_last()[i] == s[i]);
        lemma_max_scale_wf(s.drop_last());
        assert(s.last() == s[s.len() - 1]);
    }
}

/// Compute the common scale of a set of captured frames.
pub fn max_scale(frames: &Vec<(FrameCopy, OutputInfo)>) -> (r: Scale)
    requires
        forall|i: int| 0 <= i < frames@.len() ==> (#[trigger] frames@[i]).1.discovered(),
    ensures
        r == max_scale_spec(frames@),
        r.wf(),
{
    let mut r = Scale::one();
    let n = frames.len();
    let mut i: usize = 0;
    while i < n
        invariant
            n == frames@.len(),
            0 <= i <= n,
            forall|k: int| 0 <= k < frames@.len() ==> (#[trigger] frames@[k]).1.discovered(),
            r == max_scale_spec(frames@.take(i as int)),
            r.wf(),
        decreases n - i,
    {
        proof {
            let t1 = frames@.take(i as int + 1);
            assert(t1.drop_last() =~= frames@.take(i as int));
            assert(t1.last() == frames@[i as int]);
        }
        let sc = frames[i].1.scale();
        if sc.ge_exec(&r) {
            r = sc;
        }
        i = i + 1;
    }
    proof {
        assert(frames@.take(n as int) =~= frames@);
    }
    r
}

// ---------------------------------------------------------------------------
// Orientation correction
// ---------------------------------------------------------------------------

/// The pixels of a captured buffer once its output's transform has been
/// undone, so that every frame shares a common upright orientation.
pub open spec fn oriented(s: Seq<u32>, w: int, h: int, t: Transform) -> Seq<u32> {
    match t {
        Transform::Normal => s,
        Transform::Rot90 => rotated(s, w, h, RotOp::Rot90),
        Transform::Rot180 => rotated(s, w, h, RotOp::Rot180),
        Transform::Rot270 => rotated(s, w, h, RotOp::Rot270),
        Transform::Flipped => rotated(s, w, h, RotOp::FlipH),
        Transform::Flipped90 => rotated(rotated(s, w, h, RotOp::Rot90), h, w, RotOp::FlipH),
        Transform::Flipped180 => rotated(s, w, h, RotOp::FlipV),
        Transform::Flipped270 => rotated(rotated(s, w, h, RotOp::Rot270), h, w, RotOp::FlipH),
    }
}

/// Undo an output transform on an image.
pub fn orient_image(img: Image, t: Transform) -> (r: Image)
    requires
        img.wf(),
    ensures
        r.wf(),
        r.width == (if t.swaps_axes() {
            img.height
        } else {
            img.width
        }),
        r.height == (if t.swaps_axes() {
            img.width
        } else {
            img.height
        }),
        r.pixels@ == oriented(img.pixels@, img.width as int, img.height as int, t),
{
    match t {
        Transform::Normal => img,
        Transform::Rot90 => rotate_image(&img, RotOp::Rot90),
        Transform::Rot180 => rotate_image(&img, RotOp::Rot180),
        Transform::Rot270 => rotate_image(&img, RotOp::Rot270),
        Transform::Flipped => rotate_image(&img, RotOp::FlipH),
        Transform::Flipped90 => {
            let a = rotate_image(&img, RotOp::Rot90);
            rotate_image(&a, RotOp::FlipH)
        },
        Transform::Flipped180 => rotate_image(&img, RotOp::FlipV),
        Transform::Flipped270 => {
            let a = rotate_image(&img, RotOp::Rot270);
            rotate_image(&a, RotOp::FlipH)
        },
    }
}

// ---------------------------------------------------------------------------
// Per-frame processing model
// ---------------------------------------------------------------------------

/// Upright pixel width of a captured frame (the buffer width with the
/// transform undone).
pub open spec fn frame_src_w(f: FrameCopy) -> int {
    if f.transform.swaps_axes() {
        f.buf_height() as int
    } else {
        f.buf_width() as int
    }
}

/// Upright pixel height of a captured frame.
pub open spec fn frame_src_h(f: FrameCopy) -> int {
    if f.transform.swaps_axes() {
        f.buf_width() as int
    } else {
        f.buf_height() as int
    }
}

/// Width, in composite pixels, that the frame must cover: its logical width
/// times the common scale.
pub open spec fn frame_target_w(f: FrameCopy, ms: Scale) -> int {
    ms.spec_apply(f.logical_region.size.width as int)
}

/// Height, in composite pixels, that the frame must cover.
pub open spec fn frame_target_h(f: FrameCopy, ms: Scale) -> int {
    ms.spec_apply(f.logical_region.size.height as int)
}

/// The frame's processed pixels: decoded, orientation-corrected, and
/// resized to its target dimensions when they differ from the upright ones.
pub open spec fn frame_pixels(f: FrameCopy, ms: Scale) -> Seq<u32> {
    let dec = decoded(f.frame_data@, f.buf_width() * f.buf_height());
    let ori = oriented(dec, f.buf_width() as int, f.buf_height() as int, f.transform);
    if frame_src_w(f) == frame_target_w(f, ms) && frame_src_h(f) == frame_target_h(f, ms) {
        ori
    } else {
        resized(ori, frame_src_w(f), frame_src_h(f), frame_target_w(f, ms), frame_target_h(f, ms))
    }
}

/// The frame contributes no pixels: its source or target area is empty.
pub open spec fn frame_skipped(f: FrameCopy, ms: Scale) -> bool {
    frame_target_w(f, ms) == 0 || frame_target_h(f, ms) == 0 || frame_src_w(f) == 0
        || frame_src_h(f) == 0
}

/// The frame's target dimensions are representable for allocation. The last
/// bound covers the resampler's intermediate buffer of the upright source
/// width by the target height.
pub open spec fn frame_fits(f: FrameCopy, ms: Scale) -> bool {
    &&& frame_target_w(f, ms) <= u32::MAX
    &&& frame_target_h(f, ms) <= u32::MAX
    &&& 4 * (frame_target_w(f, ms) * frame_target_h(f, ms)) <= usize::MAX
    &&& 4 * (frame_src_w(f) * frame_target_h(f, ms)) <= usize::MAX
}

/// Horizontal placement offset of a frame on the composite canvas.
pub open spec fn frame_offset_x(f: FrameCopy, target: LogicalRegion, ms: Scale) -> int {
    ms.spec_apply_signed(f.logical_region.position.x - target.position.x)
}

/// Vertical placement offset of a frame on the composite canvas.
pub open spec fn frame_offset_y(f: FrameCopy, target: LogicalRegion, ms: Scale) -> int {
    ms.spec_apply_signed(f.logical_region.position.y - target.position.y)
}

// ---------------------------------------------------------------------------
// Composition
// ---------------------------------------------------------------------------

/// The composite canvas after the frames are laid over a transparent canvas
/// of `cw` by `ch` pixels, in list order; later frames overwrite earlier
/// ones where placements overlap.
pub open spec fn compose_pixels(
    frames: Seq<(FrameCopy, OutputInfo)>,
    target: LogicalRegion,
    ms: Scale,
    cw: int,
    ch: int,
) -> Seq<u32>
    decreases frames.len(),
{
    if frames.len() == 0 {
        zeros(cw * ch)
    } else {
        let prev = compose_pixels(frames.drop_last(), target, ms, cw, ch);
        let f = frames.last().0;
        if frame_skipped(f, ms) {
            prev
        } else {
            placed(
                prev,
                cw,
                ch,
                frame_pixels(f, ms),
                frame_target_w(f, ms),
                frame_target_h(f, ms),
                frame_offset_x(f, target, ms),
                frame_offset_y(f, target, ms),
            )
        }
    }
}

/// Some frame's logical region overlaps the target region with positive
/// area.
pub open spec fn any_intersects(s: Seq<(FrameCopy, OutputInfo)>, target: LogicalRegion) -> bool {
    exists|i: int| 0 <= i < s.len() && (#[trigger] s[i]).0.logical_region.intersects(target)
}

/// The composite canvas dimensions are representable for allocation.
pub open spec fn canvas_fits(s: Seq<(FrameCopy, OutputInfo)>, target: LogicalRegion) -> bool {
    let ms = max_scale_spec(s);
    let cw = ms.spec_apply(target.size.width as int);
    let ch = ms.spec_apply(target.size.height as int);
    cw <= u32::MAX && ch <= u32::MAX && cw * ch <= usize::MAX
}

/// Composition succeeds: there is a contributing frame, and the canvas and
/// every frame's target dimensions are representable.
pub open spec fn compose_ok(s: Seq<(FrameCopy, OutputInfo)>, target: LogicalRegion) -> bool {
    &&& s.len() > 0
    &&& any_intersects(s, target)
    &&& canvas_fits(s, target)
    &&& forall|i: int| 0 <= i < s.len() ==> frame_fits((#[trigger] s[i]).0, max_scale_spec(s))
}

/// `4 * a` stays within `m` exactly when `a` stays within a quarter of `m`.
proof fn lemma_quarter(a: int, m: int)
    requires
        0 <= a,
        0 < m,
    ensures
        4 * a <= m <==> a <= m / 4,
{
    vstd::arithmetic::div_mod::lemma_fundamental_div_mod(m, 4);
    vstd::arithmetic::div_mod::lemma_mod_bound(m, 4);
    if 4 * a <= m {
        vstd::arithmetic::div_mod::lemma_div_is_ordered(4 * a, m, 4);
        vstd::arithmetic::div_mod::lemma_fundamental_div_mod_converse_div(4 * a, 4, a, 0);
    }
}

/// Combine captured frames into one image positioned by logical geometry
/// and the common scale. Fails with `NoOutputs` exactly when the input list
/// is empty or no frame's region intersects `target`, and with
/// `BufferTooSmall` exactly when a required allocation size is not
/// representable.
#[verifier::loop_isolation(false)]
pub fn compose(frames: &Vec<(FrameCopy, OutputInfo)>, target: LogicalRegion) -> (r: Result<
    Image,
    Error,
>)
    requires
        target.fits_wire(),
        forall|i: int|
            0 <= i < frames@.len() ==> (#[trigger] frames@[i]).0.wf() && frames@[i].1.discovered(),
    ensures
        r is Ok <==> compose_ok(frames@, target),
        (r is Err && r.unwrap_err() is NoOutputs) <==> (frames@.len() == 0 || !any_intersects(
            frames@,
            target,
        )),
        (r is Err && r.unwrap_err() is BufferTooSmall) <==> (frames@.len() > 0 && any_intersects(
            frames@,
            target,
        ) && !(canvas_fits(frames@, target) && (forall|i: int|
            0 <= i < frames@.len() ==> frame_fits(
                (#[trigger] frames@[i]).0,
                max_scale_spec(frames@),
            )))),
        r is Ok ==> {
            let ms = max_scale_spec(frames@);
            let cw = ms.spec_apply(target.size.width as int);
            let ch = ms.spec_apply(target.size.height as int);
            let img = r.unwrap();
            &&& img.wf()
            &&& img.width == cw
            &&& img.height == ch
            &&& img.pixels@ == compose_pixels(frames@, target, ms, cw, ch)
        },
{
    let n = frames.len();
    if n == 0 {
        return Err(Error::NoOutputs);
    }

    let mut found: bool = false;
    let mut i: usize = 0;
    while i < n
        invariant
            0 <= i <= n,
            found <==> exists|k: int|
                0 <= k < i && (#[trigger] frames@[k]).0.logical_region.intersects(target),
        decreases n - i,
    {
        if frames[i].0.logical_region.intersects_exec(&target) {
            found = true;
        }
        i = i + 1;
    }
    if !found {
        return Err(Error::NoOutputs);
    }
    assert(any_intersects(frames@, target));

    let ms = max_scale(frames);
    let cw64 = ms.apply(target.size.width);
    let ch64 = ms.apply(target.size.height);
    if cw64 > u32::MAX as u64 || ch64 > u32::MAX as u64 {
        return Err(Error::BufferTooSmall);
    }
    proof {
        vstd::arithmetic::mul::lemma_mul_upper_bound(
            cw64 as int,
            u32::MAX as int,
            ch64 as int,
            u32::MAX as int,
        );
    }
    if cw64 * ch64 > usize::MAX as u64 {
        return Err(Error::BufferTooSmall);
    }
    let cwu: u32 = cw64 as u32;
    let chu: u32 = ch64 as u32;
    assert(canvas_fits(frames@, target));

    let mut canvas = new_canvas(cwu, chu);
    let ghost cw_int = ms.spec_apply(target.size.width as int);
    let ghost ch_int = ms.spec_apply(target.size.height as int);
    assert(canvas.pixels@ == compose_pixels(frames@.take(0), target, ms, cw_int, ch_int)) by {
        assert(frames@.take(0) =~= Seq::<(FrameCopy, OutputInfo)>::empty());
    }

    let mut k: usize = 0;
    while k < n
        invariant
            0 <= k <= n,
            canvas.wf(),
            canvas.width == cwu,
            canvas.height == chu,
            canvas.pixels@ == compose_pixels(frames@.take(k as int), target, ms, cw_int, ch_int),
            forall|j: int| 0 <= j < k ==> frame_fits((#[trigger] frames@[j]).0, ms),
        decreases n - k,
    {
        proof {
            let t1 = frames@.take(k as int + 1);
            assert(t1.drop_last() =~= frames@.take(k as int));
            assert(t1.last() == frames@[k as int]);
        }
        let f = &frames[k].0;
        let data_len = f.frame_data.len();
        let tw64 = ms.apply(f.logical_region.size.width);
        let th64 = ms.apply(f.logical_region.size.height);
        if tw64 > u32::MAX as u64 || th64 > u32::MAX as u64 {
            return Err(Error::BufferTooSmall);
        }
        proof {
            vstd::arithmetic::mul::lemma_mul_upper_bound(
                tw64 as int,
                u32::MAX as int,
                th64 as int,
                u32::MAX as int,
            );
            lemma_quarter((tw64 * th64) as int, usize::MAX as int);
        }
        if tw64 * th64 > (usize::MAX / 4) as u64 {
            return Err(Error::BufferTooSmall);
        }
        let bw = f.frame_format.size.width;
        let bh = f.frame_format.size.height;
        let ow: u32 = if f.transform.swaps_axes_exec() {
            bh
        } else {
            bw
        };
        proof {
            vstd::arithmetic::mul::lemma_mul_upper_bound(
                ow as int,
                u32::MAX as int,
                th64 as int,
                u32::MAX as int,
            );
            lemma_quarter((ow as u64 * th64) as int, usize::MAX as int);
        }
        if ow as u64 * th64 > (usize::MAX / 4) as u64 {
            return Err(Error::BufferTooSmall);
        }
        let twu: u32 = tw64 as u32;
        let thu: u32 = th64 as u32;
        assert(frame_fits(frames@[k as int].0, ms));
        let skipped = twu == 0 || thu == 0 || bw == 0 || bh == 0;
        if !skipped {
            let img = image_from_rgba(bw, bh, &f.frame_data);
            let mut oi = orient_image(img, f.transform);
            proof {
                assert(oi.width as int == frame_src_w(frames@[k as int].0));
                assert(oi.height as int == frame_src_h(frames@[k as int].0));
                vstd::arithmetic::mul::lemma_mul_is_commutative(bw as int, bh as int);
            }
            if oi.width != twu || oi.height != thu {
                oi = resize_image(&oi, twu, thu);
            }
            assert(oi.pixels@ == frame_pixels(frames@[k as int].0, ms));
            let dx: i64 = f.logical_region.position.x as i64 - target.position.x as i64;
            let dy: i64 = f.logical_region.position.y as i64 - target.position.y as i64;
            let ox = ms.apply_signed(dx);
            let oy = ms.apply_signed(dy);
            canvas = place_image(&canvas, &oi, ox, oy);
        }
        k = k + 1;
    }
    proof {
        assert(frames@.take(n as int) =~= frames@);
    }
    Ok(canvas)
}

// ---------------------------------------------------------------------------
// Laws of composition
// ---------------------------------------------------------------------------

/// Composition is idempotent on geometry: composing the same set of frames
/// twice with unchanged inputs yields pixel-identical output, because the
/// composite is a function of the inputs alone.
pub proof fn lemma_compose_deterministic(
    frames: Seq<(FrameCopy, OutputInfo)>,
    target: LogicalRegion,
    a: Image,
    b: Image,
)
    requires
        ({
            let ms = max_scale_spec(frames);
            let cw = ms.spec_apply(target.size.width as int);
            let ch = ms.spec_apply(target.size.height as int);
            &&& a.width == cw
            &&& a.height == ch
            &&& a.pixels@ == compose_pixels(frames, target, ms, cw, ch)
            &&& b.width == cw
            &&& b.height == ch
            &&& b.pixels@ == compose_pixels(frames, target, ms, cw, ch)
        }),
    ensures
        a.width == b.width,
        a.height == b.height,
        a.pixels@ == b.pixels@,
{
}

/// A single full-screen frame composed with no sub-region constraint yields
/// a composite equal to that frame's own converted image: with the target
/// set to the frame's logical region, an untransformed frame, and physical
/// dimensions that already match the scaled logical dimensions, the
/// composite pixels are exactly the frame's decoded pixels.
pub proof fn lemma_compose_single_full_frame(
    frames: Seq<(FrameCopy, OutputInfo)>,
    target: LogicalRegion,
)
    requires
        frames.len() == 1,
        (frames[0].0).wf(),
        (frames[0].1).discovered(),
        frames[0].0.transform == Transform::Normal,
        target == frames[0].0.logical_region,
        frame_src_w(frames[0].0) == frame_target_w(frames[0].0, max_scale_spec(frames)),
        frame_src_h(frames[0].0) == frame_target_h(frames[0].0, max_scale_spec(frames)),
        0 < frames[0].0.buf_width(),
        0 < frames[0].0.buf_height(),
    ensures
        ({
            let f = frames[0].0;
            let ms = max_scale_spec(frames);
            compose_pixels(frames, target, ms, frame_target_w(f, ms), frame_target_h(f, ms))
                == decoded(f.frame_data@, f.buf_width() * f.buf_height())
        }),
{
    let f = frames[0].0;
    let ms = max_scale_spec(frames);
    let w = f.buf_width() as int;
    let h = f.buf_height() as int;
    let tw = frame_target_w(f, ms);
    let th = frame_target_h(f, ms);
    let dec = decoded(f.frame_data@, f.buf_width() * f.buf_height());

    assert(frame_src_w(f) == w);
    assert(frame_src_h(f) == h);
    assert(tw == w && th == h);

    assert(frames.drop_last() =~= Seq::<(FrameCopy, OutputInfo)>::empty());
    assert(frames.last() == frames[0]);
    let prev = compose_pixels(frames.drop_last(), target, ms, tw, th);
    assert(prev == zeros(tw * th));
    assert(!frame_skipped(f, ms));

    lemma_max_scale_wf(frames);
    assert(ms.spec_apply_signed(0) == 0) by {
        assert(0 * ms.num == 0);
        assert(0int / (ms.den as int) == 0) by {
            vstd::arithmetic::div_mod::lemma_fundamental_div_mod_converse_div(
                0,
                ms.den as int,
                0,
                0,
            );
        }
    }
    assert(frame_offset_x(f, target, ms) == 0);
    assert(frame_offset_y(f, target, ms) == 0);

    assert(frame_pixels(f, ms) == oriented(dec, w, h, Transform::Normal));
    assert(frame_pixels(f, ms) == dec);

    let result = placed(prev, tw, th, dec, tw, th, 0, 0);
    assert(compose_pixels(frames, target, ms, tw, th) == result);
    assert(dec.len() == w * h);
    assert forall|j: int| 0 <= j < tw * th implies result[j] == dec[j] by {
        crate::image_util::lemma_flat_coords(tw, th, j);
        let x = j % tw;
        let y = j / tw;
        assert(result[j] == crate::image_util::placed_px(prev, tw, dec, tw, th, 0, 0, x, y));
        assert(0 <= x < tw && 0 <= y < th);
        assert(result[j] == crate::image_util::px(dec, tw, x, y));
        assert(y * tw + x == j);
    }
    assert(result =~= dec);
}

} // verus!
