use vstd::prelude::*;

use crate::convert::ColorType;
use crate::error::Error;
use crate::output::Transform;
use crate::region::{EmbeddedRegion, LogicalRegion, Size};

verus! {

/// Wire pixel layout of a shared-memory buffer. Values mirror the shared
/// memory format codes the server advertises; layouts this crate does not
/// handle are carried as `Other` with the raw code.
#[derive(Clone, Copy, Debug, PartialEq, Eq, Structural)]
pub enum PixelFormat {
    /// 32-bit, bytes B, G, R, A in memory.
    Argb8888,
    /// 32-bit, bytes B, G, R, unused in memory.
    Xrgb8888,
    /// 32-bit, bytes R, G, B, A in memory.
    Abgr8888,
    /// 32-bit, bytes R, G, B, unused in memory.
    Xbgr8888,
    /// Any other advertised layout, with its raw format code.
    Other(u32),
}

/// A layout this crate can negotiate and convert: exactly the 32-bit
/// BGRA/RGBA-family layouts. This single predicate is the admission point
/// for supported wire formats; the negotiator's preference list and the
/// converter accept precisely these.
pub open spec fn supported_format(f: PixelFormat) -> bool {
    f == PixelFormat::Argb8888 || f == PixelFormat::Xrgb8888 || f == PixelFormat::Abgr8888
        || f == PixelFormat::Xbgr8888
}

/// Bytes per pixel of a layout; defined (4) exactly for the supported
/// layouts, 0 otherwise.
pub open spec fn bytes_per_pixel(f: PixelFormat) -> int {
    if supported_format(f) {
        4
    } else {
        0
    }
}

/// Negotiated buffer shape for one capture: pixel layout, pixel size, and
/// row stride in bytes.
#[derive(Clone, Copy, Debug, PartialEq, Eq, Structural)]
pub struct FrameFormat {
    pub format: PixelFormat,
    pub size: Size,
    pub stride: u32,
}

impl FrameFormat {
    /// Total buffer byte size: stride times height.
    pub open spec fn spec_byte_size(self) -> int {
        self.stride * self.size.height
    }

    /// Total buffer byte size: stride times height.
    pub fn byte_size(&self) -> (r: u64)
        ensures
            r == self.spec_byte_size(),
    {
        proof {
            vstd::arithmetic::mul::lemma_mul_upper_bound(
                self.stride as int,
                u32::MAX as int,
                self.size.height as int,
                u32::MAX as int,
            );
        }
        self.stride as u64 * self.size.height as u64
    }
}

/// First committed format with the given layout, if any.
pub open spec fn find_format(s: Seq<FrameFormat>, f: PixelFormat) -> Option<FrameFormat>
    decreases s.len(),
{
    if s.len() == 0 {
        None
    } else if s[0].format == f {
        Some(s[0])
    } else {
        find_format(s.skip(1), f)
    }
}

/// The format the negotiator picks from a committed list: the layouts are
/// tried in fixed preference order, most preferred first, and within one
/// layout the earliest committed entry wins.
pub open spec fn select_spec(s: Seq<FrameFormat>) -> Option<FrameFormat> {
    if find_format(s, PixelFormat::Argb8888) is Some {
        find_format(s, PixelFormat::Argb8888)
    } else if find_format(s, PixelFormat::Xrgb8888) is Some {
        find_format(s, PixelFormat::Xrgb8888)
    } else if find_format(s, PixelFormat::Abgr8888) is Some {
        find_format(s, PixelFormat::Abgr8888)
    } else if find_format(s, PixelFormat::Xbgr8888) is Some {
        find_format(s, PixelFormat::Xbgr8888)
    } else {
        None
    }
}

/// Unfolding fact: `find_format` on a prefix-extended view.
proof fn lemma_find_format_take(s: Seq<FrameFormat>, f: PixelFormat, i: int)
    requires
        0 <= i < s.len(),
        find_format(s.take(i), f) is None,
    ensures
        s[i].format == f ==> find_format(s.take(i + 1), f) == Some(s[i]),
        s[i].format != f ==> find_format(s.take(i + 1), f) == find_format(s.take(i), f),
    decreases i,
{
    let t1 = s.take(i + 1);
    if i == 0 {
        assert(t1.len() == 1);
        if s[0].format != f {
            assert(t1.skip(1) =~= s.take(0));
        }
    } else {
        assert(t1[0] == s[0]);
        assert(s.take(i)[0] == s[0]);
        assert(t1.skip(1) =~= s.skip(1).take(i));
        assert(s.take(i).skip(1) =~= s.skip(1).take(i - 1));
        assert(s.skip(1)[i - 1] == s[i]);
        lemma_find_format_take(s.skip(1), f, i - 1);
    }
}

/// Find the first committed format with layout `f`.
fn find_format_exec(formats: &Vec<FrameFormat>, f: PixelFormat) -> (r: Option<FrameFormat>)
    ensures
        r == find_format(formats@, f),
{
    let ghost s = formats@;
    let mut i: usize = 0;
    while i < formats.len()
        invariant
            0 <= i <= s.len(),
            s == formats@,
            find_format(s.take(i as int), f) is None,
        decreases s.len() - i,
    {
        if formats[i].format == f {
            proof {
                lemma_find_format_take(s, f, i as int);
                lemma_find_format_extends(s, f, i as int + 1);
            }
            return Some(formats[i]);
        }
        proof {
            lemma_find_format_take(s, f, i as int);
        }
        i = i + 1;
    }
    proof {
        assert(s.take(s.len() as int) =~= s);
    }
    None
}

/// Once found in a prefix, the same entry is found in the whole sequence.
proof fn lemma_find_format_extends(s: Seq<FrameFormat>, f: PixelFormat, i: int)
    requires
        0 <= i <= s.len(),
        find_format(s.take(i), f) is Some,
    ensures
        find_format(s, f) == find_format(s.take(i), f),
    decreases i,
{
    if i == 0 {
    } else {
        let t = s.take(i);
        assert(t[0] == s[0]);
        if s[0].format == f {
        } else {
            assert(t.skip(1) =~= s.skip(1).take(i - 1));
            lemma_find_format_extends(s.skip(1), f, i - 1);
        }
    }
}

/// Select a format from the committed list by fixed preference order, most
/// to least preferred pixel layout; `None` exactly when no committed entry
/// has a supported layout.
pub fn select_frame_format(formats: &Vec<FrameFormat>) -> (r: Option<FrameFormat>)
    ensures
        r == select_spec(formats@),
        r is None <==> (forall|i: int|
            0 <= i < formats@.len() ==> !supported_format(#[trigger] formats@[i].format)),
        r is Some ==> supported_format(r.unwrap().format),
{
    proof {
        lemma_select_none_iff_unsupported(formats@);
    }
    let r = find_format_exec(formats, PixelFormat::Argb8888);
    if r.is_some() {
        return r;
    }
    let r = find_format_exec(formats, PixelFormat::Xrgb8888);
    if r.is_some() {
        return r;
    }
    let r = find_format_exec(formats, PixelFormat::Abgr8888);
    if r.is_some() {
        return r;
    }
    find_format_exec(formats, PixelFormat::Xbgr8888)
}

/// `find_format` fails exactly when no entry has the layout.
proof fn lemma_find_none(s: Seq<FrameFormat>, f: PixelFormat)
    ensures
        find_format(s, f) is None <==> (forall|i: int|
            0 <= i < s.len() ==> #[trigger] s[i].format != f),
    decreases s.len(),
{
    if s.len() == 0 {
    } else {
        lemma_find_none(s.skip(1), f);
        if s[0].format != f {
            if find_format(s, f) is None {
                assert forall|i: int| 0 <= i < s.len() implies #[trigger] s[i].format != f by {
                    if i >= 1 {
                        assert(s.skip(1)[i - 1] == s[i]);
                    }
                }
            }
            if forall|i: int| 0 <= i < s.len() ==> !(#[trigger] s[i].format == f) {
                assert forall|j: int| 0 <= j < s.skip(1).len() implies #[trigger] s.skip(
                    1,
                )[j].format != f by {
                    assert(s.skip(1)[j] == s[j + 1]);
                }
            }
        }
    }
}

proof fn lemma_select_none_iff_unsupported(s: Seq<FrameFormat>)
    ensures
        select_spec(s) is None <==> (forall|i: int|
            0 <= i < s.len() ==> !supported_format(#[trigger] s[i].format)),
        select_spec(s) is Some ==> supported_format(select_spec(s).unwrap().format),
{
    lemma_find_none(s, PixelFormat::Argb8888);
    lemma_find_none(s, PixelFormat::Xrgb8888);
    lemma_find_none(s, PixelFormat::Abgr8888);
    lemma_find_none(s, PixelFormat::Xbgr8888);
    if find_format(s, PixelFormat::Argb8888) is Some {
        lemma_find_yields_format(s, PixelFormat::Argb8888);
    } else if find_format(s, PixelFormat::Xrgb8888) is Some {
        lemma_find_yields_format(s, PixelFormat::Xrgb8888);
    } else if find_format(s, PixelFormat::Abgr8888) is Some {
        lemma_find_yields_format(s, PixelFormat::Abgr8888);
    } else if find_format(s, PixelFormat::Xbgr8888) is Some {
        lemma_find_yields_format(s, PixelFormat::Xbgr8888);
    }
}

/// What `find_format` returns carries the layout that was searched for.
proof fn lemma_find_yields_format(s: Seq<FrameFormat>, f: PixelFormat)
    requires
        find_format(s, f) is Some,
    ensures
        find_format(s, f).unwrap().format == f,
    decreases s.len(),
{
    if s.len() == 0 {
    } else if s[0].format == f {
    } else {
        lemma_find_yields_format(s.skip(1), f);
    }
}

/// The physical size of a captured buffer once the output's transform has
/// been undone: axis-swapping transforms exchange width and height.
pub fn rotated_physical_size(transform: Transform, size: Size) -> (r: Size)
    ensures
        transform.swaps_axes() ==> r == (Size { width: size.height, height: size.width }),
        !transform.swaps_axes() ==> r == size,
{
    if transform.swaps_axes_exec() {
        Size { width: size.height, height: size.width }
    } else {
        size
    }
}

/// Size in bytes that the shared-memory pool must be created with, as the
/// signed 32-bit value the protocol takes; `BufferTooSmall` exactly when the
/// buffer's byte size cannot be represented for allocation.
pub fn shm_pool_size(format: &FrameFormat) -> (r: Result<i32, Error>)
    ensures
        format.spec_byte_size() <= i32::MAX <==> r is Ok,
        r is Ok ==> r.unwrap() == format.spec_byte_size(),
        r is Err ==> r.unwrap_err() is BufferTooSmall,
{
    let size = format.byte_size();
    if size <= i32::MAX as u64 {
        Ok(size as i32)
    } else {
        Err(Error::BufferTooSmall)
    }
}

/// One completed capture: the negotiated format, the converted pixel bytes,
/// the source output's transform, and the logical region this frame covers
/// in the final composite.
#[derive(Debug)]
pub struct FrameCopy {
    /// The negotiated buffer shape, stride recomputed as width times
    /// bytes-per-pixel.
    pub frame_format: FrameFormat,
    /// Canonical color representation of `frame_data` after conversion.
    pub frame_color_type: ColorType,
    /// The converted pixel bytes, row-major, `stride` bytes per row.
    pub frame_data: Vec<u8>,
    /// The source output's transform, still to be undone.
    pub transform: Transform,
    /// The logical region this frame represents in the composite.
    pub logical_region: LogicalRegion,
    /// Pixel dimensions once the transform is undone.
    pub physical_size: Size,
}

impl FrameCopy {
    /// Pixel width of the captured buffer before the transform is undone.
    pub open spec fn buf_width(self) -> u32 {
        self.frame_format.size.width
    }

    /// Pixel height of the captured buffer before the transform is undone.
    pub open spec fn buf_height(self) -> u32 {
        self.frame_format.size.height
    }

    /// The frame's bytes, stride and geometry are consistent: the stride is
    /// exactly four bytes per pixel, the data holds the whole buffer, and
    /// the physical size is the buffer size with the transform undone.
    pub open spec fn wf(self) -> bool {
        &&& self.frame_format.stride == 4 * self.buf_width()
        &&& self.frame_data@.len() == 4 * (self.buf_width() * self.buf_height())
        &&& self.frame_color_type == ColorType::Rgba8
        &&& self.physical_size == (if self.transform.swaps_axes() {
            Size { width: self.buf_height(), height: self.buf_width() }
        } else {
            Size { width: self.buf_width(), height: self.buf_height() }
        })
        &&& self.logical_region.fits_wire()
    }
}

/// Assemble a completed capture. The frame represents the embedded capture
/// region when one was given, and the whole output's logical region
/// otherwise.
pub fn build_frame_copy(
    frame_format: FrameFormat,
    frame_color_type: ColorType,
    frame_data: Vec<u8>,
    transform: Transform,
    output_region: LogicalRegion,
    capture_region: Option<EmbeddedRegion>,
) -> (r: FrameCopy)
    requires
        frame_format.stride == 4 * frame_format.size.width,
        frame_data@.len() == 4 * (frame_format.size.width * frame_format.size.height),
        frame_color_type == ColorType::Rgba8,
        output_region.fits_wire(),
        capture_region is Some ==> capture_region.unwrap().wf(),
    ensures
        r.wf(),
        r.frame_format == frame_format,
        r.frame_color_type == frame_color_type,
        r.frame_data == frame_data,
        r.transform == transform,
        r.logical_region == (match capture_region {
            Some(e) => e.spec_logical(),
            None => output_region,
        }),
        r.physical_size == (if transform.swaps_axes() {
            Size { width: frame_format.size.height, height: frame_format.size.width }
        } else {
            frame_format.size
        }),
{
    let physical_size = rotated_physical_size(transform, frame_format.size);
    let logical_region = match capture_region {
        Some(e) => e.logical(),
        None => output_region,
    };
    FrameCopy {
        frame_format,
        frame_color_type,
        frame_data,
        transform,
        logical_region,
        physical_size,
    }
}

} // verus!
