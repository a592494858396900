use vstd::prelude::*;

use crate::error::Error;
use crate::screencopy::{supported_format, PixelFormat};

verus! {

/// Canonical color representation after conversion: 8-bit R, G, B, A bytes
/// in memory order.
#[derive(Clone, Copy, Debug, PartialEq, Eq, Structural)]
pub enum ColorType {
    Rgba8,
}

/// One converted 4-byte pixel group, as (r, g, b, a) memory bytes. The
/// argument bytes are the group's bytes in buffer order.
pub open spec fn converted_group(f: PixelFormat, b0: u8, b1: u8, b2: u8, b3: u8) -> (
    u8,
    u8,
    u8,
    u8,
) {
    match f {
        PixelFormat::Abgr8888 => (b0, b1, b2, b3),
        PixelFormat::Xbgr8888 => (b0, b1, b2, 255u8),
        PixelFormat::Argb8888 => (b2, b1, b0, b3),
        PixelFormat::Xrgb8888 => (b2, b1, b0, 255u8),
        PixelFormat::Other(_) => (b0, b1, b2, b3),
    }
}

/// Byte `i` of a buffer after in-place conversion from layout `f` to
/// canonical RGBA order. Bytes of an incomplete trailing group are kept.
pub open spec fn converted_at(f: PixelFormat, s: Seq<u8>, i: int) -> u8 {
    let g = 4 * (i / 4);
    if g + 3 < s.len() {
        let c = converted_group(f, s[g], s[g + 1], s[g + 2], s[g + 3]);
        if i % 4 == 0 {
            c.0
        } else if i % 4 == 1 {
            c.1
        } else if i % 4 == 2 {
            c.2
        } else {
            c.3
        }
    } else {
        s[i]
    }
}

/// A buffer after in-place conversion from layout `f` to canonical RGBA.
pub open spec fn converted(f: PixelFormat, s: Seq<u8>) -> Seq<u8> {
    Seq::new(s.len(), |i: int| converted_at(f, s, i))
}

/// Rewrite a pixel buffer in place from the given wire layout into canonical
/// RGBA byte order. This is the single admission point for supported wire
/// formats: it accepts exactly the layouts the negotiator prefers, and fails
/// with `NoSupportedBufferFormat`, leaving the buffer unchanged, for any
/// other layout.
pub fn convert_inplace(format: PixelFormat, data: &mut Vec<u8>) -> (r: Result<ColorType, Error>)
    ensures
        supported_format(format) ==> r is Ok && r.unwrap() == ColorType::Rgba8
            && final(data)@ == converted(format, old(data)@),
        !supported_format(format) ==> r is Err && r.unwrap_err() is NoSupportedBufferFormat
            && final(data)@ == old(data)@,
{
    let supported = match format {
        PixelFormat::Argb8888 | PixelFormat::Xrgb8888 | PixelFormat::Abgr8888
            | PixelFormat::Xbgr8888 => true,
        _ => false,
    };
    if !supported {
        return Err(Error::NoSupportedBufferFormat);
    }
    let ghost orig = data@;
    let n = data.len();
    let mut base: usize = 0;
    let ghost mut groups: int = 0;
    while n - base >= 4
        invariant
            supported_format(format),
            n == data@.len(),
            data@.len() == orig.len(),
            base == 4 * groups,
            0 <= groups,
            base <= n,
            forall|i: int| 0 <= i < base ==> data@[i] == converted_at(format, orig, i),
            forall|i: int| base <= i < n ==> data@[i] == orig[i],
        decreases n - base,
    {
        let b0 = data[base];
        let b1 = data[base + 1];
        let b2 = data[base + 2];
        let b3 = data[base + 3];
        let (c0, c1, c2, c3) = match format {
            PixelFormat::Abgr8888 => (b0, b1, b2, b3),
            PixelFormat::Xbgr8888 => (b0, b1, b2, 255u8),
            PixelFormat::Argb8888 => (b2, b1, b0, b3),
            PixelFormat::Xrgb8888 => (b2, b1, b0, 255u8),
            PixelFormat::Other(_) => (b0, b1, b2, b3),
        };
        data.set(base, c0);
        data.set(base + 1, c1);
        data.set(base + 2, c2);
        data.set(base + 3, c3);
        proof {
            let g = base as int;
            assert forall|i: int| g <= i < g + 4 implies data@[i] == converted_at(
                format,
                orig,
                i,
            ) by {
                vstd::arithmetic::div_mod::lemma_fundamental_div_mod_converse_div(
                    i,
                    4,
                    groups,
                    i - g,
                );
                vstd::arithmetic::div_mod::lemma_fundamental_div_mod_converse_mod(
                    i,
                    4,
                    groups,
                    i - g,
                );
                assert(4 * (i / 4) == g);
            }
        }
        base = base + 4;
        proof {
            groups = groups + 1;
        }
    }
    proof {
        assert forall|i: int| 0 <= i < n implies data@[i] == converted_at(format, orig, i) by {
            if i >= base {
                vstd::arithmetic::div_mod::lemma_fundamental_div_mod_converse_div(
                    i,
                    4,
                    groups,
                    i - base,
                );
                assert(4 * (i / 4) == base as int);
            }
        }
        assert(data@ =~= converted(format, orig));
    }
    Ok(ColorType::Rgba8)
}

} // verus!
