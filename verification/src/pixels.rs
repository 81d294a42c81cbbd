//! Channel-wise comparison of two captured frames.
//!
//! Frames are decoded to 8-bit RGBA by the `image` crate; the comparison
//! of the decoded buffers is the library's own.  The application turns a
//! comparison into the changed-pixel ratio, a floating-point figure.

use vstd::prelude::*;
use crate::error::Error;
use crate::model::ImageFormat;

verus! {

/// What decoding `bytes` as `format` and converting the picture to 8-bit
/// RGBA yields: its width, its height and its channel bytes, row by row.
/// `None` when the bytes do not decode.
pub uninterp spec fn decoded_rgba(bytes: Seq<u8>, format: ImageFormat) -> Option<(u32, u32, Seq<u8>)>;

/// Decodes an encoded frame to RGBA.
///
/// Calls `image::load_from_memory_with_format`, then `to_rgba8`,
/// `dimensions` and `into_raw` on the result.  The contract ties the
/// result to `decoded_rgba` of the arguments, and states that the buffer
/// holds exactly the four channels of every pixel: the decoders build
/// their buffers at that size and `to_rgba8` converts into a buffer of
/// exactly that length.
/// On failure it returns the decoder's error message.
#[verifier::external_body]
pub(crate) fn decode_rgba(bytes: &[u8], format: ImageFormat) -> (r: Result<(u32, u32, Vec<u8>), String>)
    ensures
        match r {
            Ok((w, h, px)) => {
                &&& decoded_rgba(bytes@, format) == Some((w, h, px@))
                &&& px@.len() == 4 * w * h
            },
            Err(_) => decoded_rgba(bytes@, format) is None,
        },
{
    let f = match format {
        ImageFormat::Png => image::ImageFormat::Png,
        ImageFormat::Jpeg => image::ImageFormat::Jpeg,
    };
    match image::load_from_memory_with_format(bytes, f) {
        Ok(img) => {
            let rgba = img.to_rgba8();
            let (w, h) = rgba.dimensions();
            Ok((w, h, rgba.into_raw()))
        },
        Err(e) => Err(e.to_string()),
    }
}

/// Sum of the absolute differences of the first `n` channel bytes.
pub open spec fn abs_diff_sum(a: Seq<u8>, b: Seq<u8>, n: int) -> nat
    decreases n,
{
    if n <= 0 {
        0
    } else {
        let d: int = a[n - 1] as int - b[n - 1] as int;
        abs_diff_sum(a, b, n - 1) + (if d < 0 { (-d) as nat } else { d as nat })
    }
}

/// How two decoded frames compare.
#[derive(Debug, Clone, Copy, PartialEq, Eq, Structural)]
pub enum PixelComparison {
    /// The frames differ in width or height; they count as wholly changed.
    DifferentSize,
    /// The frames have no pixels.
    NoPixels,
    /// `abs_diff_sum` over `channels` channel bytes (four per pixel).
    Compared { abs_diff_sum: u128, channels: u64 },
}

/// The comparison of two decoded pictures `(width, height, bytes)`.
pub open spec fn spec_compare(a: (u32, u32, Seq<u8>), b: (u32, u32, Seq<u8>)) -> PixelComparison {
    if a.0 != b.0 || a.1 != b.1 {
        PixelComparison::DifferentSize
    } else if 4 * a.0 * a.1 == 0 {
        PixelComparison::NoPixels
    } else {
        let n = 4 * a.0 * a.1;
        PixelComparison::Compared { abs_diff_sum: abs_diff_sum(a.2, b.2, n) as u128, channels: n as u64 }
    }
}

/// The text of a failed decode: which frame, then the decoder's message.
pub open spec fn decode_failure(which: Seq<char>, msg: Seq<char>) -> Seq<char> {
    "decode "@ + which + ": "@ + msg
}

proof fn lemma_abs_diff_sum_bound(a: Seq<u8>, b: Seq<u8>, n: int)
    requires
        n >= 0,
    ensures
        abs_diff_sum(a, b, n) <= 255 * n,
    decreases n,
{
    if n > 0 {
        lemma_abs_diff_sum_bound(a, b, n - 1);
    }
}

/// A frame compared with itself shows no difference.
pub proof fn lemma_abs_diff_sum_self(a: Seq<u8>, n: int)
    ensures
        abs_diff_sum(a, a, n) == 0,
    decreases n,
{
    if n > 0 {
        lemma_abs_diff_sum_self(a, n - 1);
    }
}

/// A frame compared with itself is never counted as changed: the sizes
/// agree and every channel difference is zero.
pub proof fn law_frame_against_itself(d: (u32, u32, Seq<u8>))
    ensures
        spec_compare(d, d) != PixelComparison::DifferentSize,
        spec_compare(d, d) matches PixelComparison::Compared { abs_diff_sum, .. } ==> abs_diff_sum == 0,
{
    lemma_abs_diff_sum_self(d.2, 4 * d.0 * d.1);
}

/// The channel differences of two frames add up to the same sum in
/// either order.
pub proof fn lemma_abs_diff_sum_symmetric(a: Seq<u8>, b: Seq<u8>, n: int)
    ensures
        abs_diff_sum(a, b, n) == abs_diff_sum(b, a, n),
    decreases n,
{
    if n > 0 {
        lemma_abs_diff_sum_symmetric(a, b, n - 1);
    }
}

/// Comparing two frames does not depend on their order.
pub proof fn law_comparison_symmetric(a: (u32, u32, Seq<u8>), b: (u32, u32, Seq<u8>))
    ensures
        spec_compare(a, b) == spec_compare(b, a),
{
    lemma_abs_diff_sum_symmetric(a.2, b.2, 4 * a.0 * a.1);
}

/// The summed difference of two decoded frames never exceeds 255 for
/// each compared channel, so the changed-channel ratio lies between 0
/// and 1.  (A decoded buffer holds the channels of all its pixels and,
/// being in memory, has at most `usize::MAX` bytes.)
pub proof fn law_comparison_bounded(a: (u32, u32, Seq<u8>), b: (u32, u32, Seq<u8>))
    requires
        a.2.len() >= 4 * a.0 * a.1,
        a.2.len() <= usize::MAX,
    ensures
        spec_compare(a, b) matches PixelComparison::Compared { abs_diff_sum, channels } ==> abs_diff_sum <= 255
            * channels,
{
    let n = 4 * a.0 * a.1;
    lemma_abs_diff_sum_bound(a.2, b.2, n);
    assert(0 <= n <= u64::MAX) by (nonlinear_arith)
        requires
            n == 4 * a.0 * a.1,
            n <= a.2.len() <= usize::MAX,
    ;
    assert(255 * n <= u128::MAX) by (nonlinear_arith)
        requires
            0 <= n <= u64::MAX,
    ;
}

fn sum_abs_diff(a: &Vec<u8>, b: &Vec<u8>, n: usize) -> (s: u128)
    requires
        n <= a@.len(),
        n <= b@.len(),
    ensures
        s == abs_diff_sum(a@, b@, n as int),
{
    let alen: usize = a.len();
    let mut s: u128 = 0;
    let mut i: usize = 0;
    while i < n
        invariant
            i <= n,
            alen == a@.len(),
            n <= a@.len(),
            n <= b@.len(),
            s == abs_diff_sum(a@, b@, i as int),
        decreases n - i,
    {
        proof {
            lemma_abs_diff_sum_bound(a@, b@, i as int + 1);
            assert(255 * (i as int + 1) < u128::MAX) by (nonlinear_arith)
                requires
                    i < n,
                    n <= a@.len(),
                    a@.len() == alen,
                    alen <= usize::MAX,
            ;
        }
        let x = a[i];
        let y = b[i];
        let d: u128 = if x >= y {
            (x - y) as u128
        } else {
            (y - x) as u128
        };
        s = s + d;
        i = i + 1;
    }
    s
}

/// Compares two decoded pictures channel by channel.
pub fn compare_decoded(a: (u32, u32, Vec<u8>), b: (u32, u32, Vec<u8>)) -> (c: PixelComparison)
    requires
        a.2@.len() >= 4 * a.0 * a.1,
        b.2@.len() >= 4 * b.0 * b.1,
    ensures
        c == spec_compare((a.0, a.1, a.2@), (b.0, b.1, b.2@)),
{
    let (wa, ha, pa) = a;
    let (wb, hb, pb) = b;
    if wa != wb || ha != hb {
        return PixelComparison::DifferentSize;
    }
    let plen: usize = pa.len();
    let ghost n: int = 4 * wa * ha;
    assert(0 <= n <= usize::MAX && wa * ha <= usize::MAX) by (nonlinear_arith)
        requires
            n == 4 * wa * ha,
            pa@.len() >= n,
            pa@.len() == plen,
            plen <= usize::MAX,
    ;
    let wh: usize = (wa as usize) * (ha as usize);
    assert(wh * 4 <= usize::MAX) by (nonlinear_arith)
        requires
            wh == wa * ha,
            4 * wa * ha <= usize::MAX,
    ;
    let count: usize = wh * 4;
    assert(count == n) by (nonlinear_arith)
        requires
            count == wh * 4,
            wh == wa * ha,
            n == 4 * wa * ha,
    ;
    if count == 0 {
        return PixelComparison::NoPixels;
    }
    let s = sum_abs_diff(&pa, &pb, count);
    PixelComparison::Compared { abs_diff_sum: s, channels: count as u64 }
}

/// Decodes two encoded frames and compares them channel by channel.
/// Fails with an invalid-argument error naming the frame (`frame_a` or
/// `frame_b`) that does not decode, the first one first.
pub fn compare_frames(bytes_a: &[u8], fmt_a: ImageFormat, bytes_b: &[u8], fmt_b: ImageFormat) -> (r: Result<
    PixelComparison,
    Error,
>)
    ensures
        match (decoded_rgba(bytes_a@, fmt_a), decoded_rgba(bytes_b@, fmt_b)) {
            (Some(da), Some(db)) => r == Ok::<PixelComparison, Error>(spec_compare(da, db)),
            (None, _) => r matches Err(Error::InvalidArgument(m)) && exists|msg: Seq<char>|
                m@ == decode_failure("frame_a"@, msg),
            (Some(_), None) => r matches Err(Error::InvalidArgument(m)) && exists|msg: Seq<char>|
                m@ == decode_failure("frame_b"@, msg),
        },
{
    let da = match decode_rgba(bytes_a, fmt_a) {
        Ok(d) => d,
        Err(msg) => {
            let mut m = String::from_str("decode frame_a: ");
            m.append(msg.as_str());
            proof {
                reveal_strlit("decode frame_a: ");
                reveal_strlit("decode ");
                reveal_strlit("frame_a");
                reveal_strlit(": ");
                assert(m@ =~= decode_failure("frame_a"@, msg@));
            }
            return Err(Error::invalid(m));
        },
    };
    let db = match decode_rgba(bytes_b, fmt_b) {
        Ok(d) => d,
        Err(msg) => {
            let mut m = String::from_str("decode frame_b: ");
            m.append(msg.as_str());
            proof {
                reveal_strlit("decode frame_b: ");
                reveal_strlit("decode ");
                reveal_strlit("frame_b");
                reveal_strlit(": ");
                assert(m@ =~= decode_failure("frame_b"@, msg@));
            }
            return Err(Error::invalid(m));
        },
    };
    Ok(compare_decoded(da, db))
}

} // verus!
