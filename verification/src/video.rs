//! Animated exports of captured frames: every frame is decoded to RGBA
//! and the sequence is encoded as a looping GIF or an APNG whose frames
//! all last `delay_ms`.

use vstd::prelude::*;
use image::codecs::gif::{GifEncoder, Repeat};
use image::{Delay, Frame, RgbaImage};
use png::{BitDepth, BlendOp, ColorType, DisposeOp, Encoder, EncodingError};
use crate::error::Error;
use crate::model::{ImageFormat, VideoFormat};
use crate::pixels::{decode_rgba, decoded_rgba};

verus! {

/// The bytes of the animation that encoding the RGBA frames
/// `(width, height, bytes)` as `format`, each shown for `delay_ms`,
/// yields; `None` when the encoder fails.
pub uninterp spec fn encoded_video(frames: Seq<(u32, u32, Seq<u8>)>, delay_ms: u16, format: VideoFormat) -> Option<Seq<u8>>;

pub open spec fn frame_views(v: Seq<(u32, u32, Vec<u8>)>) -> Seq<(u32, u32, Seq<u8>)> {
    v.map_values(|f: (u32, u32, Vec<u8>)| (f.0, f.1, f.2@))
}

/// Every frame buffer holds exactly the four channels of each of its
/// pixels.
pub open spec fn frames_fit(frames: Seq<(u32, u32, Seq<u8>)>) -> bool {
    forall|i: int| 0 <= i < frames.len() ==> #[trigger] frames[i].2.len() == 4 * frames[i].0 * frames[i].1
}

/// Encodes RGBA frames as an endlessly repeating GIF.
///
/// Builds each frame with `RgbaImage::from_raw` from a buffer of exactly
/// four bytes per pixel (`frames_fit`; the encoder's frame conversion
/// asserts that length) and `Frame::from_parts` at
/// the origin with a delay of `delay_ms` milliseconds, and hands them to an
/// `image::codecs::gif::GifEncoder` made by `new_with_speed(.., 10)` after
/// `set_repeat(Repeat::Infinite)`.  The contract ties the result to
/// `encoded_video` of the arguments; the error text is the encoder's.
#[verifier::external_body]
fn encode_gif(frames: &Vec<(u32, u32, Vec<u8>)>, delay_ms: u16) -> (r: Result<Vec<u8>, String>)
    requires
        frames_fit(frame_views(frames@)),
    ensures
        match r {
            Ok(b) => encoded_video(frame_views(frames@), delay_ms, VideoFormat::Gif) == Some(b@),
            Err(_) => encoded_video(frame_views(frames@), delay_ms, VideoFormat::Gif) is None,
        },
{
    let d = Delay::from_numer_denom_ms(delay_ms as u32, 1);
    let mut out: Vec<u8> = Vec::new();
    let mut enc = GifEncoder::new_with_speed(&mut out, 10);
    enc.set_repeat(Repeat::Infinite).map_err(|e| e.to_string())?;
    for (w, h, px) in frames {
        let img = RgbaImage::from_raw(*w, *h, px.clone()).unwrap();
        enc.encode_frame(Frame::from_parts(img, 0, 0, d)).map_err(|e| e.to_string())?;
    }
    drop(enc);
    Ok(out)
}

/// Encodes RGBA frames as an APNG the size of the first frame.
///
/// Uses `Encoder::new` with 8-bit RGBA colour, `set_animated(n, 0)`
/// (played forever), `set_frame_delay(delay_ms, 1000)`, `DisposeOp::None`
/// and `BlendOp::Source`, then `write_header`, `write_image_data` for each
/// frame and `finish`.  The contract ties the result to `encoded_video` of
/// the arguments; the error text is the encoder's.
#[verifier::external_body]
fn encode_apng(frames: &Vec<(u32, u32, Vec<u8>)>, delay_ms: u16) -> (r: Result<Vec<u8>, String>)
    requires
        frames@.len() > 0,
    ensures
        match r {
            Ok(b) => encoded_video(frame_views(frames@), delay_ms, VideoFormat::Apng) == Some(b@),
            Err(_) => encoded_video(frame_views(frames@), delay_ms, VideoFormat::Apng) is None,
        },
{
    let s = |e: EncodingError| e.to_string();
    let mut out: Vec<u8> = Vec::new();
    let mut enc = Encoder::new(&mut out, frames[0].0, frames[0].1);
    enc.set_color(ColorType::Rgba);
    enc.set_depth(BitDepth::Eight);
    enc.set_animated(frames.len() as u32, 0).map_err(s)?;
    enc.set_frame_delay(delay_ms, 1000).map_err(s)?;
    enc.set_dispose_op(DisposeOp::None).map_err(s)?;
    enc.set_blend_op(BlendOp::Source).map_err(s)?;
    let mut wr = enc.write_header().map_err(s)?;
    for f in frames {
        wr.write_image_data(&f.2).map_err(s)?;
    }
    wr.finish().map_err(s)?;
    Ok(out)
}

/// Every frame decodes in its format.
pub open spec fn all_decode(frames: Seq<Seq<u8>>, formats: Seq<ImageFormat>) -> bool {
    forall|i: int| 0 <= i < frames.len() ==> #[trigger] decoded_rgba(frames[i], formats[i]) is Some
}

/// The decoded frames, in order.
pub open spec fn decoded_frames(frames: Seq<Seq<u8>>, formats: Seq<ImageFormat>) -> Seq<(u32, u32, Seq<u8>)> {
    Seq::new(frames.len(), |i: int| decoded_rgba(frames[i], formats[i])->0)
}

pub open spec fn byte_views(v: Seq<Vec<u8>>) -> Seq<Seq<u8>> {
    v.map_values(|b: Vec<u8>| b@)
}

/// Decodes the encoded frames (`formats[i]` is the format of
/// `frames[i]`) and encodes them as an animation of `format` whose frames
/// each last `delay_ms`.  Returns the width and height of the first frame,
/// which the animation takes, with the encoded bytes.  Fails with an
/// invalid-argument error on an empty list, on a frame that does not
/// decode, and when the encoder fails.
pub fn export_video(frames: &Vec<Vec<u8>>, formats: &Vec<ImageFormat>, delay_ms: u16, format: VideoFormat) -> (r: Result<
    (u32, u32, Vec<u8>),
    Error,
>)
    requires
        formats@.len() == frames@.len(),
    ensures
        frames@.len() == 0 ==> (r matches Err(Error::InvalidArgument(m)) && m@
            == "video_export requires at least one frame"@),
        frames@.len() > 0 && !all_decode(byte_views(frames@), formats@) ==> (r matches Err(Error::InvalidArgument(m))
            && exists|msg: Seq<char>| m@ == "decode frame: "@ + msg),
        frames@.len() > 0 && all_decode(byte_views(frames@), formats@) ==> match encoded_video(
            decoded_frames(byte_views(frames@), formats@),
            delay_ms,
            format,
        ) {
            Some(b) => (r matches Ok((w, h, v)) && v@ == b && w == decoded_frames(byte_views(frames@), formats@)[0].0
                && h == decoded_frames(byte_views(frames@), formats@)[0].1),
            None => r matches Err(Error::InvalidArgument(_)),
        },
{
    proof {
        reveal_strlit("video_export requires at least one frame");
        reveal_strlit("decode frame: ");
    }
    let n = frames.len();
    if n == 0 {
        return Err(Error::invalid(String::from_str("video_export requires at least one frame")));
    }
    let ghost fv = byte_views(frames@);
    let mut decoded: Vec<(u32, u32, Vec<u8>)> = Vec::new();
    let mut i: usize = 0;
    while i < n
        invariant
            n == frames@.len(),
            n == formats@.len(),
            fv == byte_views(frames@),
            i <= n,
            decoded@.len() == i,
            forall|k: int| 0 <= k < i ==> #[trigger] decoded_rgba(fv[k], formats@[k]) is Some,
            forall|k: int| 0 <= k < i ==> decoded_rgba(fv[k], formats@[k]) == Some(#[trigger] frame_views(decoded@)[k]),
            frames_fit(frame_views(decoded@)),
        decreases n - i,
    {
        let bytes = frames[i].as_slice();
        assert(bytes@ == fv[i as int]);
        match decode_rgba(bytes, formats[i]) {
            Ok(d) => {
                let ghost before = decoded@;
                decoded.push(d);
                proof {
                    assert(decoded@ == before.push(d));
                    assert(fv[i as int] == frames@[i as int]@);
                    assert forall|k: int| 0 <= k < i + 1 implies decoded_rgba(fv[k], formats@[k]) == Some(
                        #[trigger] frame_views(decoded@)[k],
                    ) by {
                        if k < i {
                            assert(frame_views(decoded@)[k] == frame_views(before)[k]);
                        } else {
                            assert(frame_views(decoded@)[k] == (d.0, d.1, d.2@));
                            assert(decoded_rgba(fv[k], formats@[k]) == Some((d.0, d.1, d.2@)));
                        }
                    }
                    assert forall|k: int| 0 <= k < i + 1 implies #[trigger] frame_views(decoded@)[k].2.len() == 4
                        * frame_views(decoded@)[k].0 * frame_views(decoded@)[k].1 by {
                        if k < i {
                            assert(decoded@[k] == before[k]);
                            assert(frame_views(before)[k] == frame_views(decoded@)[k]);
                        }
                    }
                }
            },
            Err(msg) => {
                let mut m = String::from_str("decode frame: ");
                m.append(msg.as_str());
                proof {
                    assert(fv[i as int] == frames@[i as int]@);
                    assert(m@ =~= "decode frame: "@ + msg@);
                }
                return Err(Error::invalid(m));
            },
        }
        i = i + 1;
    }
    proof {
        assert(frame_views(decoded@) =~= decoded_frames(fv, formats@));
    }
    let encoded = match format {
        VideoFormat::Gif => encode_gif(&decoded, delay_ms),
        VideoFormat::Apng => encode_apng(&decoded, delay_ms),
    };
    match encoded {
        Ok(b) => Ok((decoded[0].0, decoded[0].1, b)),
        Err(msg) => Err(Error::invalid(msg)),
    }
}

} // verus!
