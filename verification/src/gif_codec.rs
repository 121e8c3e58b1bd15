//! Trusted boundary around the `gif` crate's encoder. The encoder writes
//! into an in-memory buffer and is held in an opaque struct; what a call
//! does to the stream under construction is stated over the spec names
//! below, and the final byte stream is named `gif_stream`, a pure function
//! of the canvas and of the written frames.

use vstd::prelude::*;

verus! {

#[verifier::external_type_specification]
#[verifier::external_body]
pub struct ExGifEncodingError(gif::EncodingError);

/// A `gif::Encoder` writing into an in-memory buffer. Held opaque: Verus
/// refuses to declare the encoder type itself because its `std::io::Write`
/// bound has no specification.
#[verifier::external_body]
pub struct GifEncoder {
    inner: gif::Encoder<Vec<u8>>,
}

/// The frames written to the encoder so far, in order, each as its RGB bytes
/// paired with its delay in the format's native 10 ms units.
pub uninterp spec fn encoder_frames(e: GifEncoder) -> Seq<(Seq<u8>, u16)>;

/// The canvas (width, height) the encoder was created with.
pub uninterp spec fn encoder_shape(e: GifEncoder) -> (u16, u16);

/// Whether the infinite-loop marker was written before any frame.
pub uninterp spec fn encoder_looping(e: GifEncoder) -> bool;

/// The complete byte stream of an infinitely looping animated image with the
/// given canvas and frames: a function of these arguments alone.
pub uninterp spec fn gif_stream(width: u16, height: u16, frames: Seq<(Seq<u8>, u16)>) -> Seq<u8>;

/// Relies on gif::Encoder::new, which writes the screen descriptor for the
/// given canvas into a fresh buffer; no frames are written yet.
#[verifier::external_body]
pub(crate) fn gif_encoder_new(width: u16, height: u16) -> (r: Result<GifEncoder, gif::EncodingError>)
    ensures
        r matches Ok(e) ==> encoder_shape(e) == (width, height) && encoder_frames(e).len() == 0
            && !encoder_looping(e),
{
    match gif::Encoder::new(Vec::new(), width, height, &[]) {
        Ok(inner) => Ok(GifEncoder { inner }),
        Err(err) => Err(err),
    }
}

/// Relies on gif::Encoder::set_repeat(Repeat::Infinite), which writes the
/// infinite-loop extension and leaves the canvas and the written frames as
/// they were. Stated only for a fresh encoder, so that the extension stands
/// exactly once, ahead of every frame.
#[verifier::external_body]
pub(crate) fn gif_encoder_set_infinite(e: &mut GifEncoder) -> (r: Result<(), gif::EncodingError>)
    requires
        encoder_frames(*old(e)).len() == 0,
        !encoder_looping(*old(e)),
    ensures
        r is Ok ==> encoder_shape(*final(e)) == encoder_shape(*old(e)) && encoder_frames(
            *final(e),
        ) == encoder_frames(*old(e)) && encoder_looping(*final(e)),
{
    e.inner.set_repeat(gif::Repeat::Infinite)
}

/// Relies on gif::Frame::from_rgb, which builds one palette-quantized frame
/// from the RGB bytes — and panics unless their length is exactly
/// width * height * 3 — and on gif::Encoder::write_frame, which appends that
/// frame, tagged with the given delay in 10 ms units, to the stream.
#[verifier::external_body]
pub(crate) fn gif_write_rgb_frame(
    e: &mut GifEncoder,
    width: u16,
    height: u16,
    delay: u16,
    pixels: &Vec<u8>,
) -> (r: Result<(), gif::EncodingError>)
    requires
        pixels@.len() == width * height * 3,
        encoder_shape(*old(e)) == (width, height),
        encoder_looping(*old(e)),
    ensures
        r is Ok ==> encoder_shape(*final(e)) == encoder_shape(*old(e)) && encoder_looping(
            *final(e),
        ) && encoder_frames(*final(e)) == encoder_frames(*old(e)).push((pixels@, delay)),
{
    let mut frame = gif::Frame::from_rgb(width, height, pixels.as_slice());
    frame.delay = delay;
    e.inner.write_frame(&frame)
}

/// Relies on gif::Encoder::into_inner, which writes the trailer and hands
/// back the buffer: the complete byte stream for the canvas and frames the
/// encoder was driven with.
#[verifier::external_body]
pub(crate) fn gif_encoder_finish(e: GifEncoder) -> (r: Result<Vec<u8>, gif::EncodingError>)
    requires
        encoder_looping(e),
    ensures
        r matches Ok(bytes) ==> bytes@ == gif_stream(
            encoder_shape(e).0,
            encoder_shape(e).1,
            encoder_frames(e),
        ),
{
    e.inner.into_inner()
}

} // verus!
