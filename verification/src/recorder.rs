//! The frame-capture session: a two-state machine (`Idle` / `Recording`)
//! that accumulates externally rendered RGB frames and, on demand, encodes
//! them into one infinitely looping animated-image byte stream with a fixed
//! per-frame delay.

use vstd::prelude::*;

use crate::gif_codec::GifEncoder;
use crate::gif_codec::encoder_frames;
use crate::gif_codec::encoder_looping;
use crate::gif_codec::encoder_shape;
use crate::gif_codec::gif_encoder_finish;
use crate::gif_codec::gif_encoder_new;
use crate::gif_codec::gif_encoder_set_infinite;
use crate::gif_codec::gif_stream;
use crate::gif_codec::gif_write_rgb_frame;

verus! {

/// How a recorder call can fail; the engine side of the crate never errors,
/// the recorder surfaces every contract violation.
#[derive(Debug, Clone, Copy, PartialEq, Eq, Structural)]
pub enum RecorderError {
    /// A supplied pixel buffer does not match the declared dimensions.
    DimensionMismatch,
    /// The operation requires the other state of the session.
    InvalidRecordingState,
    /// Stopping with zero captured frames.
    EmptyCapture,
    /// The underlying container or frame serialization failed.
    EncodingFailure,
}

/// Mathematical state of a session: the declared canvas, the per-frame delay
/// in milliseconds, the state-machine flag, and the captured frames in
/// order.
pub ghost struct RecState {
    pub width: u16,
    pub height: u16,
    pub frame_delay_ms: u16,
    pub recording: bool,
    pub frames: Seq<Seq<u8>>,
}

/// Sessions reachable through the public operations: every captured frame
/// holds exactly width * height * 3 RGB bytes, and frames accumulate only
/// while recording.
pub open spec fn wf_recorder(s: RecState) -> bool {
    &&& forall|i: int|
        0 <= i < s.frames.len() ==> (#[trigger] s.frames[i]).len() == s.width * s.height * 3
    &&& !s.recording ==> s.frames.len() == 0
}

/// The millisecond delay converted to the format's native 10 ms units,
/// rounded half-up so that sub-unit delays do not silently become zero.
pub open spec fn delay_centis(ms: u16) -> u16 {
    ((ms + 5) / 10) as u16
}

/// Every captured frame tagged with the same converted delay, in capture
/// order.
pub open spec fn tagged_frames(frames: Seq<Seq<u8>>, delay: u16) -> Seq<(Seq<u8>, u16)> {
    Seq::new(frames.len(), |i: int| (frames[i], delay))
}

/// A frame-capture session.
pub struct GifRecorder {
    width: u16,
    height: u16,
    frame_delay_ms: u16,
    recording: bool,
    frames: Vec<Vec<u8>>,
}

impl View for GifRecorder {
    type V = RecState;

    closed spec fn view(&self) -> RecState {
        RecState {
            width: self.width,
            height: self.height,
            frame_delay_ms: self.frame_delay_ms,
            recording: self.recording,
            frames: self.frames.deep_view(),
        }
    }
}

impl GifRecorder {
    /// An idle session with the default 100 ms frame delay.
    pub fn new() -> (rec: GifRecorder)
        ensures
            rec@ == (RecState {
                width: 0u16,
                height: 0u16,
                frame_delay_ms: 100u16,
                recording: false,
                frames: Seq::<Seq<u8>>::empty(),
            }),
            wf_recorder(rec@),
    {
        let rec = GifRecorder {
            width: 0,
            height: 0,
            frame_delay_ms: 100,
            recording: false,
            frames: Vec::new(),
        };
        proof {
            assert(rec.frames.deep_view() =~~= Seq::<Seq<u8>>::empty());
        }
        rec
    }

    /// Enters `Recording` with the declared canvas and delay and an empty
    /// frame sequence; fails — changing nothing — if already recording.
    pub fn start_recording(&mut self, width: usize, height: usize, frame_delay_ms: u16) -> (r:
        Result<(), RecorderError>)
        requires
            wf_recorder(old(self)@),
            width <= u16::MAX,
            height <= u16::MAX,
        ensures
            old(self)@.recording ==> r == Result::<(), RecorderError>::Err(
                RecorderError::InvalidRecordingState,
            ) && final(self)@ == old(self)@,
            !old(self)@.recording ==> r is Ok && final(self)@ == (RecState {
                width: width as u16,
                height: height as u16,
                frame_delay_ms,
                recording: true,
                frames: Seq::<Seq<u8>>::empty(),
            }),
            wf_recorder(final(self)@),
    {
        if self.recording {
            return Err(RecorderError::InvalidRecordingState);
        }
        self.width = width as u16;
        self.height = height as u16;
        self.frame_delay_ms = frame_delay_ms;
        self.frames = Vec::new();
        self.recording = true;
        proof {
            assert(self.frames.deep_view() =~~= Seq::<Seq<u8>>::empty());
        }
        Ok(())
    }

    /// Appends a copy of one RGB frame; fails — changing nothing — when not
    /// recording, or when the buffer length is not width * height * 3.
    pub fn capture_frame(&mut self, rgb_data: &[u8]) -> (r: Result<(), RecorderError>)
        requires
            wf_recorder(old(self)@),
        ensures
            !old(self)@.recording ==> r == Result::<(), RecorderError>::Err(
                RecorderError::InvalidRecordingState,
            ) && final(self)@ == old(self)@,
            old(self)@.recording && rgb_data@.len() != old(self)@.width * old(self)@.height * 3
                ==> r == Result::<(), RecorderError>::Err(RecorderError::DimensionMismatch) && final(self)@ == old(self)@,
            old(self)@.recording && rgb_data@.len() == old(self)@.width * old(self)@.height * 3
                ==> r is Ok && final(self)@ == (RecState {
                frames: old(self)@.frames.push(rgb_data@),
                ..old(self)@
            }),
            wf_recorder(final(self)@),
    {
        if !self.recording {
            return Err(RecorderError::InvalidRecordingState);
        }
        let w = self.width as u64;
        let h = self.height as u64;
        proof {
            assert(w * h <= 65535 * 65535) by (nonlinear_arith)
                requires
                    w <= 65535,
                    h <= 65535,
            {}
        }
        let expected: u64 = w * h * 3;
        if rgb_data.len() as u64 != expected {
            return Err(RecorderError::DimensionMismatch);
        }
        let frame = vstd::slice::slice_to_vec(rgb_data);
        self.frames.push(frame);
        proof {
            assert(self.frames.deep_view() =~~= old(self)@.frames.push(rgb_data@));
        }
        Ok(())
    }

    /// Leaves `Recording`, encoding the captured frames in capture order
    /// into one infinitely looping byte stream, each frame tagged with the
    /// converted delay, and clears the frame sequence. Fails — changing
    /// nothing — when not recording, when no frame was captured, or when the
    /// underlying encoder reports a failure.
    #[verifier::loop_isolation(false)]
    pub fn stop_recording(&mut self) -> (r: Result<Vec<u8>, RecorderError>)
        requires
            wf_recorder(old(self)@),
        ensures
            match r {
                Ok(bytes) => old(self)@.recording && old(self)@.frames.len() > 0 && bytes@
                    == gif_stream(
                    old(self)@.width,
                    old(self)@.height,
                    tagged_frames(old(self)@.frames, delay_centis(old(self)@.frame_delay_ms)),
                ) && final(self)@ == (RecState {
                    recording: false,
                    frames: Seq::<Seq<u8>>::empty(),
                    ..old(self)@
                }),
                Err(RecorderError::InvalidRecordingState) => !old(self)@.recording && final(self)@
                    == old(self)@,
                Err(RecorderError::EmptyCapture) => old(self)@.recording && old(self)@.frames.len() == 0 && final(self)@ == old(self)@,
                Err(RecorderError::EncodingFailure) => old(self)@.recording && old(self)@.frames.len() > 0 && final(self)@ == old(self)@,
                Err(RecorderError::DimensionMismatch) => false,
            },
            wf_recorder(final(self)@),
    {
        if !self.recording {
            return Err(RecorderError::InvalidRecordingState);
        }
        let frame_count = self.frames.len();
        if frame_count == 0 {
            return Err(RecorderError::EmptyCapture);
        }
        let raw: u32 = (self.frame_delay_ms as u32 + 5) / 10;
        assert(raw <= 6554);
        let delay: u16 = raw as u16;
        let mut enc = match gif_encoder_new(self.width, self.height) {
            Ok(enc) => enc,
            Err(_) => {
                return Err(RecorderError::EncodingFailure);
            },
        };
        match gif_encoder_set_infinite(&mut enc) {
            Ok(()) => (),
            Err(_) => {
                return Err(RecorderError::EncodingFailure);
            },
        }
        let ghost all = old(self)@.frames;
        let ghost shape = (old(self)@.width, old(self)@.height);
        let mut i: usize = 0;
        while i < frame_count
            invariant
                i <= frame_count,
                encoder_shape(enc) == shape,
                encoder_looping(enc),
                encoder_frames(enc) == tagged_frames(all.take(i as int), delay),
            decreases frame_count - i,
        {
            let written = gif_write_rgb_frame(&mut enc, self.width, self.height, delay, &self.frames[i]);
            match written {
                Ok(()) => (),
                Err(_) => {
                    return Err(RecorderError::EncodingFailure);
                },
            }
            proof {
                assert(all[i as int] =~= self.frames@[i as int]@);
                assert(tagged_frames(all.take(i + 1), delay) =~= tagged_frames(
                    all.take(i as int),
                    delay,
                ).push((all[i as int], delay)));
            }
            i = i + 1;
        }
        proof {
            assert(all.take(frame_count as int) =~= all);
        }
        let bytes = match gif_encoder_finish(enc) {
            Ok(bytes) => bytes,
            Err(_) => {
                return Err(RecorderError::EncodingFailure);
            },
        };
        self.recording = false;
        self.frames = Vec::new();
        proof {
            assert(self.frames.deep_view() =~~= Seq::<Seq<u8>>::empty());
        }
        Ok(bytes)
    }

    /// Whether the session is currently recording.
    pub fn is_recording(&self) -> (r: bool)
        ensures
            r == self@.recording,
    {
        self.recording
    }

    /// The per-frame delay in milliseconds, readable in either state.
    pub fn get_frame_delay(&self) -> (d: u16)
        ensures
            d == self@.frame_delay_ms,
    {
        self.frame_delay_ms
    }
}

} // verus!
