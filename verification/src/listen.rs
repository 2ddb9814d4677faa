//! The listen loop's bookkeeping: splitting captured audio into fixed-size
//! frames, buffering a push-to-talk clip, and arming after the wake word. The
//! loop itself (draining the capture ring, running the models) is the
//! caller's; samples are kept generic so any sample type passes through.
use vstd::prelude::*;

use crate::chars::{trim, trimmed};
use crate::types::ActivationMode;

verus! {

/// Capture sample rate, in Hz.
pub const SAMPLE_RATE: usize = 16000;
/// Longest push-to-talk clip kept (30 s); older samples are dropped.
pub const MAX_CLIP_SAMPLES: usize = 480000;
/// The VAD's frame (32 ms at 16 kHz).
pub const VAD_FRAME: usize = 512;
/// How many VAD frames (about 8 s) wait for an utterance after the wake word.
pub const ARM_TIMEOUT_FRAMES: usize = 250;

/// Samples waiting to be cut into frames.
#[derive(Debug, Clone)]
pub struct FrameBuffer<T> {
    pub buf: Vec<T>,
}

impl<T: Copy> FrameBuffer<T> {
    /// An empty buffer.
    pub fn new() -> (r: FrameBuffer<T>)
        ensures
            r.buf@.len() == 0,
    {
        FrameBuffer { buf: Vec::new() }
    }

    /// Append captured samples.
    pub fn extend(&mut self, samples: &[T])
        ensures
            final(self).buf@ == old(self).buf@ + samples@,
    {
        let mut i: usize = 0;
        let ghost start = self.buf@;
        while i < samples.len()
            invariant
                i <= samples@.len(),
                self.buf@ == start + samples@.take(i as int),
            decreases samples@.len() - i,
        {
            self.buf.push(samples[i]);
            assert(samples@.take(i + 1) == samples@.take(i as int).push(samples@[i as int]));
            i = i + 1;
        }
        assert(samples@.take(samples@.len() as int) == samples@);
    }

    /// One step of voice-activity capture. While Lo's own speech is playing,
    /// the captured audio is discarded along with everything buffered, and the
    /// caller resets the segmenter (`true`), so Lo never hears itself as the
    /// user; otherwise the samples are buffered (`false`).
    pub fn vad_capture(&mut self, playing: bool, samples: &[T]) -> (reset: bool)
        ensures
            reset == playing,
            playing ==> final(self).buf@.len() == 0,
            !playing ==> final(self).buf@ == old(self).buf@ + samples@,
    {
        if playing {
            self.clear();
            true
        } else {
            self.extend(samples);
            false
        }
    }

    /// Drop everything buffered.
    pub fn clear(&mut self)
        ensures
            final(self).buf@.len() == 0,
    {
        self.buf.clear();
    }

    /// Cut the next frame of `n` samples off the front, when that many are
    /// buffered.
    pub fn next_frame(&mut self, n: usize) -> (r: Option<Vec<T>>)
        ensures
            old(self).buf@.len() >= n ==> (r matches Some(f) && f@ == old(self).buf@.take(n as int)
                && final(self).buf@ == old(self).buf@.skip(n as int)),
            old(self).buf@.len() < n ==> r is None && final(self).buf@ == old(self).buf@,
    {
        if self.buf.len() < n {
            return None;
        }
        let mut frame: Vec<T> = Vec::new();
        let mut rest: Vec<T> = Vec::new();
        let mut i: usize = 0;
        while i < self.buf.len()
            invariant
                n <= self.buf@.len(),
                i <= self.buf@.len(),
                self.buf@ == old(self).buf@,
                i <= n ==> frame@ == self.buf@.take(i as int) && rest@.len() == 0,
                i > n ==> frame@ == self.buf@.take(n as int) && rest@ == self.buf@.subrange(n as int, i as int),
            decreases self.buf@.len() - i,
        {
            if i < n {
                frame.push(self.buf[i]);
                assert(self.buf@.take(i + 1) == self.buf@.take(i as int).push(self.buf@[i as int]));
            } else {
                rest.push(self.buf[i]);
                assert(self.buf@.subrange(n as int, i + 1) == self.buf@.subrange(n as int, i as int).push(
                    self.buf@[i as int],
                ));
            }
            i = i + 1;
        }
        assert(self.buf@.subrange(n as int, self.buf@.len() as int) == self.buf@.skip(n as int));
        assert(rest@ == self.buf@.skip(n as int));
        self.buf = rest;
        Some(frame)
    }
}

/// The last `max` items of `s` (all of them when there are fewer).
pub open spec fn keep_last<T>(s: Seq<T>, max: nat) -> Seq<T> {
    if s.len() > max {
        s.skip(s.len() - max)
    } else {
        s
    }
}

/// A push-to-talk clip being recorded, and whether the key was held on the
/// previous step.
#[derive(Debug, Clone)]
pub struct PttClip<T> {
    pub clip: Vec<T>,
    pub was_active: bool,
}

impl<T: Copy> PttClip<T> {
    /// Nothing recorded, key up.
    pub fn new() -> (r: PttClip<T>)
        ensures
            r.clip@.len() == 0,
            !r.was_active,
    {
        PttClip { clip: Vec::new(), was_active: false }
    }

    /// One step of the listen loop: `samples` were captured while the key was
    /// `active`. While held, the samples are recorded (keeping the last
    /// [`MAX_CLIP_SAMPLES`]); on release (the falling edge) the finished clip is
    /// handed back for transcription and recording starts over.
    pub fn step(&mut self, active: bool, samples: &[T]) -> (r: Option<Vec<T>>)
        ensures
            final(self).was_active == active,
            active ==> r is None && final(self).clip@ == keep_last(
                old(self).clip@ + samples@,
                MAX_CLIP_SAMPLES as nat,
            ),
            !active && old(self).was_active ==> (r matches Some(c) && c@ == old(self).clip@
                && final(self).clip@.len() == 0),
            !active && !old(self).was_active ==> r is None && final(self).clip@ == old(self).clip@,
    {
        if active {
            let ghost all = self.clip@ + samples@;
            let mut i: usize = 0;
            let ghost start = self.clip@;
            while i < samples.len()
                invariant
                    i <= samples@.len(),
                    self.clip@ == start + samples@.take(i as int),
                decreases samples@.len() - i,
            {
                self.clip.push(samples[i]);
                assert(samples@.take(i + 1) == samples@.take(i as int).push(samples@[i as int]));
                i = i + 1;
            }
            assert(samples@.take(samples@.len() as int) == samples@);
            assert(self.clip@ == all);
            if self.clip.len() > MAX_CLIP_SAMPLES {
                let cut = self.clip.len() - MAX_CLIP_SAMPLES;
                let tail = self.clip.split_off(cut);
                self.clip = tail;
            }
            self.was_active = true;
            None
        } else if self.was_active {
            let mut clip: Vec<T> = Vec::new();
            std::mem::swap(&mut clip, &mut self.clip);
            self.was_active = false;
            Some(clip)
        } else {
            None
        }
    }
}

/// Whether a finished push-to-talk clip is long enough to transcribe (shorter
/// ones are misfires).
pub fn clip_long_enough(len: usize) -> (r: bool)
    ensures
        r == (len >= crate::session::MIN_PTT_SAMPLES),
{
    len >= crate::session::MIN_PTT_SAMPLES
}

/// Whether a transcript is handed on as the user's turn: push-to-talk always
/// reports the release (the session drops a blank one), while the VAD and wake
/// modes, which fire on any noise, pass on only a transcript with words in it.
pub fn should_send(mode: ActivationMode, text: &str) -> (r: bool)
    ensures
        r == (mode is Ptt || trim(text@).len() > 0),
{
    match mode {
        ActivationMode::Ptt => true,
        _ => {
            let t = trimmed(text);
            !t.as_str().is_empty()
        },
    }
}

/// Wake-word arming: after the wake word fires, the next utterance is captured,
/// for at most [`ARM_TIMEOUT_FRAMES`] VAD frames.
#[derive(Debug, Clone, Copy)]
pub struct WakeArm {
    pub armed: bool,
    pub armed_frames: usize,
}

impl WakeArm {
    /// Waiting for the wake word.
    pub fn new() -> (r: WakeArm)
        ensures
            !r.armed,
            r.armed_frames == 0,
    {
        WakeArm { armed: false, armed_frames: 0 }
    }

    /// The wake word fired: capture the utterance that follows.
    pub fn on_wake(&mut self)
        ensures
            final(self).armed,
            final(self).armed_frames == 0,
    {
        self.armed = true;
        self.armed_frames = 0;
    }

    /// One VAD frame of the utterance was processed.
    pub fn on_frame(&mut self)
        requires
            old(self).armed_frames < usize::MAX,
        ensures
            final(self).armed == old(self).armed,
            final(self).armed_frames == old(self).armed_frames + 1,
    {
        self.armed_frames = self.armed_frames + 1;
    }

    /// The utterance ended: go back to waiting for the wake word.
    pub fn on_speech_end(&mut self)
        ensures
            !final(self).armed,
            final(self).armed_frames == old(self).armed_frames,
    {
        self.armed = false;
    }

    /// Give up when no utterance arrived in time.
    pub fn check_timeout(&mut self)
        ensures
            final(self).armed == (old(self).armed && old(self).armed_frames <= ARM_TIMEOUT_FRAMES),
            final(self).armed_frames == old(self).armed_frames,
    {
        if self.armed && self.armed_frames > ARM_TIMEOUT_FRAMES {
            self.armed = false;
        }
    }
}

/// A frame-driven wake-word detector: it consumes fixed-length 16 kHz mono
/// `i16` frames and reports when the keyword fires.
pub trait WakeWord: Send {
    /// Process exactly one frame of `frame_length()` samples; `true` on the
    /// frame where the wake word fires.
    fn process_i16(&mut self, frame_16k_i16: &[i16]) -> bool;

    /// The exact number of samples each frame must hold (80 ms at 16 kHz).
    fn frame_length(&self) -> usize;
}

/// A wake-word detector that never fires, used when no detector is available:
/// the app falls back to push-to-talk or VAD.
#[derive(Debug, Default, Clone, Copy)]
pub struct DisabledWake;

impl WakeWord for DisabledWake {
    fn process_i16(&mut self, frame_16k_i16: &[i16]) -> (r: bool)
        ensures
            !r,
    {
        false
    }

    fn frame_length(&self) -> (r: usize)
        ensures
            r == 1280,
    {
        1280
    }
}

} // verus!
