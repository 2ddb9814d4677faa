use lo::listen::should_send;
use lo::types::ActivationMode;
use lo::listen::{
    clip_long_enough, DisabledWake, FrameBuffer, PttClip, WakeArm, WakeWord, ARM_TIMEOUT_FRAMES, MAX_CLIP_SAMPLES,
};

#[test]
fn frames_are_cut_in_order() {
    let mut b: FrameBuffer<i32> = FrameBuffer::new();
    b.extend(&[1, 2, 3, 4, 5]);
    assert_eq!(b.next_frame(2), Some(vec![1, 2]));
    assert_eq!(b.next_frame(2), Some(vec![3, 4]));
    assert_eq!(b.next_frame(2), None);
    assert_eq!(b.buf, vec![5]);
    b.clear();
    assert!(b.buf.is_empty());
}

#[test]
fn ptt_clip_is_handed_over_on_release() {
    let mut p: PttClip<u8> = PttClip::new();
    assert_eq!(p.step(false, &[9]), None);
    assert_eq!(p.step(true, &[1, 2]), None);
    assert_eq!(p.step(true, &[3]), None);
    assert_eq!(p.step(false, &[7]), Some(vec![1, 2, 3]));
    assert!(p.clip.is_empty());
    assert_eq!(p.step(false, &[]), None);
}

#[test]
fn ptt_clip_keeps_the_last_thirty_seconds() {
    let mut p: PttClip<u8> = PttClip::new();
    let chunk = vec![0u8; MAX_CLIP_SAMPLES];
    p.step(true, &chunk);
    p.step(true, &[1, 2, 3]);
    assert_eq!(p.clip.len(), MAX_CLIP_SAMPLES);
    assert_eq!(&p.clip[MAX_CLIP_SAMPLES - 3..], &[1, 2, 3]);
    assert!(clip_long_enough(3200));
    assert!(!clip_long_enough(3199));
}

#[test]
fn wake_arming_times_out() {
    let mut w = WakeArm::new();
    w.on_wake();
    for _ in 0..ARM_TIMEOUT_FRAMES {
        w.on_frame();
    }
    w.check_timeout();
    assert!(w.armed);
    w.on_frame();
    w.check_timeout();
    assert!(!w.armed);
    w.on_wake();
    w.on_speech_end();
    assert!(!w.armed);
}

#[test]
fn disabled_wake_never_fires() {
    let mut d = DisabledWake;
    assert_eq!(d.frame_length(), 1280);
    assert!(!d.process_i16(&[0i16; 1280]));
}

#[test]
fn vad_capture_drops_audio_while_lo_speaks() {
    let mut fb: lo::listen::FrameBuffer<i16> = lo::listen::FrameBuffer::new();
    assert!(!fb.vad_capture(false, &[1, 2, 3]));
    assert_eq!(fb.buf, vec![1, 2, 3]);
    assert!(fb.vad_capture(true, &[4, 5]));
    assert!(fb.buf.is_empty());
    assert!(!fb.vad_capture(false, &[6]));
    assert_eq!(fb.buf, vec![6]);
}

#[test]
fn only_ptt_sends_blank_transcripts() {
    assert!(should_send(ActivationMode::Ptt, "   "));
    assert!(should_send(ActivationMode::Ptt, "hi"));
    assert!(!should_send(ActivationMode::Vad, " \n "));
    assert!(should_send(ActivationMode::Vad, " hi "));
    assert!(!should_send(ActivationMode::Wake, ""));
    assert!(should_send(ActivationMode::Wake, "open mail"));
}
