use tc2_frames::buffer::DoubleBuffer;
use tc2_frames::decode::compute_bounds;
use tc2_frames::decode::decode_be_samples;
use tc2_frames::decode::decode_frame;
use tc2_frames::receiver::ingest_block;
use tc2_frames::receiver::receiver_step;
use tc2_frames::receiver::try_take_ready_frame;
use tc2_frames::receiver::ReceiverAction;
use tc2_frames::receiver::ReceiverEvent;
use tc2_frames::receiver::ReceiverState;
use tc2_frames::FRAME_BYTES;
use tc2_frames::SAMPLE_COUNT;
use tc2_frames::TELEMETRY_LENGTH;
use tc2_frames::TOTAL_BLOCK_BYTES;

fn packed(color: colorous::Color) -> u32 {
    255u32 << 24 | (color.r as u32) << 16 | (color.g as u32) << 8 | (color.b as u32)
}

#[test]
fn frame_integrity_across_cycles() {
    let mut buf = DoubleBuffer::new();
    for tag in 1u8..=4u8 {
        let frame = vec![tag; FRAME_BYTES];
        buf.write_back(&frame);
        buf.swap();
        assert_eq!(buf.read_front(), frame);
    }
}

#[test]
fn double_swap_restores_front() {
    let mut buf = DoubleBuffer::new();
    buf.write_back(&vec![7u8; FRAME_BYTES]);
    let front_before = buf.read_front();
    buf.swap();
    buf.swap();
    assert_eq!(buf.read_front(), front_before);
}

#[test]
fn uniform_frame_clamps_range() {
    // Every sample is 0x0102: min == max, range clamps to 1, one color.
    let mut frame = Vec::new();
    for _ in 0..SAMPLE_COUNT {
        frame.push(0x01u8);
        frame.push(0x02u8);
    }
    let samples = decode_be_samples(&frame);
    let (min, max) = compute_bounds(&samples);
    assert_eq!(min, 0x0102);
    assert_eq!(max, 0x0102);
    let img = decode_frame(&frame);
    let first = img.pixels[0];
    assert!(img.pixels.iter().all(|&p| p == first));
    assert_eq!(first, packed(colorous::VIRIDIS.eval_rational(0, 2)));
}

#[test]
fn bounds_exclude_zero_samples() {
    let samples = vec![0u16, 100, 0, 1000, 500, 0];
    let (min, max) = compute_bounds(&samples);
    assert_eq!(min, 100);
    assert_eq!(max, 1000);
}

#[test]
fn all_zero_frame_falls_back_to_full_range() {
    let frame = vec![0u8; FRAME_BYTES];
    let samples = decode_be_samples(&frame);
    let (min, max) = compute_bounds(&samples);
    assert_eq!(min, 0);
    assert_eq!(max, 65535);
    let img = decode_frame(&frame);
    assert_eq!(img.pixels.len(), SAMPLE_COUNT);
    let first = img.pixels[0];
    assert!(img.pixels.iter().all(|&p| p == first));
}

#[test]
fn empty_input_yields_fallback_bounds() {
    let samples = decode_be_samples(&[]);
    assert!(samples.is_empty());
    let (min, max) = compute_bounds(&samples);
    assert_eq!(min, 0);
    assert_eq!(max, 65535);
}

#[test]
fn samples_decode_big_endian() {
    let samples = decode_be_samples(&[0x01, 0x00]);
    assert_eq!(samples, vec![256u16]);
    let samples = decode_be_samples(&[0x00, 0x01, 0xAB, 0xCD]);
    assert_eq!(samples, vec![1u16, 0xABCD]);
}

#[test]
fn short_read_returns_to_accepting() {
    // A connection is accepted, then its read ends early: the loop must be
    // back to accepting, and the next connection must be taken.
    let (state, action) = receiver_step(ReceiverState::Accepting, ReceiverEvent::ConnectionAccepted);
    assert_eq!(action, ReceiverAction::AwaitBlock);
    let (state, action) = receiver_step(state, ReceiverEvent::ReadEnded);
    assert_eq!(state, ReceiverState::Accepting);
    assert_eq!(action, ReceiverAction::AwaitConnection);
    let (state, action) = receiver_step(state, ReceiverEvent::ConnectionAccepted);
    assert_eq!(state, ReceiverState::Connected);
    assert_eq!(action, ReceiverAction::AwaitBlock);
}

#[test]
fn complete_block_publishes_and_keeps_reading() {
    let (state, action) = receiver_step(ReceiverState::Connected, ReceiverEvent::BlockRead);
    assert_eq!(state, ReceiverState::Connected);
    assert_eq!(action, ReceiverAction::PublishFrame);
}

#[test]
fn nothing_ready_leaves_buffer_alone() {
    let mut buf = DoubleBuffer::new();
    buf.write_back(&vec![9u8; FRAME_BYTES]);
    let front_before = buf.read_front();
    assert!(try_take_ready_frame(&mut buf, false).is_none());
    assert_eq!(buf.read_front(), front_before);
}

#[test]
fn one_hot_sample_end_to_end() {
    // One block whose thermal payload is all samples 0x0064 (100) except
    // sample 5, which is 0x03E8 (1000). After receive + swap + decode,
    // exactly one pixel differs, and it is the gradient at t = 1.0.
    let hot_index = 5usize;
    let mut block = vec![0u8; TELEMETRY_LENGTH];
    for k in 0..SAMPLE_COUNT {
        if k == hot_index {
            block.push(0x03);
            block.push(0xE8);
        } else {
            block.push(0x00);
            block.push(0x64);
        }
    }
    assert_eq!(block.len(), TOTAL_BLOCK_BYTES);

    let mut buf = DoubleBuffer::new();
    ingest_block(&mut buf, &block);
    let img = try_take_ready_frame(&mut buf, true).expect("a frame was ready");
    assert_eq!(img.width, 160);
    assert_eq!(img.height, 120);
    assert_eq!(img.pixels.len(), SAMPLE_COUNT);

    let base = img.pixels[0];
    let hot = img.pixels[hot_index];
    assert_ne!(hot, base);
    let differing: Vec<usize> =
        (0..SAMPLE_COUNT).filter(|&k| img.pixels[k] != base).collect();
    assert_eq!(differing, vec![hot_index]);
    // min = 100, max = 1000, range = 900; the hot sample sits at the top.
    assert_eq!(hot, packed(colorous::VIRIDIS.eval_continuous(1.0)));
    assert_eq!(base, packed(colorous::VIRIDIS.eval_continuous(0.0)));
}
